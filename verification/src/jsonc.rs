//! JSON values and their spaced rendering, `{ "key": value }`.

use crate::text::same_text;
use vstd::prelude::*;

verus! {

/// A JSON value. A number keeps the text it is written with, and an object keeps its fields in
/// the order in which they were added.
pub enum Json {
    Null,
    Bool(bool),
    Number(String),
    Text(String),
    Array(Vec<Json>),
    Object(Vec<(String, Json)>),
}

/// What a JSON value holds.
#[verifier::ext_equal]
pub enum JsonView {
    Null,
    Bool(bool),
    Number(Seq<char>),
    Text(Seq<char>),
    Array(Seq<JsonView>),
    Object(Seq<(Seq<char>, JsonView)>),
}

impl View for Json {
    type V = JsonView;

    open spec fn view(&self) -> JsonView {
        json_view(*self)
    }
}

/// What a JSON value holds.
pub open spec fn json_view(value: Json) -> JsonView
    decreases value,
{
    match value {
        Json::Null => JsonView::Null,
        Json::Bool(b) => JsonView::Bool(b),
        Json::Number(n) => JsonView::Number(n@),
        Json::Text(s) => JsonView::Text(s@),
        Json::Array(items) => JsonView::Array(items_view(items@)),
        Json::Object(fields) => JsonView::Object(fields_view(fields@)),
    }
}

/// The elements of an array, in order.
pub open spec fn items_view(items: Seq<Json>) -> Seq<JsonView>
    decreases items,
{
    if items.len() == 0 {
        Seq::empty()
    } else {
        items_view(items.drop_last()).push(json_view(items.last()))
    }
}

/// The fields of an object, in order.
pub open spec fn fields_view(fields: Seq<(String, Json)>) -> Seq<(Seq<char>, JsonView)>
    decreases fields,
{
    if fields.len() == 0 {
        Seq::empty()
    } else {
        fields_view(fields.drop_last()).push((fields.last().0@, json_view(fields.last().1)))
    }
}

/// The lower-case hexadecimal digit for a number below sixteen.
pub open spec fn hex_digit(d: int) -> char {
    if d < 10 {
        (48 + d) as char
    } else {
        (87 + d) as char
    }
}

/// How one character stands inside a JSON string literal.
pub open spec fn escaped_char(c: char) -> Seq<char> {
    if c == '"' {
        seq!['\\', '"']
    } else if c == '\\' {
        seq!['\\', '\\']
    } else if c == '\u{8}' {
        seq!['\\', 'b']
    } else if c == '\t' {
        seq!['\\', 't']
    } else if c == '\n' {
        seq!['\\', 'n']
    } else if c == '\u{c}' {
        seq!['\\', 'f']
    } else if c == '\r' {
        seq!['\\', 'r']
    } else if (c as u32) <= 31 {
        seq!['\\', 'u', '0', '0', hex_digit(c as int / 16), hex_digit(c as int % 16)]
    } else {
        seq![c]
    }
}

/// A text as it stands between the quotes of a JSON string literal.
pub open spec fn escaped(s: Seq<char>) -> Seq<char>
    decreases s.len(),
{
    if s.len() == 0 {
        Seq::empty()
    } else {
        escaped(s.drop_last()) + escaped_char(s.last())
    }
}

/// The JSON string literal for a text.
pub open spec fn quoted(s: Seq<char>) -> Seq<char> {
    seq!['"'] + escaped(s) + seq!['"']
}

/// What stands before an element of an array or a field of an object.
pub open spec fn lead(first: bool) -> Seq<char> {
    if first {
        " "@
    } else {
        ", "@
    }
}

/// The spaced rendering of a value.
pub open spec fn spaced(v: JsonView) -> Seq<char>
    decreases v,
{
    match v {
        JsonView::Null => "null"@,
        JsonView::Bool(b) => if b {
            "true"@
        } else {
            "false"@
        },
        JsonView::Number(n) => n,
        JsonView::Text(s) => quoted(s),
        JsonView::Array(items) => "["@ + spaced_items(items) + " ]"@,
        JsonView::Object(fields) => "{"@ + spaced_fields(fields) + " }"@,
    }
}

/// The elements of an array, each behind its lead.
pub open spec fn spaced_items(items: Seq<JsonView>) -> Seq<char>
    decreases items,
{
    if items.len() == 0 {
        Seq::empty()
    } else {
        spaced_items(items.drop_last()) + lead(items.len() == 1) + spaced(items.last())
    }
}

/// The fields of an object, each behind its lead.
pub open spec fn spaced_fields(fields: Seq<(Seq<char>, JsonView)>) -> Seq<char>
    decreases fields,
{
    if fields.len() == 0 {
        Seq::empty()
    } else {
        spaced_fields(fields.drop_last()) + lead(fields.len() == 1) + quoted(fields.last().0)
            + ": "@ + spaced(fields.last().1)
    }
}

/// The fields after `key` was given `value`: an existing field keeps its place, a new one goes to
/// the end.
pub open spec fn with_field(
    fields: Seq<(Seq<char>, JsonView)>,
    key: Seq<char>,
    value: JsonView,
) -> Seq<(Seq<char>, JsonView)>
    decreases fields.len(),
{
    if fields.len() == 0 {
        seq![(key, value)]
    } else if fields[0].0 == key {
        seq![(key, value)] + fields.drop_first()
    } else {
        seq![fields[0]] + with_field(fields.drop_first(), key, value)
    }
}

/// `serde_json::to_string` on a string: the string literal with `"`, `\` and the control
/// characters below U+0020 escaped, the short escapes where JSON has them and `\u00xx` in lower
/// case elsewhere.
#[verifier::external_body]
fn quote(text: &str) -> (r: String)
    ensures
        r@ == quoted(text@),
{
    serde_json::to_string(text).unwrap_or_default()
}

/// The layout that `{ "key": value }` and `[ 1, 2 ]` are written in.
#[derive(Clone, Copy, Debug, PartialEq, Eq, Structural)]
pub struct SpacedFormatter;

impl Default for SpacedFormatter {
    fn default() -> (r: SpacedFormatter)
        ensures
            r == SpacedFormatter,
    {
        SpacedFormatter
    }
}

impl SpacedFormatter {
    /// Opens an object.
    pub fn begin_object(&mut self, out: &mut String)
        ensures
            final(out)@ == old(out)@ + "{"@,
    {
        out.append("{");
    }

    /// Closes an object.
    pub fn end_object(&mut self, out: &mut String)
        ensures
            final(out)@ == old(out)@ + " }"@,
    {
        out.append(" }");
    }

    /// Leads in a field of an object.
    pub fn begin_object_key(&mut self, out: &mut String, first: bool)
        ensures
            final(out)@ == old(out)@ + lead(first),
    {
        if first {
            out.append(" ");
        } else {
            out.append(", ");
        }
    }

    /// Parts a field's name from its value.
    pub fn begin_object_value(&mut self, out: &mut String)
        ensures
            final(out)@ == old(out)@ + ": "@,
    {
        out.append(": ");
    }

    /// Opens an array.
    pub fn begin_array(&mut self, out: &mut String)
        ensures
            final(out)@ == old(out)@ + "["@,
    {
        out.append("[");
    }

    /// Closes an array.
    pub fn end_array(&mut self, out: &mut String)
        ensures
            final(out)@ == old(out)@ + " ]"@,
    {
        out.append(" ]");
    }

    /// Leads in an element of an array.
    pub fn begin_array_value(&mut self, out: &mut String, first: bool)
        ensures
            final(out)@ == old(out)@ + lead(first),
    {
        if first {
            out.append(" ");
        } else {
            out.append(", ");
        }
    }
}

/// Each element of an array is seen at its place.
proof fn lemma_items_view(items: Seq<Json>)
    ensures
        items_view(items).len() == items.len(),
        forall|i: int| 0 <= i < items.len() ==> #[trigger] items_view(items)[i] == items[i]@,
    decreases items.len(),
{
    if items.len() > 0 {
        lemma_items_view(items.drop_last());
        assert forall|i: int| 0 <= i < items.len() implies #[trigger] items_view(items)[i]
            == items[i]@ by {
            if i < items.len() - 1 {
                assert(items_view(items.drop_last())[i] == items.drop_last()[i]@);
            }
        }
    }
}

/// Each field of an object is seen at its place.
pub proof fn lemma_fields_view(fields: Seq<(String, Json)>)
    ensures
        fields_view(fields).len() == fields.len(),
        forall|i: int|
            0 <= i < fields.len() ==> #[trigger] fields_view(fields)[i] == (
                fields[i].0@,
                fields[i].1@,
            ),
    decreases fields.len(),
{
    if fields.len() > 0 {
        lemma_fields_view(fields.drop_last());
        assert forall|i: int| 0 <= i < fields.len() implies #[trigger] fields_view(fields)[i] == (
            fields[i].0@,
            fields[i].1@,
        ) by {
            if i < fields.len() - 1 {
                assert(fields_view(fields.drop_last())[i] == (
                    fields.drop_last()[i].0@,
                    fields.drop_last()[i].1@,
                ));
            }
        }
    }
}

/// Appends the spaced rendering of `value` to `out`.
fn write_value(value: &Json, layout: &mut SpacedFormatter, out: &mut String)
    ensures
        final(out)@ == old(out)@ + spaced(value@),
    decreases value,
{
    match value {
        Json::Null => out.append("null"),
        Json::Bool(b) => {
            if *b {
                out.append("true");
            } else {
                out.append("false");
            }
        },
        Json::Number(n) => out.append(n.as_str()),
        Json::Text(s) => {
            let literal = quote(s.as_str());
            out.append(literal.as_str());
        },
        Json::Array(items) => {
            let ghost all = items_view(items@);
            let ghost before = out@;
            proof {
                lemma_items_view(items@);
            }
            layout.begin_array(out);
            let mut i: usize = 0;
            while i < items.len()
                invariant
                    i <= items@.len(),
                    value == Json::Array(*items),
                    value@ == JsonView::Array(all),
                    all.len() == items@.len(),
                    forall|j: int| 0 <= j < items@.len() ==> #[trigger] all[j] == items@[j]@,
                    out@ == before + "["@ + spaced_items(all.take(i as int)),
                decreases items@.len() - i,
            {
                layout.begin_array_value(out, i == 0);
                assert(decreases_to!(value => items@[i as int]));
                write_value(&items[i], layout, out);
                proof {
                    assert(all.take(i + 1).drop_last() == all.take(i as int));
                    assert(all.take(i + 1).last() == all[i as int]);
                }
                i += 1;
            }
            layout.end_array(out);
            assert(all.take(items@.len() as int) == all);
        },
        Json::Object(fields) => {
            let ghost all = fields_view(fields@);
            let ghost before = out@;
            proof {
                lemma_fields_view(fields@);
            }
            layout.begin_object(out);
            let mut i: usize = 0;
            while i < fields.len()
                invariant
                    i <= fields@.len(),
                    value == Json::Object(*fields),
                    value@ == JsonView::Object(all),
                    all.len() == fields@.len(),
                    forall|j: int|
                        0 <= j < fields@.len() ==> #[trigger] all[j] == (fields@[j].0@, fields@[j].1@),
                    out@ == before + "{"@ + spaced_fields(all.take(i as int)),
                decreases fields@.len() - i,
            {
                layout.begin_object_key(out, i == 0);
                let name = quote(fields[i].0.as_str());
                out.append(name.as_str());
                layout.begin_object_value(out);
                assert(decreases_to!(value => fields@[i as int].1));
                write_value(&fields[i].1, layout, out);
                proof {
                    assert(all.take(i + 1).drop_last() == all.take(i as int));
                    assert(all.take(i + 1).last() == all[i as int]);
                }
                i += 1;
            }
            layout.end_object(out);
            assert(all.take(fields@.len() as int) == all);
        },
    }
}

/// The spaced rendering of a value: `{ "a": 1 }`, `[ 1, 2 ]`, and `{ }` or `[ ]` when empty.
pub fn to_string(value: &Json) -> (r: String)
    ensures
        r@ == spaced(value@),
{
    let mut out = String::new();
    let mut layout = SpacedFormatter;
    write_value(value, &mut layout, &mut out);
    out
}

/// A field is set at its first place, or behind all others when the key is new.
pub proof fn lemma_with_field(
    fields: Seq<(Seq<char>, JsonView)>,
    key: Seq<char>,
    value: JsonView,
    k: int,
)
    requires
        0 <= k <= fields.len(),
        k < fields.len() ==> fields[k].0 == key,
        forall|j: int| 0 <= j < k ==> (#[trigger] fields[j]).0 != key,
    ensures
        with_field(fields, key, value) == if k < fields.len() {
            fields.update(k, (key, value))
        } else {
            fields.push((key, value))
        },
    decreases k,
{
    if k > 0 {
        let rest = fields.drop_first();
        assert forall|j: int| 0 <= j < k - 1 implies (#[trigger] rest[j]).0 != key by {
            assert(rest[j] == fields[j + 1]);
        }
        lemma_with_field(rest, key, value, k - 1);
        assert(fields[0].0 != key);
        if k < fields.len() {
            assert(with_field(fields, key, value) =~= fields.update(k, (key, value)));
        } else {
            assert(with_field(fields, key, value) =~= fields.push((key, value)));
        }
    } else if fields.len() > 0 {
        assert(with_field(fields, key, value) =~= fields.update(0, (key, value)));
    } else {
        assert(with_field(fields, key, value) =~= fields.push((key, value)));
    }
}

/// Gives the field `key` the value `value`, in its place if there is one and else at the end.
pub fn set_field(fields: &mut Vec<(String, Json)>, key: String, value: Json)
    ensures
        fields_view(final(fields)@) == with_field(fields_view(old(fields)@), key@, value@),
{
    let ghost seen = fields_view(fields@);
    proof {
        lemma_fields_view(fields@);
    }
    let mut k: usize = 0;
    while k < fields.len()
        invariant
            k <= fields@.len(),
            fields@ == old(fields)@,
            seen == fields_view(fields@),
            seen.len() == fields@.len(),
            forall|j: int|
                0 <= j < fields@.len() ==> #[trigger] seen[j] == (fields@[j].0@, fields@[j].1@),
            forall|j: int| 0 <= j < k ==> (#[trigger] seen[j]).0 != key@,
        decreases fields@.len() - k,
    {
        assert(seen[k as int] == (fields@[k as int].0@, fields@[k as int].1@));
        if same_text(fields[k].0.as_str(), key.as_str()) {
            proof {
                lemma_with_field(seen, key@, value@, k as int);
            }
            fields[k] = (key, value);
            proof {
                lemma_fields_view(fields@);
                assert(fields_view(fields@) =~= seen.update(k as int, (key@, value@)));
            }
            return ;
        }
        k += 1;
    }
    proof {
        lemma_with_field(seen, key@, value@, k as int);
    }
    fields.push((key, value));
    proof {
        lemma_fields_view(fields@);
        assert(fields_view(fields@) =~= seen.push((key@, value@)));
    }
}

/// A parsed document of `serde_json`.
#[verifier::external_type_specification]
#[verifier::external_body]
pub struct ExValue(serde_json::Value);

/// What a parsed document of `serde_json` holds.
pub uninterp spec fn document(value: serde_json::Value) -> JsonView;

/// What `serde_json::from_str` reads a text as: nothing when the text is not one JSON document.
pub uninterp spec fn json_value(text: Seq<char>) -> Option<JsonView>;

/// `serde_json::from_str` into its generic value. The document depends on the text alone.
#[verifier::external_body]
fn parse_document(text: &str) -> (r: Option<serde_json::Value>)
    ensures
        match r {
            Some(v) => json_value(text@) == Some(document(v)),
            None => json_value(text@) is None,
        },
{
    serde_json::from_str::<serde_json::Value>(text).ok()
}

/// The contents of a `serde_json::Value`, variant by variant. Numbers are written by
/// `serde_json::Number`'s `to_string`, as its serializer writes them.
#[verifier::external_body]
fn open_document(value: serde_json::Value) -> (r: Json)
    ensures
        r@ == document(value),
{
    match value {
        serde_json::Value::Null => Json::Null,
        serde_json::Value::Bool(b) => Json::Bool(b),
        serde_json::Value::Number(n) => Json::Number(n.to_string()),
        serde_json::Value::String(s) => Json::Text(s),
        serde_json::Value::Array(items) => Json::Array(items.into_iter().map(open_document).collect()),
        serde_json::Value::Object(fields) => Json::Object(
            fields.into_iter().map(|(name, item)| (name, open_document(item))).collect(),
        ),
    }
}

/// Reads one JSON document.
pub fn read_json(text: &str) -> (r: Option<Json>)
    ensures
        match r {
            Some(v) => json_value(text@) == Some(v@),
            None => json_value(text@) is None,
        },
{
    match parse_document(text) {
        Some(value) => Some(open_document(value)),
        None => None,
    }
}

/// Setting a field leaves every other field where and as it was, and keeps the keys distinct.
pub proof fn law_fields_keep_their_order(
    fields: Seq<(Seq<char>, JsonView)>,
    key: Seq<char>,
    value: JsonView,
)
    requires
        forall|i: int, j: int|
            0 <= i < j < fields.len() ==> (#[trigger] fields[i]).0 != (#[trigger] fields[j]).0,
    ensures
        ({
            let after = with_field(fields, key, value);
            &&& fields.len() <= after.len() <= fields.len() + 1
            &&& forall|i: int|
                0 <= i < fields.len() ==> #[trigger] after[i] == if fields[i].0 == key {
                    (key, value)
                } else {
                    fields[i]
                }
            &&& exists|i: int| 0 <= i < after.len() && after[i] == (key, value)
            &&& forall|i: int, j: int|
                0 <= i < j < after.len() ==> (#[trigger] after[i]).0 != (#[trigger] after[j]).0
        }),
    decreases fields.len(),
{
    if exists|k: int| 0 <= k < fields.len() && (#[trigger] fields[k]).0 == key {
        let k = choose|k: int| 0 <= k < fields.len() && (#[trigger] fields[k]).0 == key;
        lemma_with_field(fields, key, value, k);
        assert(with_field(fields, key, value)[k] == (key, value));
    } else {
        lemma_with_field(fields, key, value, fields.len() as int);
        assert(with_field(fields, key, value)[fields.len() as int] == (key, value));
    }
}

/// Plain characters stand in a JSON string as they are. A quote, a backslash and a control character are
/// written behind a backslash, the latter by its letter or by its number in hexadecimal.
pub proof fn law_what_is_escaped(c: char)
    ensures
        (c as int) >= 32 && c != '"' && c != '\\' ==> escaped_char(c) == seq![c],
        c == '"' || c == '\\' ==> escaped_char(c) == seq!['\\', c],
        (c as int) < 32 ==> escaped_char(c)[0] == '\\' && {
            let e = escaped_char(c);
            ||| e.len() == 2 && {
                ||| c as int == 8 && e[1] == 'b'
                ||| c as int == 9 && e[1] == 't'
                ||| c as int == 10 && e[1] == 'n'
                ||| c as int == 12 && e[1] == 'f'
                ||| c as int == 13 && e[1] == 'r'
            }
            ||| e.len() == 6 && e.subrange(1, 4) == seq!['u', '0', '0'] && crate::number::natural(
                e.skip(4),
                16,
            ) == Some(c as int)
        },
{
    let e = escaped_char(c);
    if (c as int) < 32 && e.len() == 6 {
        let high = hex_digit(c as int / 16);
        let low = hex_digit(c as int % 16);
        assert(e.subrange(1, 4) =~= seq!['u', '0', '0']);
        assert(e.skip(4) =~= seq![high].push(low));
        crate::number::law_numbers_are_positional(seq![high], low, 16);
        crate::number::law_numbers_are_positional(seq![high], high, 16);
        crate::number::law_what_digits_stand_for(high, 16, c as int / 16);
        crate::number::law_what_digits_stand_for(low, 16, c as int % 16);
    }
}

/// A text is quoted character by character.
pub proof fn law_texts_are_quoted_character_by_character(s: Seq<char>, c: char)
    ensures
        quoted(Seq::<char>::empty()) == seq!['"', '"'],
        quoted(s.push(c)) == quoted(s).drop_last() + escaped_char(c) + seq!['"'],
{
    assert(quoted(Seq::<char>::empty()) =~= seq!['"', '"']);
    assert(s.push(c).drop_last() =~= s);
    assert(quoted(s.push(c)) =~= quoted(s).drop_last() + escaped_char(c) + seq!['"']);
}

/// A value that is no list is written as JSON writes it; a number as it was given.
pub proof fn law_plain_values_are_written_plainly(n: Seq<char>, s: Seq<char>)
    ensures
        spaced(JsonView::Null) == "null"@,
        spaced(JsonView::Bool(true)) == "true"@,
        spaced(JsonView::Bool(false)) == "false"@,
        spaced(JsonView::Number(n)) == n,
        spaced(JsonView::Text(s)) == quoted(s),
{
}

/// Objects and arrays are written in braces and brackets with a space at both ends. One more field, or
/// element, stands in front of the end, behind a space if it is the first and behind a comma and a space
/// if it is not; a name is quoted and parted from its value by a colon and a space.
pub proof fn law_lists_are_written_in_order(
    fields: Seq<(Seq<char>, JsonView)>,
    name: Seq<char>,
    items: Seq<JsonView>,
    value: JsonView,
)
    ensures
        spaced(JsonView::Object(Seq::empty())) == seq!['{', ' ', '}'],
        spaced(JsonView::Array(Seq::empty())) == seq!['[', ' ', ']'],
        ({
            let before = spaced(JsonView::Object(fields));
            let open = before.take(before.len() - 2);
            let lead = if fields.len() == 0 {
                seq![' ']
            } else {
                seq![',', ' ']
            };
            spaced(JsonView::Object(fields.push((name, value)))) == open + lead + quoted(name) + seq![
                ':',
                ' ',
            ] + spaced(value) + seq![' ', '}']
        }),
        ({
            let before = spaced(JsonView::Array(items));
            let open = before.take(before.len() - 2);
            let lead = if items.len() == 0 {
                seq![' ']
            } else {
                seq![',', ' ']
            };
            spaced(JsonView::Array(items.push(value))) == open + lead + spaced(value) + seq![' ', ']']
        }),
{
    reveal_strlit("{");
    reveal_strlit(" }");
    reveal_strlit("[");
    reveal_strlit(" ]");
    reveal_strlit(" ");
    reveal_strlit(", ");
    reveal_strlit(": ");
    assert(spaced(JsonView::Object(Seq::empty())) =~= seq!['{', ' ', '}']);
    assert(spaced(JsonView::Array(Seq::empty())) =~= seq!['[', ' ', ']']);
    assert(" "@ =~= seq![' ']);
    assert(", "@ =~= seq![',', ' ']);
    assert(": "@ =~= seq![':', ' ']);
    assert(" }"@ =~= seq![' ', '}']);
    assert(" ]"@ =~= seq![' ', ']']);
    let object = spaced(JsonView::Object(fields));
    assert(object =~= "{"@ + spaced_fields(fields) + " }"@);
    assert(object.take(object.len() - 2) =~= "{"@ + spaced_fields(fields));
    let more = fields.push((name, value));
    assert(more.drop_last() =~= fields);
    assert(spaced_fields(more) == spaced_fields(fields) + lead(more.len() == 1) + quoted(name) + ": "@
        + spaced(value));
    assert("{"@ + (spaced_fields(fields) + lead(more.len() == 1) + quoted(name) + ": "@ + spaced(value))
        + " }"@ =~= "{"@ + spaced_fields(fields) + lead(more.len() == 1) + quoted(name) + ": "@ + spaced(
        value,
    ) + " }"@);
    let array = spaced(JsonView::Array(items));
    assert(array =~= "["@ + spaced_items(items) + " ]"@);
    assert(array.take(array.len() - 2) =~= "["@ + spaced_items(items));
    let longer = items.push(value);
    assert(longer.drop_last() =~= items);
    assert(spaced_items(longer) == spaced_items(items) + lead(longer.len() == 1) + spaced(value));
    assert("["@ + (spaced_items(items) + lead(longer.len() == 1) + spaced(value)) + " ]"@ =~= "["@
        + spaced_items(items) + lead(longer.len() == 1) + spaced(value) + " ]"@);
}

} // verus!
