//! Header fields of HTTP messages.

use crate::text::{same_ignoring_case, same_text_ignoring_case};
use vstd::prelude::*;

verus! {

/// A header field. The case of its name does not matter.
#[derive(Debug, Clone, PartialEq, Eq)]
pub struct Header {
    pub name: String,
    pub value: Vec<u8>,
}

/// What a header field holds.
#[verifier::ext_equal]
pub struct HeaderView {
    pub name: Seq<char>,
    pub value: Seq<u8>,
}

impl View for Header {
    type V = HeaderView;

    open spec fn view(&self) -> HeaderView {
        HeaderView { name: self.name@, value: self.value@ }
    }
}

/// What a list of header fields holds.
pub open spec fn headers_view(list: Seq<Header>) -> Seq<HeaderView> {
    list.map_values(|h: Header| h@)
}

/// The values of all fields of a name, in order.
pub open spec fn values_of(list: Seq<HeaderView>, name: Seq<char>) -> Seq<Seq<u8>>
    decreases list.len(),
{
    if list.len() == 0 {
        Seq::empty()
    } else {
        let before = values_of(list.drop_last(), name);
        if same_ignoring_case(list.last().name, name) {
            before.push(list.last().value)
        } else {
            before
        }
    }
}

/// The value of the first field of a name.
pub open spec fn first_value(list: Seq<HeaderView>, name: Seq<char>) -> Option<Seq<u8>>
    decreases list.len(),
{
    if list.len() == 0 {
        None
    } else if same_ignoring_case(list[0].name, name) {
        Some(list[0].value)
    } else {
        first_value(list.drop_first(), name)
    }
}

/// A byte that can be shown: visible ASCII, a space or a tab.
pub open spec fn is_visible(b: u8) -> bool {
    32 <= b < 127 || b == 9
}

/// The text of a header value, if all of it can be shown.
pub open spec fn value_text(value: Seq<u8>) -> Option<Seq<char>> {
    if forall|i: int| 0 <= i < value.len() ==> is_visible(#[trigger] value[i]) {
        Some(value.map_values(|b: u8| b as char))
    } else {
        None
    }
}

/// The text of the first field of a name, if all of it can be shown.
pub open spec fn first_text(list: Seq<HeaderView>, name: Seq<char>) -> Option<Seq<char>> {
    match first_value(list, name) {
        Some(value) => value_text(value),
        None => None,
    }
}

/// The bytes of a valid header value: no control characters but the tab.
pub open spec fn is_field_value(value: Seq<u8>) -> bool {
    forall|i: int| 0 <= i < value.len() ==> {
        let b = #[trigger] value[i];
        b == 9 || (b >= 32 && b != 127)
    }
}

/// The text of a header value, if all of it can be shown.
pub fn text_of_value(value: &[u8]) -> (r: Option<String>)
    ensures
        match r {
            Some(text) => value_text(value@) == Some(text@),
            None => value_text(value@) is None,
        },
{
    let mut out = String::new();
    let ghost all = value@.map_values(|b: u8| b as char);
    let mut i: usize = 0;
    while i < value.len()
        invariant
            i <= value@.len(),
            all == value@.map_values(|b: u8| b as char),
            out@ == all.take(i as int),
            forall|j: int| 0 <= j < i ==> is_visible(#[trigger] value@[j]),
        decreases value@.len() - i,
    {
        let b = value[i];
        if !((32 <= b && b < 127) || b == 9) {
            assert(!is_visible(value@[i as int]));
            return None;
        }
        out.push(b as char);
        assert(all.take(i + 1) =~= all.take(i as int).push(b as char));
        i += 1;
    }
    assert(all.take(i as int) =~= all);
    Some(out)
}

/// Whether bytes are a valid header value.
pub fn is_valid_value(value: &[u8]) -> (r: bool)
    ensures
        r == is_field_value(value@),
{
    let mut i: usize = 0;
    while i < value.len()
        invariant
            i <= value@.len(),
            forall|j: int|
                0 <= j < i ==> {
                    let b = #[trigger] value@[j];
                    b == 9 || (b >= 32 && b != 127)
                },
        decreases value@.len() - i,
    {
        let b = value[i];
        if !(b == 9 || (b >= 32 && b != 127)) {
            assert(value@[i as int] == b);
            return false;
        }
        i += 1;
    }
    true
}

/// The place of the first field of a name, if there is one.
fn find_header(list: &[Header], name: &str) -> (r: Option<usize>)
    ensures
        match r {
            Some(k) => k < list@.len() && first_value(headers_view(list@), name@) == Some(
                list@[k as int].value@,
            ),
            None => first_value(headers_view(list@), name@) is None,
        },
{
    let ghost all = headers_view(list@);
    let mut i: usize = 0;
    proof {
        assert(all.skip(0) =~= all);
    }
    while i < list.len()
        invariant
            i <= list@.len(),
            all == headers_view(list@),
            first_value(all, name@) == first_value(all.skip(i as int), name@),
        decreases list@.len() - i,
    {
        proof {
            assert(all.skip(i as int)[0] == list@[i as int]@);
            assert(all.skip(i as int).drop_first() =~= all.skip(i + 1));
        }
        if same_text_ignoring_case(list[i].name.as_str(), name) {
            return Some(i);
        }
        i += 1;
    }
    None
}

/// The text of the first field of a name, if all of it can be shown.
pub fn header_text(list: &[Header], name: &str) -> (r: Option<String>)
    ensures
        match r {
            Some(text) => first_text(headers_view(list@), name@) == Some(text@),
            None => first_text(headers_view(list@), name@) is None,
        },
{
    match find_header(list, name) {
        Some(k) => text_of_value(&list[k].value),
        None => None,
    }
}

/// A field of the given name and text.
pub fn header(name: &str, value: &str) -> (r: Header)
    ensures
        r@ == (HeaderView { name: name@, value: vstd::utf8::encode_utf8(value@) }),
{
    let mut bytes: Vec<u8> = Vec::new();
    bytes.extend_from_slice(value.as_bytes());
    assert(bytes@ =~= vstd::utf8::encode_utf8(value@));
    Header { name: name.to_owned(), value: bytes }
}

/// The values of a name are those of the fields that bear it in any case, in the order of the fields:
/// a field of another name adds none, and what stands behind adds its own behind.
pub proof fn law_values_keep_their_order(
    list: Seq<HeaderView>,
    more: Seq<HeaderView>,
    field: HeaderView,
    name: Seq<char>,
)
    ensures
        values_of(Seq::<HeaderView>::empty(), name) == Seq::<Seq<u8>>::empty(),
        same_ignoring_case(field.name, name) ==> values_of(seq![field], name) == seq![field.value],
        !same_ignoring_case(field.name, name) ==> values_of(seq![field], name).len() == 0,
        values_of(list + more, name) == values_of(list, name) + values_of(more, name),
    decreases more.len(),
{
    let one = seq![field];
    assert(one.drop_last() =~= Seq::empty());
    assert(one.last() == field);
    assert(values_of(one.drop_last(), name) =~= Seq::empty());
    assert(Seq::<Seq<u8>>::empty().push(field.value) =~= seq![field.value]);
    if more.len() > 0 {
        law_values_keep_their_order(list, more.drop_last(), field, name);
        assert((list + more).drop_last() =~= list + more.drop_last());
        assert((list + more).last() == more.last());
        assert(values_of(list + more, name) =~= values_of(list, name) + values_of(more, name));
    } else {
        assert(list + more =~= list);
        assert(values_of(list, name) + values_of(more, name) =~= values_of(list, name));
    }
}

/// The first value of a name is the first of its values, and there is none exactly if there are none.
pub proof fn law_the_first_value_comes_first(list: Seq<HeaderView>, name: Seq<char>)
    ensures
        first_value(list, name) == if values_of(list, name).len() > 0 {
            Some(values_of(list, name)[0])
        } else {
            None
        },
    decreases list.len(),
{
    if list.len() > 0 {
        let rest = list.drop_first();
        let one = seq![list[0]];
        law_the_first_value_comes_first(rest, name);
        law_values_keep_their_order(one, rest, list[0], name);
        assert(list =~= one + rest);
    }
}

/// A value can be shown exactly if all of its bytes are printable ASCII or tabs; its text has the
/// character of each byte at its place.
pub proof fn law_what_can_be_shown(value: Seq<u8>)
    ensures
        value_text(value) is Some <==> forall|i: int|
            0 <= i < value.len() ==> (#[trigger] value[i] == 9 || 32 <= value[i] <= 126),
        value_text(value) matches Some(text) ==> text.len() == value.len() && forall|i: int|
            0 <= i < value.len() ==> #[trigger] text[i] as int == value[i] as int,
{
    if forall|i: int| 0 <= i < value.len() ==> (#[trigger] value[i] == 9 || 32 <= value[i] <= 126) {
        assert forall|i: int| 0 <= i < value.len() implies is_visible(#[trigger] value[i]) by {}
    }
    if value_text(value) is Some {
        assert forall|i: int| 0 <= i < value.len() implies (#[trigger] value[i] == 9 || 32
            <= value[i] <= 126) by {
            assert(is_visible(value[i]));
        }
    }
}

/// The text of a name is that of its first value: a later value is never taken instead.
pub proof fn law_the_first_value_speaks(list: Seq<HeaderView>, name: Seq<char>)
    ensures
        values_of(list, name).len() > 0 ==> first_text(list, name) == value_text(
            values_of(list, name)[0],
        ),
        values_of(list, name).len() == 0 ==> first_text(list, name) is None,
{
    law_the_first_value_comes_first(list, name);
}

/// A value is valid exactly if it holds no control character but the tab.
pub proof fn law_valid_values(value: Seq<u8>)
    ensures
        is_field_value(value) <==> forall|i: int|
            0 <= i < value.len() ==> (#[trigger] value[i] == 9 || !(value[i] < 32 || value[i] == 127)),
{
    if is_field_value(value) {
        assert forall|i: int| 0 <= i < value.len() implies (#[trigger] value[i] == 9 || !(value[i]
            < 32 || value[i] == 127)) by {}
    }
    if forall|i: int|
        0 <= i < value.len() ==> (#[trigger] value[i] == 9 || !(value[i] < 32 || value[i] == 127)) {
        assert forall|i: int| 0 <= i < value.len() implies {
            let b = #[trigger] value[i];
            b == 9 || (b >= 32 && b != 127)
        } by {}
    }
}

} // verus!
