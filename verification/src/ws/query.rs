//! Command line arguments from the query of a URL.

use crate::text::laws::law_pieces_follow_the_separators;
use crate::text::{
    add_text, chars_of, opt_str, split, split_text, starts_with, string_of, strip_head, texts,
};
use vstd::prelude::*;
use vstd::utf8::{decode_utf8, encode_utf8, valid_utf8};

verus! {

/// The number that a hexadecimal digit stands for.
pub open spec fn hex_value(b: u8) -> Option<u8> {
    if 48 <= b <= 57 {
        Some((b - 48) as u8)
    } else if 97 <= b <= 102 {
        Some((b - 87) as u8)
    } else if 65 <= b <= 70 {
        Some((b - 55) as u8)
    } else {
        None
    }
}

/// The bytes that begin with an escape: a percent sign and two hexadecimal digits.
pub open spec fn begins_with_escape(b: Seq<u8>) -> bool {
    b.len() >= 3 && b[0] == 37 && hex_value(b[1]) is Some && hex_value(b[2]) is Some
}

/// What a query value stands for: a plus sign for a space, an escape for its byte, and every other
/// byte for itself, a percent sign without two digits behind it included.
pub open spec fn unescaped(b: Seq<u8>) -> Seq<u8>
    decreases b.len(),
{
    if b.len() == 0 {
        Seq::empty()
    } else if begins_with_escape(b) {
        seq![(hex_value(b[1])->0 * 16 + hex_value(b[2])->0) as u8] + unescaped(b.skip(3))
    } else if b[0] == 43 {
        seq![32u8] + unescaped(b.skip(1))
    } else {
        seq![b[0]] + unescaped(b.skip(1))
    }
}

/// The text of bytes, with what is not UTF-8 replaced.
pub uninterp spec fn lossy_text(bytes: Seq<u8>) -> Seq<char>;

/// `String::from_utf8_lossy`: the text that the bytes encode in UTF-8, with replacement characters
/// for what they do not. The text depends on the bytes alone.
#[verifier::external_body]
fn decode_lossy(bytes: &[u8]) -> (r: String)
    ensures
        r@ == lossy_text(bytes@),
        valid_utf8(bytes@) ==> r@ == decode_utf8(bytes@),
{
    String::from_utf8_lossy(bytes).into_owned()
}

/// The number that a hexadecimal digit stands for.
fn hex_value_of(b: u8) -> (r: Option<u8>)
    ensures
        r == hex_value(b),
        r matches Some(v) ==> v < 16,
{
    if 48 <= b && b <= 57 {
        Some(b - 48)
    } else if 97 <= b && b <= 102 {
        Some(b - 87)
    } else if 65 <= b && b <= 70 {
        Some(b - 55)
    } else {
        None
    }
}

/// The bytes that a query value stands for.
pub fn unescape(bytes: &[u8]) -> (r: Vec<u8>)
    ensures
        r@ == unescaped(bytes@),
{
    let mut out: Vec<u8> = Vec::new();
    let mut i: usize = 0;
    proof {
        assert(bytes@.skip(0) == bytes@);
        assert(out@ + unescaped(bytes@) =~= unescaped(bytes@));
    }
    while i < bytes.len()
        invariant
            i <= bytes.len(),
            unescaped(bytes@) == out@ + unescaped(bytes@.skip(i as int)),
        decreases bytes.len() - i,
    {
        let ghost here = bytes@.skip(i as int);
        let ghost before = out@;
        proof {
            assert(here[0] == bytes@[i as int]);
        }
        let b = bytes[i];
        let mut escape: Option<u8> = None;
        if b == 37 && bytes.len() - i >= 3 {
            proof {
                assert(here[1] == bytes@[i + 1]);
                assert(here[2] == bytes@[i + 2]);
            }
            match (hex_value_of(bytes[i + 1]), hex_value_of(bytes[i + 2])) {
                (Some(high), Some(low)) => {
                    escape = Some(high * 16 + low);
                },
                _ => {},
            }
        }
        match escape {
            Some(byte) => {
                out.push(byte);
                proof {
                    assert(here.skip(3) =~= bytes@.skip(i + 3));
                    assert(before + (seq![byte] + unescaped(bytes@.skip(i + 3))) =~= out@
                        + unescaped(bytes@.skip(i + 3)));
                }
                i += 3;
            },
            None => {
                let plain: u8 = if b == 43 {
                    32
                } else {
                    b
                };
                out.push(plain);
                proof {
                    assert(!begins_with_escape(here));
                    assert(here.skip(1) =~= bytes@.skip(i + 1));
                    assert(before + (seq![plain] + unescaped(bytes@.skip(i + 1))) =~= out@
                        + unescaped(bytes@.skip(i + 1)));
                }
                i += 1;
            },
        }
    }
    proof {
        assert(bytes@.skip(i as int) =~= Seq::empty());
        assert(out@ + Seq::empty() =~= out@);
    }
    out
}

/// The text that a query value stands for.
pub open spec fn query_value(raw: Seq<char>) -> Seq<char> {
    lossy_text(unescaped(encode_utf8(raw)))
}

/// The text that a query value stands for.
pub fn decode_query_value(raw: &str) -> (r: String)
    ensures
        r@ == query_value(raw@),
        is_decoded(raw@, r@),
{
    let bytes = unescape(raw.as_bytes());
    decode_lossy(&bytes)
}

/// The raw values of the `arg` parameters among some pieces of a query, in order.
pub open spec fn arg_values(pieces: Seq<Seq<char>>) -> Seq<Seq<char>>
    decreases pieces.len(),
{
    if pieces.len() == 0 {
        Seq::empty()
    } else {
        let before = arg_values(pieces.drop_last());
        if starts_with(pieces.last(), "arg="@) {
            before.push(pieces.last().skip("arg="@.len() as int))
        } else {
            before
        }
    }
}

/// The raw values of the `arg` parameters in a query, in order.
pub open spec fn raw_args(query: Option<Seq<char>>) -> Seq<Seq<char>> {
    match query {
        Some(query) => arg_values(split(query, '&')),
        None => Seq::empty(),
    }
}

/// A text is what a raw query value stands for, where its bytes are UTF-8.
pub open spec fn is_decoded(raw: Seq<char>, text: Seq<char>) -> bool {
    let bytes = unescaped(encode_utf8(raw));
    valid_utf8(bytes) ==> text == decode_utf8(bytes)
}

/// Each of some texts is what the raw query value at its place stands for, where that is UTF-8.
pub open spec fn are_decoded(raws: Seq<Seq<char>>, out: Seq<Seq<char>>) -> bool {
    &&& raws.len() == out.len()
    &&& forall|i: int| 0 <= i < raws.len() ==> is_decoded(raws[i], #[trigger] out[i])
}

/// The arguments in a query: the values of its `arg` parameters, decoded, in order.
pub open spec fn url_args(query: Option<Seq<char>>) -> Seq<Seq<char>> {
    raw_args(query).map_values(|raw: Seq<char>| query_value(raw))
}

/// The arguments in a query: the values of its `arg` parameters, decoded, in order.
pub fn parse_url_args(query: Option<&str>) -> (r: Vec<String>)
    ensures
        texts(r@) == url_args(opt_str(query)),
        are_decoded(raw_args(opt_str(query)), texts(r@)),
{
    let mut out: Vec<String> = Vec::new();
    assert(texts(out@) =~= Seq::empty());
    match query {
        None => {
            assert(texts(out@) =~= url_args(None));
            out
        },
        Some(query) => {
            let pieces = split_text(query, '&');
            let ghost all = texts(pieces@);
            let mut i: usize = 0;
            proof {
                assert(all.take(0) =~= Seq::empty());
                assert(texts(out@) =~= arg_values(all.take(0)).map_values(
                    |raw: Seq<char>| query_value(raw),
                ));
            }
            while i < pieces.len()
                invariant
                    i <= pieces@.len(),
                    all == texts(pieces@),
                    texts(out@) == arg_values(all.take(i as int)).map_values(
                        |raw: Seq<char>| query_value(raw),
                    ),
                    are_decoded(arg_values(all.take(i as int)), texts(out@)),
                decreases pieces@.len() - i,
            {
                proof {
                    assert(all.take(i + 1).drop_last() =~= all.take(i as int));
                    assert(all.take(i + 1).last() == pieces@[i as int]@);
                }
                let chars = chars_of(pieces[i].as_str());
                match strip_head(&chars, "arg=") {
                    Some(raw) => {
                        let raw = string_of(raw);
                        let text = decode_query_value(raw.as_str());
                        let ghost before = texts(out@);
                        let ghost decoded = text@;
                        add_text(&mut out, text);
                        proof {
                            let values = arg_values(all.take(i as int));
                            assert forall|j: int| 0 <= j <= values.len() implies is_decoded(
                                values.push(raw@)[j],
                                #[trigger] before.push(decoded)[j],
                            ) by {
                                if j < values.len() {
                                    assert(before.push(decoded)[j] == before[j]);
                                }
                            }
                            assert(values.push(raw@).map_values(|raw: Seq<char>| query_value(raw))
                                =~= values.map_values(|raw: Seq<char>| query_value(raw)).push(
                                query_value(raw@),
                            ));
                        }
                    },
                    None => {},
                }
                i += 1;
            }
            assert(all.take(i as int) =~= all);
            out
        },
    }
}

/// The upper-case hexadecimal digit for a number below sixteen.
pub open spec fn hex_byte(v: int) -> u8 {
    if v < 10 {
        (48 + v) as u8
    } else {
        (55 + v) as u8
    }
}

/// Bytes with every one of them written as an escape.
pub open spec fn escaped(b: Seq<u8>) -> Seq<u8>
    decreases b.len(),
{
    if b.len() == 0 {
        Seq::empty()
    } else {
        seq![37u8, hex_byte(b[0] as int / 16), hex_byte(b[0] as int % 16)] + escaped(b.skip(1))
    }
}

/// Bytes that were escaped are read back.
pub proof fn law_escapes_read_back(b: Seq<u8>)
    ensures
        unescaped(escaped(b)) == b,
    decreases b.len(),
{
    if b.len() > 0 {
        law_escapes_read_back(b.skip(1));
        let e = escaped(b);
        assert(e[0] == 37);
        assert(e[1] == hex_byte(b[0] as int / 16));
        assert(e[2] == hex_byte(b[0] as int % 16));
        assert(e.skip(3) =~= escaped(b.skip(1)));
        assert(hex_value(e[1]) == Some((b[0] / 16) as u8));
        assert(hex_value(e[2]) == Some((b[0] % 16) as u8));
        assert(seq![b[0]] + b.skip(1) =~= b);
    }
}

/// A value without a plus or a percent sign stands for itself.
pub proof fn law_plain_values_are_kept(b: Seq<u8>)
    requires
        forall|i: int| 0 <= i < b.len() ==> #[trigger] b[i] != 43 && b[i] != 37,
    ensures
        unescaped(b) == b,
    decreases b.len(),
{
    if b.len() > 0 {
        assert forall|i: int| 0 <= i < b.skip(1).len() implies #[trigger] b.skip(1)[i] != 43
            && b.skip(1)[i] != 37 by {
            assert(b.skip(1)[i] == b[i + 1]);
        }
        law_plain_values_are_kept(b.skip(1));
        assert(b[0] != 37);
        assert(seq![b[0]] + b.skip(1) =~= b);
    }
}

/// The digits of hexadecimal, in either case, stand for what they stand for, and nothing else does.
pub proof fn law_hexadecimal_digits(b: u8, v: u8)
    ensures
        hex_value(b) == Some(v) <==> {
            ||| v < 10 && b == 48 + v
            ||| 10 <= v < 16 && b == 87 + v
            ||| 10 <= v < 16 && b == 55 + v
        },
{
}

/// A query value is read from its start: a plus sign is a space, a percent sign with two hexadecimal
/// digits behind it is the byte that they denote, and every other byte is itself, a percent sign without
/// two digits among them.
pub proof fn law_query_values_are_read_byte_by_byte(b: u8, high: u8, low: u8, rest: Seq<u8>)
    ensures
        unescaped(Seq::<u8>::empty()) == Seq::<u8>::empty(),
        b != 43 && b != 37 ==> unescaped(seq![b] + rest) == seq![b] + unescaped(rest),
        unescaped(seq![43u8] + rest) == seq![32u8] + unescaped(rest),
        hex_value(high) matches Some(h) ==> (hex_value(low) matches Some(l) ==> unescaped(
            seq![37u8, high, low] + rest,
        ) == seq![(h * 16 + l) as u8] + unescaped(rest)),
        rest.len() < 2 || hex_value(rest[0]) is None || hex_value(rest[1]) is None ==> unescaped(
            seq![37u8] + rest,
        ) == seq![37u8] + unescaped(rest),
{
    assert((seq![b] + rest).skip(1) =~= rest);
    assert((seq![43u8] + rest).skip(1) =~= rest);
    assert((seq![37u8] + rest).skip(1) =~= rest);
    let escape = seq![37u8, high, low] + rest;
    assert(escape.skip(3) =~= rest);
    assert(escape[0] == 37 && escape[1] == high && escape[2] == low);
    let percent = seq![37u8] + rest;
    if rest.len() >= 2 {
        assert(percent[1] == rest[0] && percent[2] == rest[1]);
    }
}

/// Values in two runs of pieces are found in both.
proof fn lemma_arg_values(pieces: Seq<Seq<char>>, more: Seq<Seq<char>>)
    ensures
        arg_values(pieces + more) == arg_values(pieces) + arg_values(more),
    decreases more.len(),
{
    if more.len() > 0 {
        lemma_arg_values(pieces, more.drop_last());
        assert((pieces + more).drop_last() =~= pieces + more.drop_last());
        assert((pieces + more).last() == more.last());
    } else {
        assert(pieces + more =~= pieces);
    }
    assert(arg_values(pieces + more) =~= arg_values(pieces) + arg_values(more));
}

/// The arguments of a query are those of its parameters, one by one and in order: a parameter `arg` has
/// its value, any other parameter has none.
pub proof fn law_parameters_are_read_one_by_one(piece: Seq<char>, value: Seq<char>, rest: Seq<char>)
    requires
        !piece.contains('&'),
        !value.contains('&'),
    ensures
        raw_args(None).len() == 0,
        raw_args(Some("arg="@ + value)) == seq![value],
        !starts_with(piece, "arg="@) ==> raw_args(Some(piece)).len() == 0,
        raw_args(Some(piece.push('&') + rest)) == raw_args(Some(piece)) + raw_args(Some(rest)),
{
    reveal_strlit("arg=");
    let arg = "arg="@ + value;
    assert(!arg.contains('&')) by {
        assert forall|i: int| 0 <= i < arg.len() implies arg[i] != '&' by {
            if i >= 4 {
                assert(arg[i] == value[i - 4]);
                assert(value.contains(value[i - 4]));
            }
        }
    }
    law_pieces_follow_the_separators(arg, '&', rest);
    law_pieces_follow_the_separators(piece, '&', rest);
    assert(arg.take(4) =~= "arg="@);
    assert(arg.skip(4) =~= value);
    let none = Seq::<Seq<char>>::empty();
    assert(seq![arg].drop_last() =~= none);
    assert(seq![piece].drop_last() =~= none);
    assert(arg_values(none) =~= none);
    assert(none.push(value) =~= seq![value]);
    lemma_arg_values(seq![piece], split(rest, '&'));
}

/// Each argument is the value at its place, decoded.
pub proof fn law_arguments_are_decoded_in_place(query: Option<Seq<char>>, i: int)
    ensures
        url_args(query).len() == raw_args(query).len(),
        0 <= i < raw_args(query).len() ==> url_args(query)[i] == lossy_text(
            unescaped(encode_utf8(raw_args(query)[i])),
        ),
{
}

} // verus!
