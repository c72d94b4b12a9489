//! The values that options take: bounded texts, integers, credentials and URLs.

use crate::number::{integer, read_integer};
use crate::text::{chars_of, opt_text, same_ignoring_case, same_text_ignoring_case, string_of, trim, trim_chars};
use vstd::prelude::*;
use vstd::utf8::{encode_scalar, encode_utf8};

verus! {

/// How many bytes a character takes in UTF-8.
pub open spec fn width(c: char) -> int {
    encode_scalar(c as u32).len() as int
}

/// How many leading characters of a text fit into `max` bytes of UTF-8.
pub open spec fn fitting(s: Seq<char>, max: int) -> nat
    decreases s.len(),
{
    if s.len() == 0 || width(s[0]) > max {
        0
    } else {
        1 + fitting(s.drop_first(), max - width(s[0]))
    }
}

/// A text cut down to the whole characters that fit into `max` bytes of UTF-8.
pub open spec fn truncated(s: Seq<char>, max: int) -> Seq<char> {
    s.take(fitting(s, max) as int)
}

/// How many bytes a character takes in UTF-8.
fn width_of(c: char) -> (r: usize)
    ensures
        r == width(c),
        1 <= r <= 4,
{
    let v: u32 = c as u32;
    if v <= 0x7f {
        1
    } else if v <= 0x7ff {
        2
    } else if v <= 0xffff {
        3
    } else {
        4
    }
}

/// Cuts a text down to the whole characters that fit into `max` bytes of UTF-8.
pub fn truncate(value: &str, max: usize) -> (r: String)
    ensures
        r@ == truncated(value@, max as int),
{
    let chars = chars_of(value);
    let mut left: usize = max;
    let mut k: usize = 0;
    proof {
        assert(chars@.skip(0) == chars@);
    }
    while k < chars.len() && width_of(chars[k]) <= left
        invariant
            k <= chars@.len(),
            fitting(chars@, max as int) == k + fitting(chars@.skip(k as int), left as int),
        decreases chars@.len() - k,
    {
        proof {
            assert(chars@.skip(k as int)[0] == chars@[k as int]);
            assert(chars@.skip(k as int).drop_first() == chars@.skip(k + 1));
        }
        left -= width_of(chars[k]);
        k += 1;
    }
    proof {
        if k < chars@.len() {
            assert(chars@.skip(k as int)[0] == chars@[k as int]);
        }
    }
    let head = vstd::slice::slice_subrange(chars.as_slice(), 0, k);
    assert(head@ == value@.take(k as int));
    string_of(head)
}

/// A truncated text is a prefix that takes at most `max` bytes in UTF-8, the whole text when that
/// fits, and otherwise one that the next character would overrun.
pub proof fn law_truncation_keeps_what_fits(s: Seq<char>, max: int)
    requires
        max >= 0,
    ensures
        truncated(s, max).is_prefix_of(s),
        encode_utf8(truncated(s, max)).len() <= max,
        encode_utf8(s).len() <= max ==> truncated(s, max) == s,
        encode_utf8(s).len() > max ==> {
            let k = truncated(s, max).len() as int;
            k < s.len() && encode_utf8(s.take(k + 1)).len() > max
        },
    decreases s.len(),
{
    if s.len() > 0 {
        let rest = s.drop_first();
        let w = width(s[0]);
        let k = fitting(s, max) as int;
        if w <= max {
            law_truncation_keeps_what_fits(rest, max - w);
            let j = fitting(rest, max - w) as int;
            lemma_fitting_in_range(rest, max - w);
            assert(k == j + 1);
            assert(s.take(k).drop_first() =~= rest.take(j));
            assert(s.take(k)[0] == s[0]);
            if j + 1 <= rest.len() {
                assert(s.take(k + 1).drop_first() =~= rest.take(j + 1));
                assert(s.take(k + 1)[0] == s[0]);
            }
            if encode_utf8(s).len() <= max {
                assert(rest.take(j) == rest);
                assert(j == rest.len());
                assert(s.take(k) =~= s);
            }
        } else {
            assert(s.take(0) =~= Seq::empty());
            assert(s.take(1)[0] == s[0]);
            assert(s.take(1).drop_first() =~= Seq::empty());
        }
    } else {
        assert(s.take(0) =~= s);
    }
}

/// No more characters fit than there are.
pub proof fn lemma_fitting_in_range(s: Seq<char>, max: int)
    ensures
        fitting(s, max) <= s.len(),
    decreases s.len(),
{
    if s.len() > 0 && width(s[0]) <= max {
        lemma_fitting_in_range(s.drop_first(), max - width(s[0]));
    }
}

/// A text that begins with a zero and goes on, behind an optional sign: an octal literal, if it is
/// a number at all.
pub open spec fn is_octal_literal(t: Seq<char>) -> bool {
    if t.len() > 0 && (t[0] == '+' || t[0] == '-') {
        t.len() > 2 && t[1] == '0'
    } else {
        t.len() > 1 && t[0] == '0'
    }
}

/// The integer that an option's value denotes: decimal, or hexadecimal behind `0x` or `0X`, with
/// white space around it ignored, and small enough for 64 bits. An octal literal denotes none.
pub open spec fn integer_value(raw: Seq<char>) -> Option<int> {
    let t = trim(raw);
    let hex = t.len() >= 2 && t[0] == '0' && (t[1] == 'x' || t[1] == 'X');
    let v = if hex {
        integer(t.skip(2), 16)
    } else if is_octal_literal(t) {
        None
    } else {
        integer(t, 10)
    };
    match v {
        Some(n) => if i64::MIN <= n <= i64::MAX {
            Some(n)
        } else {
            None
        },
        None => None,
    }
}

/// Whether a text begins with a zero and goes on, behind an optional sign.
fn looks_octal(t: &[char]) -> (r: bool)
    ensures
        r == is_octal_literal(t@),
{
    if t.len() > 0 && (t[0] == '+' || t[0] == '-') {
        t.len() > 2 && t[1] == '0'
    } else {
        t.len() > 1 && t[0] == '0'
    }
}

/// Reads the integer that an option's value denotes.
pub fn parse_int(raw: &str) -> (r: Option<i64>)
    ensures
        match r {
            Some(v) => integer_value(raw@) == Some(v as int),
            None => integer_value(raw@) is None,
        },
{
    let chars = chars_of(raw);
    let t = trim_chars(&chars);
    if t.len() >= 2 && t[0] == '0' && (t[1] == 'x' || t[1] == 'X') {
        let digits = vstd::slice::slice_subrange(t, 2, t.len());
        assert(digits@ == t@.skip(2));
        read_integer(digits, 16)
    } else if looks_octal(t) {
        None
    } else {
        read_integer(t, 10)
    }
}

/// The base64 character for a number below sixty-four.
pub open spec fn base64_char(v: int) -> char {
    if v < 26 {
        (65 + v) as char
    } else if v < 52 {
        (97 + v - 26) as char
    } else if v < 62 {
        (48 + v - 52) as char
    } else if v == 62 {
        '+'
    } else {
        '/'
    }
}

/// Bytes in base64, with padding.
pub open spec fn base64(b: Seq<u8>) -> Seq<char>
    decreases b.len(),
{
    if b.len() == 0 {
        Seq::empty()
    } else if b.len() == 1 {
        seq![base64_char(b[0] as int / 4), base64_char(b[0] as int % 4 * 16), '=', '=']
    } else if b.len() == 2 {
        seq![
            base64_char(b[0] as int / 4),
            base64_char(b[0] as int % 4 * 16 + b[1] as int / 16),
            base64_char(b[1] as int % 16 * 4),
            '=',
        ]
    } else {
        seq![
            base64_char(b[0] as int / 4),
            base64_char(b[0] as int % 4 * 16 + b[1] as int / 16),
            base64_char(b[1] as int % 16 * 4 + b[2] as int / 64),
            base64_char(b[2] as int % 64),
        ] + base64(b.skip(3))
    }
}

/// `base64::engine::general_purpose::STANDARD.encode`: the standard alphabet, with padding.
#[verifier::external_body]
fn encode_base64(bytes: &[u8]) -> (r: String)
    ensures
        r@ == base64(bytes@),
{
    base64::Engine::encode(&base64::engine::general_purpose::STANDARD, bytes)
}

/// The credential that a `user:password` is known by: its UTF-8 bytes in base64.
pub open spec fn credential_for(login: Seq<char>) -> Seq<char> {
    base64(encode_utf8(login))
}

/// The credential that a `user:password` is known by.
pub fn credential_of(login: &str) -> (r: String)
    ensures
        r@ == credential_for(login@),
{
    encode_base64(login.as_bytes())
}

/// Numbers below sixty-four have different characters in base64, and none of them is the padding.
proof fn lemma_base64_char(v: int, w: int)
    requires
        0 <= v < 64,
        0 <= w < 64,
    ensures
        base64_char(v) == base64_char(w) ==> v == w,
        base64_char(v) != '=',
{
}

/// The number of bytes in the last group is told by the length and the padding.
proof fn lemma_base64_shape(b: Seq<u8>)
    ensures
        b.len() == 0 ==> base64(b).len() == 0,
        b.len() > 0 ==> base64(b).len() >= 4,
        b.len() == 1 ==> base64(b).len() == 4 && base64(b)[2] == '=' && base64(b)[3] == '=',
        b.len() == 2 ==> base64(b).len() == 4 && base64(b)[2] != '=' && base64(b)[3] == '=',
        b.len() >= 3 ==> base64(b)[3] != '=',
{
    if b.len() == 2 {
        lemma_base64_char(b[1] as int % 16 * 4, 0);
    }
    if b.len() >= 3 {
        lemma_base64_char(b[2] as int % 64, 0);
    }
}

/// Different bytes have different base64.
pub proof fn law_base64_is_unambiguous(a: Seq<u8>, b: Seq<u8>)
    requires
        base64(a) == base64(b),
    ensures
        a == b,
    decreases a.len(),
{
    lemma_base64_shape(a);
    lemma_base64_shape(b);
    let s = base64(a);
    let t = base64(b);
    if a.len() > 0 && b.len() > 0 {
        assert(s[0] == base64_char(a[0] as int / 4));
        assert(t[0] == base64_char(b[0] as int / 4));
        lemma_base64_char(a[0] as int / 4, b[0] as int / 4);
        if a.len() == 1 {
            assert(b.len() == 1);
            lemma_base64_char(a[0] as int % 4 * 16, b[0] as int % 4 * 16);
            assert(s[1] == t[1]);
            assert(a =~= b);
        } else if a.len() == 2 {
            assert(b.len() == 2);
            lemma_base64_char(
                a[0] as int % 4 * 16 + a[1] as int / 16,
                b[0] as int % 4 * 16 + b[1] as int / 16,
            );
            lemma_base64_char(a[1] as int % 16 * 4, b[1] as int % 16 * 4);
            assert(s[1] == t[1]);
            assert(s[2] == t[2]);
            assert(a =~= b);
        } else {
            assert(b.len() >= 3);
            lemma_base64_char(
                a[0] as int % 4 * 16 + a[1] as int / 16,
                b[0] as int % 4 * 16 + b[1] as int / 16,
            );
            lemma_base64_char(
                a[1] as int % 16 * 4 + a[2] as int / 64,
                b[1] as int % 16 * 4 + b[2] as int / 64,
            );
            lemma_base64_char(a[2] as int % 64, b[2] as int % 64);
            assert(s[1] == base64_char(a[0] as int % 4 * 16 + a[1] as int / 16));
            assert(t[1] == base64_char(b[0] as int % 4 * 16 + b[1] as int / 16));
            assert(s[2] == base64_char(a[1] as int % 16 * 4 + a[2] as int / 64));
            assert(t[2] == base64_char(b[1] as int % 16 * 4 + b[2] as int / 64));
            assert(s[3] == base64_char(a[2] as int % 64));
            assert(t[3] == base64_char(b[2] as int % 64));
            assert(base64(a.skip(3)) =~= s.skip(4));
            assert(base64(b.skip(3)) =~= t.skip(4));
            law_base64_is_unambiguous(a.skip(3), b.skip(3));
            assert(a[0] == b[0] && a[1] == b[1] && a[2] == b[2]);
            assert(a =~= seq![a[0], a[1], a[2]] + a.skip(3));
            assert(b =~= seq![b[0], b[1], b[2]] + b.skip(3));
        }
    } else {
        assert(a =~= b);
    }
}

/// Different logins are never known by the same credential.
pub proof fn law_credentials_are_unambiguous(login: Seq<char>, other: Seq<char>)
    requires
        credential_for(login) == credential_for(other),
    ensures
        login == other,
{
    law_base64_is_unambiguous(encode_utf8(login), encode_utf8(other));
    vstd::utf8::encode_utf8_decode_utf8(login);
    vstd::utf8::encode_utf8_decode_utf8(other);
}

/// The scheme of a URI, if it has one, and whether it has an authority; nothing for a text that
/// is no URI. As `http::Uri` reads it.
pub uninterp spec fn uri_parts(text: Seq<char>) -> Option<(Option<Seq<char>>, bool)>;

/// The parts of a URI, with the scheme's text.
pub open spec fn uri_parts_view(parts: Option<(Option<String>, bool)>) -> Option<
    (Option<Seq<char>>, bool),
> {
    match parts {
        Some((scheme, has_authority)) => Some((opt_text(scheme), has_authority)),
        None => None,
    }
}

/// `http::Uri`'s `from_str`, then its scheme and whether it has an authority. They depend on the
/// text alone.
#[verifier::external_body]
fn split_uri(text: &str) -> (r: Option<(Option<String>, bool)>)
    ensures
        uri_parts_view(r) == uri_parts(text@),
{
    let uri = text.parse::<axum::http::Uri>().ok()?;
    Some((uri.scheme_str().map(|scheme| scheme.to_owned()), uri.authority().is_some()))
}

/// A URI that a subrequest can be sent to: `http` or `https`, with an authority.
pub open spec fn is_http_url(parts: Option<(Option<Seq<char>>, bool)>) -> bool {
    match parts {
        Some((Some(scheme), has_authority)) => has_authority && (same_ignoring_case(
            scheme,
            "http"@,
        ) || same_ignoring_case(scheme, "https"@)),
        _ => false,
    }
}

/// Whether a URI of the given parts can be sent a subrequest.
pub fn names_http_endpoint(parts: &Option<(Option<String>, bool)>) -> (r: bool)
    ensures
        r == is_http_url(uri_parts_view(*parts)),
{
    match parts {
        Some((Some(scheme), has_authority)) => *has_authority && (same_text_ignoring_case(
            scheme.as_str(),
            "http",
        ) || same_text_ignoring_case(scheme.as_str(), "https")),
        _ => false,
    }
}

/// Whether a text is a URL that a subrequest can be sent to.
pub fn is_auth_url(text: &str) -> (r: bool)
    ensures
        r == is_http_url(uri_parts(text@)),
{
    let parts = split_uri(text);
    names_http_endpoint(&parts)
}

/// The characters that a token of HTTP is made of.
pub open spec fn is_token_byte(b: u8) -> bool {
    ||| 'a' as u8 <= b <= 'z' as u8
    ||| 'A' as u8 <= b <= 'Z' as u8
    ||| '0' as u8 <= b <= '9' as u8
    ||| b == '!' as u8 || b == '#' as u8 || b == '$' as u8 || b == '%' as u8 || b == '&' as u8
    ||| b == '\'' as u8 || b == '*' as u8 || b == '+' as u8 || b == '-' as u8 || b == '.' as u8
    ||| b == '^' as u8 || b == '_' as u8 || b == '`' as u8 || b == '|' as u8 || b == '~' as u8
}

/// The bytes of an HTTP method: a token that is not empty.
pub open spec fn is_method(bytes: Seq<u8>) -> bool {
    bytes.len() > 0 && forall|i: int| 0 <= i < bytes.len() ==> is_token_byte(#[trigger] bytes[i])
}

/// `http::Method::from_bytes`: it takes every token that is not empty and nothing else.
#[verifier::external_body]
pub(crate) fn is_http_method(bytes: &[u8]) -> (r: bool)
    ensures
        r == is_method(bytes@),
{
    axum::http::Method::from_bytes(bytes).is_ok()
}

/// A credential is the login in UTF-8, in base64: three bytes are four characters, which hold six bits
/// each from the highest on.
pub proof fn law_credentials_are_logins_in_base64(login: Seq<char>, a: u8, b: u8, c: u8, rest: Seq<u8>)
    ensures
        credential_for(login) == base64(encode_utf8(login)),
        base64(seq![a, b, c] + rest) == seq![
            base64_char(a as int / 4),
            base64_char(a as int % 4 * 16 + b as int / 16),
            base64_char(b as int % 16 * 4 + c as int / 64),
            base64_char(c as int % 64),
        ] + base64(rest),
{
    assert((seq![a, b, c] + rest).skip(3) =~= rest);
}

} // verus!
