//! The check of the `Origin` header against the `Host` header.

use crate::number::{decimal, digit, natural, read_natural, write_decimal};
use crate::text::laws::law_the_last_place_is_found;
use crate::text::{
    chars_of, concat3, find_last, find_last_char, same_ignoring_case, same_text_ignoring_case,
    starts_with, string_of, strip_head,
};
use vstd::prelude::*;

verus! {

/// What stands behind a scheme that a browser connects from.
pub open spec fn behind_scheme(origin: Seq<char>) -> Option<Seq<char>> {
    if starts_with(origin, "http://"@) {
        Some(origin.skip("http://"@.len() as int))
    } else if starts_with(origin, "https://"@) {
        Some(origin.skip("https://"@.len() as int))
    } else if starts_with(origin, "ws://"@) {
        Some(origin.skip("ws://"@.len() as int))
    } else if starts_with(origin, "wss://"@) {
        Some(origin.skip("wss://"@.len() as int))
    } else {
        None
    }
}

/// The length of the authority at the start of what follows a scheme.
pub open spec fn authority_len(s: Seq<char>) -> nat
    decreases s.len(),
{
    if s.len() == 0 || s[0] == '/' || s[0] == '?' || s[0] == '#' {
        0
    } else {
        1 + authority_len(s.drop_first())
    }
}

/// An authority without the port 80 or 443. A port is the number behind the last colon. Behind a
/// bracketed address, any other port stays as it is written.
pub open spec fn without_default_port(authority: Seq<char>) -> Option<Seq<char>> {
    match find_last(authority, ':') {
        Some(k) => {
            let host = authority.take(k as int);
            match natural(authority.skip(k as int + 1), 10) {
                Some(port) => if port == 80 || port == 443 {
                    Some(host)
                } else if host.len() > 0 && host.last() == ']' {
                    Some(authority)
                } else if port > 65535 {
                    None
                } else {
                    Some(host + ":"@ + decimal(port as nat))
                },
                None => Some(authority),
            }
        },
        None => Some(authority),
    }
}

/// The host that an origin names, as a `Host` header would; nothing for an origin that no page has.
pub open spec fn origin_host(origin: Seq<char>) -> Option<Seq<char>> {
    match behind_scheme(origin) {
        Some(rest) => {
            let authority = rest.take(authority_len(rest) as int);
            if authority.len() == 0 {
                None
            } else {
                without_default_port(authority)
            }
        },
        None => None,
    }
}

/// What stands behind a scheme that a browser connects from.
fn strip_scheme<'a>(origin: &'a [char]) -> (r: Option<&'a [char]>)
    ensures
        match r {
            Some(rest) => behind_scheme(origin@) == Some(rest@),
            None => behind_scheme(origin@) is None,
        },
{
    match strip_head(origin, "http://") {
        Some(rest) => Some(rest),
        None => match strip_head(origin, "https://") {
            Some(rest) => Some(rest),
            None => match strip_head(origin, "ws://") {
                Some(rest) => Some(rest),
                None => strip_head(origin, "wss://"),
            },
        },
    }
}

/// The authority at the start of what follows a scheme.
fn authority_of<'a>(rest: &'a [char]) -> (r: &'a [char])
    ensures
        r@ == rest@.take(authority_len(rest@) as int),
{
    let mut k: usize = 0;
    proof {
        assert(rest@.skip(0) == rest@);
    }
    while k < rest.len() && rest[k] != '/' && rest[k] != '?' && rest[k] != '#'
        invariant
            k <= rest@.len(),
            authority_len(rest@) == k + authority_len(rest@.skip(k as int)),
        decreases rest@.len() - k,
    {
        proof {
            assert(rest@.skip(k as int)[0] == rest@[k as int]);
            assert(rest@.skip(k as int).drop_first() =~= rest@.skip(k + 1));
        }
        k += 1;
    }
    proof {
        if k < rest@.len() {
            assert(rest@.skip(k as int)[0] == rest@[k as int]);
        }
    }
    let authority = vstd::slice::slice_subrange(rest, 0, k);
    assert(authority@ =~= rest@.take(k as int));
    authority
}

/// The number that digits denote, if they are digits, capped just above the largest port.
fn read_port(digits: &[char]) -> (r: Option<u64>)
    ensures
        match (r, natural(digits@, 10)) {
            (Some(port), Some(v)) => if v > 65535 {
                port == 65536
            } else {
                port == v
            },
            (None, None) => true,
            _ => false,
        },
{
    if digits.len() == 0 {
        return None;
    }
    let mut i: usize = 0;
    while i < digits.len()
        invariant
            i <= digits@.len(),
            forall|j: int| 0 <= j < i ==> (#[trigger] digit(digits@[j], 10)) is Some,
        decreases digits@.len() - i,
    {
        if !('0' <= digits[i] && digits[i] <= '9') {
            assert(digit(digits@[i as int], 10) is None);
            return None;
        }
        i += 1;
    }
    match read_natural(digits, 10, 65535) {
        Some(port) => Some(port),
        None => Some(65536),
    }
}

/// The host that an origin names, as a `Host` header would: `host` or `host:port`, without the
/// ports 80 and 443. Nothing for an origin that no page has.
pub fn normalize_origin(origin: &str) -> (r: Option<String>)
    ensures
        match r {
            Some(host) => origin_host(origin@) == Some(host@),
            None => origin_host(origin@) is None,
        },
{
    let chars = chars_of(origin);
    let rest = match strip_scheme(&chars) {
        Some(rest) => rest,
        None => {
            return None;
        },
    };
    let authority = authority_of(rest);
    if authority.len() == 0 {
        return None;
    }
    match find_last_char(authority, ':') {
        None => Some(string_of(authority)),
        Some(k) => {
            let host = vstd::slice::slice_subrange(authority, 0, k);
            assert(host@ =~= authority@.take(k as int));
            let tail = vstd::slice::slice_subrange(authority, k + 1, authority.len());
            assert(tail@ =~= authority@.skip(k + 1));
            match read_port(tail) {
                None => Some(string_of(authority)),
                Some(port) => {
                    if port == 80 || port == 443 {
                        Some(string_of(host))
                    } else if host.len() > 0 && host[host.len() - 1] == ']' {
                        Some(string_of(authority))
                    } else if port > 65535 {
                        None
                    } else {
                        let name = string_of(host);
                        let number = write_decimal(port);
                        Some(concat3(name.as_str(), ":", number.as_str()))
                    }
                },
            }
        },
    }
}

/// A request comes from the host that it is sent to. Without both headers it does not.
pub open spec fn same_origin(origin: Option<Seq<char>>, host: Option<Seq<char>>) -> bool {
    match (origin, host) {
        (Some(origin), Some(host)) => match origin_host(origin) {
            Some(name) => same_ignoring_case(name, host),
            None => false,
        },
        _ => false,
    }
}

/// Whether an `Origin` header names the host of a `Host` header.
pub fn origin_names_host(origin: &str, host: &str) -> (r: bool)
    ensures
        r == same_origin(Some(origin@), Some(host@)),
{
    match normalize_origin(origin) {
        Some(name) => same_text_ignoring_case(name.as_str(), host),
        None => false,
    }
}

/// A scheme that a browser connects from.
pub open spec fn is_web_scheme(scheme: Seq<char>) -> bool {
    scheme == "http://"@ || scheme == "https://"@ || scheme == "ws://"@ || scheme == "wss://"@
}

/// A text without the characters that end an authority.
pub open spec fn is_authority(s: Seq<char>) -> bool {
    !s.contains('/') && !s.contains('?') && !s.contains('#')
}

/// What may follow an authority: nothing, a path, a query or a fragment.
pub open spec fn may_follow_authority(s: Seq<char>) -> bool {
    s.len() == 0 || s[0] == '/' || s[0] == '?' || s[0] == '#'
}

/// What stands behind a scheme is found.
proof fn lemma_behind_scheme(scheme: Seq<char>, rest: Seq<char>)
    requires
        is_web_scheme(scheme),
    ensures
        behind_scheme(scheme + rest) == Some(rest),
{
    reveal_strlit("http://");
    reveal_strlit("https://");
    reveal_strlit("ws://");
    reveal_strlit("wss://");
    let s = scheme + rest;
    assert(s.skip(scheme.len() as int) =~= rest);
    assert(s.take(scheme.len() as int) =~= scheme);
    if scheme == "https://"@ {
        assert(s[4] == 's');
        assert(s.take(7)[4] == 's');
    }
    if scheme == "ws://"@ || scheme == "wss://"@ {
        assert(s[0] == 'w');
        assert(s.len() >= 7 ==> s.take(7)[0] == 'w');
        assert(s.len() >= 8 ==> s.take(8)[0] == 'w');
    }
    if scheme == "wss://"@ {
        assert(s[2] == 's');
        assert(s.take(5)[2] == 's');
    }
}

/// An authority ends where a character that ends it comes.
proof fn lemma_authority_len(authority: Seq<char>, rest: Seq<char>)
    requires
        is_authority(authority),
        may_follow_authority(rest),
    ensures
        authority_len(authority + rest) == authority.len(),
    decreases authority.len(),
{
    let s = authority + rest;
    if authority.len() > 0 {
        let tail = authority.drop_first();
        assert(authority.contains(authority[0]));
        assert forall|i: int| 0 <= i < tail.len() implies tail[i] != '/' && tail[i] != '?' && tail[i]
            != '#' by {
            assert(tail[i] == authority[i + 1]);
            assert(authority.contains(authority[i + 1]));
        }
        lemma_authority_len(tail, rest);
        assert(s.drop_first() =~= tail + rest);
    } else {
        assert(s =~= rest);
    }
}

/// The host of an origin is told by its authority alone: the four schemes of a browser are all the same,
/// and so is everything behind the authority.
pub proof fn law_the_authority_names_the_host(
    scheme: Seq<char>,
    authority: Seq<char>,
    rest: Seq<char>,
)
    requires
        is_web_scheme(scheme),
        is_authority(authority),
        may_follow_authority(rest),
    ensures
        authority.len() == 0 ==> origin_host(scheme + (authority + rest)) is None,
        authority.len() > 0 ==> origin_host(scheme + (authority + rest)) == without_default_port(
            authority,
        ),
{
    lemma_behind_scheme(scheme, authority + rest);
    lemma_authority_len(authority, rest);
    assert((authority + rest).take(authority.len() as int) =~= authority);
}

/// An origin without one of the four schemes names no host.
pub proof fn law_other_schemes_name_no_host(origin: Seq<char>)
    ensures
        origin_host(origin) is Some ==> exists|scheme: Seq<char>| #[trigger]
            is_web_scheme(scheme) && starts_with(origin, scheme),
{
    assert(is_web_scheme("http://"@));
    assert(is_web_scheme("https://"@));
    assert(is_web_scheme("ws://"@));
    assert(is_web_scheme("wss://"@));
}

/// A host without a port is named as it is. Behind a host, the ports 80 and 443 are left out, any other
/// port is kept as its number, and a number that is no port makes it no host; behind an address in
/// brackets any other port stays as it is written.
pub proof fn law_default_ports_are_left_out(host: Seq<char>, digits: Seq<char>)
    requires
        natural(digits, 10) is Some,
    ensures
        !host.contains(':') ==> without_default_port(host) == Some(host),
        ({
            let authority = host.push(':') + digits;
            let port = natural(digits, 10)->0;
            let r = without_default_port(authority);
            &&& port == 80 || port == 443 ==> r == Some(host)
            &&& port != 80 && port != 443 && host.len() > 0 && host.last() == ']' ==> r == Some(
                authority,
            )
            &&& port != 80 && port != 443 && !(host.len() > 0 && host.last() == ']') ==> if port
                <= 65535 {
                r == Some(host.push(':') + decimal(port as nat))
            } else {
                r is None
            }
        }),
{
    let authority = host.push(':') + digits;
    law_the_last_place_is_found(host, ':');
    law_the_last_place_is_found(authority, ':');
    let n = host.len() as int;
    assert(authority[n] == ':');
    assert(authority.contains(':'));
    let k = find_last(authority, ':')->0 as int;
    if k > n {
        assert(authority[k] == digits[k - n - 1]);
        assert(digit(digits[k - n - 1], 10) is Some);
    }
    assert(k == n);
    assert(authority.take(k) =~= host);
    assert(authority.skip(k + 1) =~= digits);
    reveal_strlit(":");
    let port = natural(digits, 10)->0;
    assert(host + ":"@ + decimal(port as nat) =~= host.push(':') + decimal(port as nat));
    if find_last(host, ':') is Some {
        assert(host.contains(host[find_last(host, ':')->0 as int]));
    }
}

/// Without both headers a page is not of the host that it talks to.
pub proof fn law_both_headers_are_needed(origin: Option<Seq<char>>, host: Option<Seq<char>>)
    ensures
        origin is None || host is None ==> !same_origin(origin, host),
{
}

} // verus!
