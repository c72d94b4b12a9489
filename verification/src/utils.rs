//! Signals by name and number, and facts about the machine.

use crate::number::{digit, digits_value, natural, read_natural};
use crate::text::{
    chars_of, concat, is_white_char, lower, lower_char, same_chars_ignoring_case, same_ignoring_case,
    trim_start, upper, upper_text,
};
use vstd::prelude::*;

verus! {

/// A system, by how it numbers its signals.
#[derive(Clone, Copy, Debug, PartialEq, Eq, Structural)]
pub enum System {
    Linux,
    /// The BSD systems and those that number their signals alike.
    Bsd,
}

/// The names of the signals at their Linux numbers. The first entry stands for no signal, the
/// last for every number without a name.
#[verifier::opaque]
pub open spec fn linux_names() -> Seq<Seq<char>> {
    seq![
        "zero"@,
        "HUP"@,
        "INT"@,
        "QUIT"@,
        "ILL"@,
        "TRAP"@,
        "ABRT"@,
        "UNUSED"@,
        "FPE"@,
        "KILL"@,
        "USR1"@,
        "SEGV"@,
        "USR2"@,
        "PIPE"@,
        "ALRM"@,
        "TERM"@,
        "STKFLT"@,
        "CHLD"@,
        "CONT"@,
        "STOP"@,
        "TSTP"@,
        "TTIN"@,
        "TTOU"@,
        "URG"@,
        "XCPU"@,
        "XFSZ"@,
        "VTALRM"@,
        "PROF"@,
        "WINCH"@,
        "IO"@,
        "PWR"@,
        "SYS"@,
        "unknown"@,
    ]
}

/// The names of the signals at their BSD numbers. The first entry stands for no signal, the last
/// for every number without a name.
#[verifier::opaque]
pub open spec fn bsd_names() -> Seq<Seq<char>> {
    seq![
        "zero"@,
        "HUP"@,
        "INT"@,
        "QUIT"@,
        "ILL"@,
        "TRAP"@,
        "ABRT"@,
        "EMT"@,
        "FPE"@,
        "KILL"@,
        "BUS"@,
        "SEGV"@,
        "SYS"@,
        "PIPE"@,
        "ALRM"@,
        "TERM"@,
        "URG"@,
        "STOP"@,
        "TSTP"@,
        "CONT"@,
        "CHLD"@,
        "TTIN"@,
        "TTOU"@,
        "IO"@,
        "XCPU"@,
        "XFSZ"@,
        "VTALRM"@,
        "PROF"@,
        "WINCH"@,
        "INFO"@,
        "USR1"@,
        "USR2"@,
        "unknown"@,
    ]
}

/// The names of the signals at their numbers on a system.
pub open spec fn sig_names(system: System) -> Seq<Seq<char>> {
    match system {
        System::Linux => linux_names(),
        System::Bsd => bsd_names(),
    }
}

/// The name at a signal's number, `unknown` for a number outside the table.
pub open spec fn sig_label(system: System, sig: int) -> Seq<char> {
    if 0 <= sig < 33 {
        sig_names(system)[sig]
    } else {
        "unknown"@
    }
}

/// A name without its `SIG` or `sig` prefix, when it has one.
pub open spec fn bare_name(name: Seq<char>) -> Option<Seq<char>> {
    if name.len() >= 3 && (name.take(3) == seq!['S', 'I', 'G'] || name.take(3) == seq!['s', 'i', 'g']) {
        Some(name.skip(3))
    } else {
        None
    }
}

/// `name` is the name of signal `sig`, in any case, with or without the prefix.
pub open spec fn names_signal(system: System, name: Seq<char>, sig: int) -> bool {
    ||| same_ignoring_case(sig_names(system)[sig], name)
    ||| match bare_name(name) {
        Some(bare) => same_ignoring_case(sig_names(system)[sig], bare),
        None => false,
    }
}

/// The first signal from `sig` on that `name` names.
pub open spec fn named_signal(system: System, name: Seq<char>, sig: int) -> Option<int>
    decreases 32 - sig,
{
    if sig >= 32 {
        None
    } else if names_signal(system, name, sig) {
        Some(sig)
    } else {
        named_signal(system, name, sig + 1)
    }
}

/// How many of the leading characters are decimal digits.
pub open spec fn digit_run(s: Seq<char>) -> nat
    decreases s.len(),
{
    if s.len() > 0 && digit(s[0], 10) is Some {
        1 + digit_run(s.drop_first())
    } else {
        0
    }
}

/// The integer at the start of a text: white space, one optional sign, decimal digits, and
/// whatever follows. Zero when there are no digits or the integer needs more than 32 bits.
pub open spec fn leading_integer(s: Seq<char>) -> int {
    let t = trim_start(s);
    let signed = t.len() > 0 && (t[0] == '+' || t[0] == '-');
    let body = if signed {
        t.drop_first()
    } else {
        t
    };
    let magnitude = digits_value(body.take(digit_run(body) as int), 10);
    let v = if signed && t[0] == '-' {
        -magnitude
    } else {
        magnitude
    };
    if i32::MIN <= v <= i32::MAX {
        v
    } else {
        0
    }
}

/// The signal that a text stands for: a name, else the number at its start.
pub open spec fn signal_number(system: System, name: Seq<char>) -> int {
    match named_signal(system, name, 1) {
        Some(sig) => sig,
        None => leading_integer(name),
    }
}

/// The entry of the Linux signal table at `index`.
fn linux_name_at(index: usize) -> (r: &'static str)
    ensures
        r@ == sig_label(System::Linux, index as int),
{
    proof {
        reveal(linux_names);
    }
    match index {
        0 => "zero",
        1 => "HUP",
        2 => "INT",
        3 => "QUIT",
        4 => "ILL",
        5 => "TRAP",
        6 => "ABRT",
        7 => "UNUSED",
        8 => "FPE",
        9 => "KILL",
        10 => "USR1",
        11 => "SEGV",
        12 => "USR2",
        13 => "PIPE",
        14 => "ALRM",
        15 => "TERM",
        16 => "STKFLT",
        17 => "CHLD",
        18 => "CONT",
        19 => "STOP",
        20 => "TSTP",
        21 => "TTIN",
        22 => "TTOU",
        23 => "URG",
        24 => "XCPU",
        25 => "XFSZ",
        26 => "VTALRM",
        27 => "PROF",
        28 => "WINCH",
        29 => "IO",
        30 => "PWR",
        31 => "SYS",
        _ => "unknown",
    }
}

/// The entry of the BSD signal table at `index`.
fn bsd_name_at(index: usize) -> (r: &'static str)
    ensures
        r@ == sig_label(System::Bsd, index as int),
{
    proof {
        reveal(bsd_names);
    }
    match index {
        0 => "zero",
        1 => "HUP",
        2 => "INT",
        3 => "QUIT",
        4 => "ILL",
        5 => "TRAP",
        6 => "ABRT",
        7 => "EMT",
        8 => "FPE",
        9 => "KILL",
        10 => "BUS",
        11 => "SEGV",
        12 => "SYS",
        13 => "PIPE",
        14 => "ALRM",
        15 => "TERM",
        16 => "URG",
        17 => "STOP",
        18 => "TSTP",
        19 => "CONT",
        20 => "CHLD",
        21 => "TTIN",
        22 => "TTOU",
        23 => "IO",
        24 => "XCPU",
        25 => "XFSZ",
        26 => "VTALRM",
        27 => "PROF",
        28 => "WINCH",
        29 => "INFO",
        30 => "USR1",
        31 => "USR2",
        _ => "unknown",
    }
}

/// The entry of a system's signal table at `index`.
fn sig_name_at(system: System, index: usize) -> (r: &'static str)
    ensures
        r@ == sig_label(system, index as int),
{
    match system {
        System::Linux => linux_name_at(index),
        System::Bsd => bsd_name_at(index),
    }
}

/// `SIG` and the name of a signal on a system, `SIGUNKNOWN` where the number has none.
pub fn get_sig_name_on(system: System, sig: i32) -> (r: String)
    ensures
        r@ == "SIG"@ + upper(sig_label(system, sig as int)),
{
    let name = if sig >= 0 && sig < 33 {
        sig_name_at(system, sig as usize)
    } else {
        "unknown"
    };
    let name = upper_text(name);
    concat("SIG", name.as_str())
}

/// `SIG` and the name of a signal on Linux, `SIGUNKNOWN` where the number has none.
pub fn get_sig_name(sig: i32) -> (r: String)
    ensures
        r@ == "SIG"@ + upper(sig_label(System::Linux, sig as int)),
{
    get_sig_name_on(System::Linux, sig)
}

/// A digit run ends before the first character that is no digit.
proof fn lemma_digit_run(s: Seq<char>, k: int)
    requires
        0 <= k <= s.len(),
        forall|j: int| 0 <= j < k ==> (#[trigger] digit(s[j], 10)) is Some,
        k < s.len() ==> digit(s[k], 10) is None,
    ensures
        digit_run(s) == k,
    decreases k,
{
    if k > 0 {
        let rest = s.drop_first();
        assert(digit(s[0], 10) is Some);
        assert forall|j: int| 0 <= j < k - 1 implies (#[trigger] digit(rest[j], 10)) is Some by {
            assert(digit(s[j + 1], 10) is Some);
        }
        lemma_digit_run(rest, k - 1);
    }
}

/// Reads the integer at the start of a text.
fn leading_number(chars: &[char]) -> (r: i32)
    ensures
        r == leading_integer(chars@),
{
    let mut from: usize = 0;
    proof {
        assert(chars@.skip(0) == chars@);
    }
    while from < chars.len() && is_white_char(chars[from])
        invariant
            from <= chars@.len(),
            trim_start(chars@) == trim_start(chars@.skip(from as int)),
        decreases chars@.len() - from,
    {
        proof {
            assert(chars@.skip(from as int)[0] == chars@[from as int]);
            assert(chars@.skip(from as int).drop_first() == chars@.skip(from + 1));
        }
        from += 1;
    }
    let ghost t = chars@.skip(from as int);
    proof {
        if from < chars@.len() {
            assert(t[0] == chars@[from as int]);
        }
        assert(trim_start(chars@) == t);
    }
    let signed: bool = from < chars.len() && (chars[from] == '+' || chars[from] == '-');
    let negative: bool = signed && chars[from] == '-';
    let start: usize = if signed {
        from + 1
    } else {
        from
    };
    let ghost body = chars@.skip(start as int);
    proof {
        if signed {
            assert(body == t.drop_first());
        } else {
            assert(body == t);
        }
    }
    let mut end: usize = start;
    while end < chars.len() && '0' <= chars[end] && chars[end] <= '9'
        invariant
            start <= end <= chars@.len(),
            body == chars@.skip(start as int),
            forall|j: int| 0 <= j < end - start ==> (#[trigger] digit(body[j], 10)) is Some,
        decreases chars@.len() - end,
    {
        assert(body[end - start] == chars@[end as int]);
        end += 1;
    }
    proof {
        if end < chars@.len() {
            assert(body[end - start] == chars@[end as int]);
        }
        lemma_digit_run(body, end - start);
    }
    let digits = vstd::slice::slice_subrange(chars, start, end);
    assert(digits@ == body.take(end - start));
    if digits.len() == 0 {
        return 0;
    }
    assert forall|j: int| 0 <= j < digits@.len() implies (#[trigger] digit(digits@[j], 10)) is Some by {
        assert(digit(body[j], 10) is Some);
    }
    assert(natural(digits@, 10) == Some(digits_value(digits@, 10)));
    match read_natural(digits, 10, 0x8000_0000) {
        Some(v) => {
            if negative {
                (0 - v as i64) as i32
            } else if v < 0x8000_0000 {
                v as i32
            } else {
                0
            }
        },
        None => 0,
    }
}

/// The number of the signal that `HUP`, `SIGHUP`, `sighup` or `1` stands for on a system; zero or
/// less when the text stands for none.
pub fn get_sig_on(system: System, name: &str) -> (r: i32)
    ensures
        r == signal_number(system, name@),
{
    let chars = chars_of(name);
    let prefixed: bool = chars.len() >= 3 && ((chars[0] == 'S' && chars[1] == 'I' && chars[2] == 'G')
        || (chars[0] == 's' && chars[1] == 'i' && chars[2] == 'g'));
    proof {
        if chars@.len() >= 3 {
            let head = chars@.take(3);
            assert(head[0] == chars@[0] && head[1] == chars@[1] && head[2] == chars@[2]);
            assert(head == seq!['S', 'I', 'G'] <==> (head[0] == 'S' && head[1] == 'I' && head[2]
                == 'G')) by {
                if head[0] == 'S' && head[1] == 'I' && head[2] == 'G' {
                    assert(head =~= seq!['S', 'I', 'G']);
                }
            }
            assert(head == seq!['s', 'i', 'g'] <==> (head[0] == 's' && head[1] == 'i' && head[2]
                == 'g')) by {
                if head[0] == 's' && head[1] == 'i' && head[2] == 'g' {
                    assert(head =~= seq!['s', 'i', 'g']);
                }
            }
        }
        assert(prefixed <==> bare_name(name@) is Some);
    }
    let mut sig: usize = 1;
    while sig < 32
        invariant
            1 <= sig <= 32,
            chars@ == name@,
            prefixed ==> chars@.len() >= 3,
            prefixed <==> bare_name(name@) is Some,
            named_signal(system, name@, 1) == named_signal(system, name@, sig as int),
        decreases 32 - sig,
    {
        let candidate = chars_of(sig_name_at(system, sig));
        if same_chars_ignoring_case(&candidate, &chars) {
            return sig as i32;
        }
        if prefixed {
            let bare = vstd::slice::slice_subrange(chars.as_slice(), 3, chars.len());
            assert(bare@ == name@.skip(3));
            if same_chars_ignoring_case(&candidate, bare) {
                return sig as i32;
            }
        }
        sig += 1;
    }
    leading_number(&chars)
}

/// The number of the signal that `HUP`, `SIGHUP`, `sighup` or `1` stands for on Linux; zero or less
/// when the text stands for none.
pub fn get_sig(name: &str) -> (r: i32)
    ensures
        r == signal_number(System::Linux, name@),
{
    get_sig_on(System::Linux, name)
}

/// `nix::unistd::gethostname`: the machine's name, with what is not Unicode replaced, and the
/// empty text when there is none. What the name is, is up to the machine.
#[verifier::external_body]
pub fn hostname() -> (r: String) {
    nix::unistd::gethostname().map(|name| name.to_string_lossy().into_owned()).unwrap_or_default()
}

/// The signal that a text stands for fits into 32 bits.
pub proof fn lemma_signal_in_range(system: System, name: Seq<char>)
    ensures
        i32::MIN <= signal_number(system, name) <= i32::MAX,
{
    lemma_named_in_range(system, name, 1);
}

/// A named signal is in the table.
proof fn lemma_named_in_range(system: System, name: Seq<char>, sig: int)
    requires
        sig >= 1,
    ensures
        match named_signal(system, name, sig) {
            Some(found) => sig <= found < 32,
            None => true,
        },
    decreases 32 - sig,
{
    if sig < 32 && !names_signal(system, name, sig) {
        lemma_named_in_range(system, name, sig + 1);
    }
}

/// A number that tells the names in the signal table apart.
spec fn name_code(s: Seq<char>) -> int {
    s.len() * 0x100_0000 + s[0] as int * 0x1_0000 + s[1] as int * 0x100 + s.last() as int
}

/// The codes of the names in the Linux signal table, in lower case.
spec fn linux_code(sig: int) -> int {
    if sig == 1 {
        57177456
    } else if sig == 2 {
        57241204
    } else if sig == 3 {
        74544500
    } else if sig == 4 {
        57240684
    } else if sig == 5 {
        74740336
    } else if sig == 6 {
        73491060
    } else if sig == 7 {
        108359268
    } else if sig == 8 {
        57045093
    } else if sig == 9 {
        74148204
    } else if sig == 10 {
        74806065
    } else if sig == 11 {
        74671478
    } else if sig == 12 {
        74806066
    } else if sig == 13 {
        74475877
    } else if sig == 14 {
        73493613
    } else if sig == 15 {
        74737005
    } else if sig == 16 {
        108229748
    } else if sig == 17 {
        73623652
    } else if sig == 18 {
        73625460
    } else if sig == 19 {
        74675312
    } else if sig == 20 {
        74740592
    } else if sig == 21 {
        74740846
    } else if sig == 22 {
        74740853
    } else if sig == 23 {
        58028647
    } else if sig == 24 {
        74998645
    } else if sig == 25 {
        74999418
    } else if sig == 26 {
        108426349
    } else if sig == 27 {
        74478182
    } else if sig == 28 {
        91711848
    } else if sig == 29 {
        40464239
    } else if sig == 30 {
        57702258
    } else if sig == 31 {
        57899379
    } else {
        0
    }
}

/// The codes of the names in the BSD signal table, in lower case.
spec fn bsd_code(sig: int) -> int {
    if sig == 1 {
        57177456
    } else if sig == 2 {
        57241204
    } else if sig == 3 {
        74544500
    } else if sig == 4 {
        57240684
    } else if sig == 5 {
        74740336
    } else if sig == 6 {
        73491060
    } else if sig == 7 {
        56978804
    } else if sig == 8 {
        57045093
    } else if sig == 9 {
        74148204
    } else if sig == 10 {
        56784243
    } else if sig == 11 {
        74671478
    } else if sig == 12 {
        57899379
    } else if sig == 13 {
        74475877
    } else if sig == 14 {
        73493613
    } else if sig == 15 {
        74737005
    } else if sig == 16 {
        58028647
    } else if sig == 17 {
        74675312
    } else if sig == 18 {
        74740592
    } else if sig == 19 {
        73625460
    } else if sig == 20 {
        73623652
    } else if sig == 21 {
        74740846
    } else if sig == 22 {
        74740853
    } else if sig == 23 {
        40464239
    } else if sig == 24 {
        74998645
    } else if sig == 25 {
        74999418
    } else if sig == 26 {
        108426349
    } else if sig == 27 {
        74478182
    } else if sig == 28 {
        91711848
    } else if sig == 29 {
        74018415
    } else if sig == 30 {
        74806065
    } else if sig == 31 {
        74806066
    } else {
        0
    }
}

/// The codes of the names in a system's signal table, in lower case.
spec fn table_code(system: System, sig: int) -> int {
    match system {
        System::Linux => linux_code(sig),
        System::Bsd => bsd_code(sig),
    }
}

/// Every name in the signal table has its code, and none begins like the prefix.
proof fn lemma_name_codes(system: System, sig: int)
    requires
        1 <= sig <= 31,
    ensures
        name_code(lower(sig_names(system)[sig])) == table_code(system, sig),
        sig_names(system)[sig].len() >= 2,
        'A' <= sig_names(system)[sig][0] <= 'Z',
        sig_names(system)[sig][0] != 'S' || sig_names(system)[sig][1] != 'I',
        sig_names(system)[sig][0] != 's',
        forall|i: int| 0 <= i < sig_names(system)[sig].len() ==> {
            let c = #[trigger] sig_names(system)[sig][i];
            'A' <= c <= 'Z' || '0' <= c <= '9'
        },
{
    reveal(linux_names);
    reveal(bsd_names);
    reveal_strlit("HUP");
    reveal_strlit("INT");
    reveal_strlit("QUIT");
    reveal_strlit("ILL");
    reveal_strlit("TRAP");
    reveal_strlit("ABRT");
    reveal_strlit("UNUSED");
    reveal_strlit("FPE");
    reveal_strlit("KILL");
    reveal_strlit("USR1");
    reveal_strlit("SEGV");
    reveal_strlit("USR2");
    reveal_strlit("PIPE");
    reveal_strlit("ALRM");
    reveal_strlit("TERM");
    reveal_strlit("STKFLT");
    reveal_strlit("CHLD");
    reveal_strlit("CONT");
    reveal_strlit("STOP");
    reveal_strlit("TSTP");
    reveal_strlit("TTIN");
    reveal_strlit("TTOU");
    reveal_strlit("URG");
    reveal_strlit("XCPU");
    reveal_strlit("XFSZ");
    reveal_strlit("VTALRM");
    reveal_strlit("PROF");
    reveal_strlit("WINCH");
    reveal_strlit("IO");
    reveal_strlit("PWR");
    reveal_strlit("SYS");
    reveal_strlit("EMT");
    reveal_strlit("BUS");
    reveal_strlit("INFO");
    let s = sig_names(system)[sig];
    assert(lower(s)[0] == lower_char(s[0]));
    assert(lower(s)[1] == lower_char(s[1]));
    assert(lower(s).last() == lower_char(s.last()));
}

/// No two entries of the signal table share a name.
proof fn lemma_names_distinct(system: System, a: int, b: int)
    requires
        1 <= a <= 31,
        1 <= b <= 31,
        same_ignoring_case(sig_names(system)[a], sig_names(system)[b]),
    ensures
        a == b,
{
    lemma_name_codes(system, a);
    lemma_name_codes(system, b);
    assert(table_code(system, a) == table_code(system, b));
}

/// A text names at most one signal.
pub proof fn law_signal_names_are_unambiguous(system: System, name: Seq<char>, a: int, b: int)
    requires
        1 <= a <= 31,
        1 <= b <= 31,
        names_signal(system, name, a),
        names_signal(system, name, b),
    ensures
        a == b,
{
    lemma_name_codes(system, a);
    lemma_name_codes(system, b);
    let whole_a = same_ignoring_case(sig_names(system)[a], name);
    let whole_b = same_ignoring_case(sig_names(system)[b], name);
    if whole_a && whole_b {
        lemma_names_distinct(system, a, b);
    } else if !whole_a && !whole_b {
        lemma_names_distinct(system, a, b);
    } else {
        let w = if whole_a {
            a
        } else {
            b
        };
        let s = sig_names(system)[w];
        assert(lower(s) == lower(name));
        assert(name.take(3)[0] == name[0]);
        assert(name.take(3)[1] == name[1]);
        assert(lower(s)[0] == lower_char(s[0]));
        assert(lower(s)[1] == lower_char(s[1]));
        assert(lower(name)[0] == lower_char(name[0]));
        assert(lower(name)[1] == lower_char(name[1]));
        assert(false);
    }
}

/// A name that fits one signal is resolved to it.
proof fn lemma_named(system: System, name: Seq<char>, from: int, sig: int)
    requires
        1 <= from <= sig <= 31,
        names_signal(system, name, sig),
    ensures
        named_signal(system, name, from) == Some(sig),
    decreases sig - from,
{
    if names_signal(system, name, from) {
        law_signal_names_are_unambiguous(system, name, from, sig);
    } else {
        lemma_named(system, name, from + 1, sig);
    }
}

/// The lower-case form of a text differs from it in case only.
proof fn lemma_lower_is_same(s: Seq<char>)
    ensures
        same_ignoring_case(s, lower(s)),
{
    assert(lower(lower(s)) =~= lower(s));
}

/// The name of a signal stands for that signal, with or without the prefix, in upper case as it is
/// rendered and in lower case.
pub proof fn law_signal_names_round_trip(system: System, sig: int)
    requires
        1 <= sig <= 31,
    ensures
        signal_number(system, "SIG"@ + upper(sig_label(system, sig))) == sig,
        signal_number(system, sig_label(system, sig)) == sig,
        signal_number(system, "sig"@ + lower(sig_label(system, sig))) == sig,
        signal_number(system, lower(sig_label(system, sig))) == sig,
{
    lemma_name_codes(system, sig);
    reveal_strlit("SIG");
    reveal_strlit("sig");
    let label = sig_names(system)[sig];
    let full = "SIG"@ + upper(label);
    assert(upper(label) =~= label);
    assert(full.take(3) =~= seq!['S', 'I', 'G']);
    assert(full.skip(3) =~= label);
    lemma_named(system, full, 1, sig);
    lemma_named(system, label, 1, sig);
    lemma_lower_is_same(label);
    let small = "sig"@ + lower(label);
    assert(small.take(3) =~= seq!['s', 'i', 'g']);
    assert(small.skip(3) =~= lower(label));
    lemma_named(system, small, 1, sig);
    lemma_named(system, lower(label), 1, sig);
}

/// A text that does not begin with a letter names no signal.
proof fn lemma_no_name(system: System, name: Seq<char>, sig: int)
    requires
        1 <= sig,
        name.len() > 0 ==> !('a' <= name[0] <= 'z') && !('A' <= name[0] <= 'Z'),
    ensures
        named_signal(system, name, sig) is None,
    decreases 32 - sig,
{
    if sig < 32 {
        lemma_name_codes(system, sig);
        let label = sig_names(system)[sig];
        assert(lower(label).len() == label.len() && lower(name).len() == name.len());
        if name.len() > 0 {
            assert(lower(label)[0] == lower_char(label[0]));
            assert(lower(name)[0] == lower_char(name[0]));
            if name.len() >= 3 {
                assert(name.take(3)[0] == name[0]);
            }
        }
        lemma_no_name(system, name, sig + 1);
    }
}

/// The number of a signal stands for that signal, whatever follows its digits, and a number that needs
/// more than 32 bits stands for none.
pub proof fn law_signal_numbers_stand_for_themselves(system: System, n: nat, rest: Seq<char>)
    requires
        rest.len() > 0 ==> !('0' <= rest[0] <= '9'),
    ensures
        signal_number(system, crate::number::decimal(n) + rest) == if n <= i32::MAX {
            n as int
        } else {
            0
        },
{
    let d = crate::number::decimal(n);
    let s = d + rest;
    crate::number::law_decimal_is_plain(n);
    crate::number::law_decimal_reads_back(n);
    assert(s[0] == d[0]);
    assert('0' <= d[0] <= '9');
    lemma_no_name(system, s, 1);
    assert forall|j: int| 0 <= j < d.len() implies (#[trigger] digit(s[j], 10)) is Some by {
        assert(s[j] == d[j]);
    }
    lemma_digit_run(s, d.len() as int);
    assert(s.take(d.len() as int) =~= d);
}

/// A text names a signal exactly if it is the signal's name in any case, or has `SIG` or `sig` in front of
/// it.
pub proof fn law_what_names_a_signal(system: System, name: Seq<char>, bare: Seq<char>, sig: int)
    ensures
        names_signal(system, bare, sig) <== same_ignoring_case(sig_names(system)[sig], bare),
        names_signal(system, seq!['S', 'I', 'G'] + bare, sig) <== same_ignoring_case(
            sig_names(system)[sig],
            bare,
        ),
        names_signal(system, seq!['s', 'i', 'g'] + bare, sig) <== same_ignoring_case(
            sig_names(system)[sig],
            bare,
        ),
        names_signal(system, name, sig) ==> {
            ||| same_ignoring_case(sig_names(system)[sig], name)
            ||| name.len() >= 3 && same_ignoring_case(sig_names(system)[sig], name.skip(3)) && (
            name.take(3) == seq!['S', 'I', 'G'] || name.take(3) == seq!['s', 'i', 'g'])
        },
{
    let big = seq!['S', 'I', 'G'] + bare;
    let small = seq!['s', 'i', 'g'] + bare;
    assert(big.take(3) =~= seq!['S', 'I', 'G']);
    assert(small.take(3) =~= seq!['s', 'i', 'g']);
    assert(big.skip(3) =~= bare);
    assert(small.skip(3) =~= bare);
}

/// A number outside the table has no name.
pub proof fn law_other_numbers_have_no_name(system: System, sig: int)
    requires
        sig < 0 || sig >= 32,
    ensures
        sig_label(system, sig) == "unknown"@,
{
    reveal(linux_names);
    reveal(bsd_names);
}

/// A text that is no name of a signal and does not begin with a number, white space aside, stands for no
/// signal.
pub proof fn law_other_texts_stand_for_no_signal(system: System, name: Seq<char>)
    requires
        forall|sig: int| 1 <= sig <= 31 ==> !#[trigger] names_signal(system, name, sig),
        trim_start(name).len() > 0 ==> digit(trim_start(name)[0], 10) is None && trim_start(name)[0]
            != '+' && trim_start(name)[0] != '-',
    ensures
        signal_number(system, name) == 0,
{
    lemma_unnamed(system, name, 1);
    let t = trim_start(name);
    assert(t.take(0) =~= Seq::empty());
}

/// A text that names none of the signals is resolved to none.
proof fn lemma_unnamed(system: System, name: Seq<char>, sig: int)
    requires
        1 <= sig,
        forall|s: int| 1 <= s <= 31 ==> !#[trigger] names_signal(system, name, s),
    ensures
        named_signal(system, name, sig) is None,
    decreases 32 - sig,
{
    if sig < 32 {
        lemma_unnamed(system, name, sig + 1);
    }
}

/// A sign in front of a number is part of it.
pub proof fn law_signed_numbers_are_read(system: System, n: nat)
    requires
        n <= i32::MAX,
    ensures
        signal_number(system, seq!['-'] + crate::number::decimal(n)) == -n,
        signal_number(system, seq!['+'] + crate::number::decimal(n)) == n,
{
    let d = crate::number::decimal(n);
    crate::number::law_decimal_is_plain(n);
    crate::number::law_decimal_reads_back(n);
    let minus = seq!['-'] + d;
    let plus = seq!['+'] + d;
    lemma_no_name(system, minus, 1);
    lemma_no_name(system, plus, 1);
    assert(minus.drop_first() =~= d);
    assert(plus.drop_first() =~= d);
    assert forall|j: int| 0 <= j < d.len() implies (#[trigger] digit(d[j], 10)) is Some by {
        assert('0' <= d[j] <= '9');
    }
    lemma_digit_run(d, d.len() as int);
    assert(d.take(d.len() as int) =~= d);
}

} // verus!
