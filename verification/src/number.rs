//! Integers as text: reading them in a radix and writing them in decimal.

use vstd::prelude::*;

verus! {

/// What a digit stands for in the given radix, if it is one.
pub open spec fn digit(c: char, radix: int) -> Option<int> {
    let v = if '0' <= c <= '9' {
        c as int - '0' as int
    } else if 'a' <= c <= 'z' {
        c as int - 'a' as int + 10
    } else if 'A' <= c <= 'Z' {
        c as int - 'A' as int + 10
    } else {
        radix
    };
    if v < radix {
        Some(v)
    } else {
        None
    }
}

/// Every character is a digit of the radix.
pub open spec fn all_digits(s: Seq<char>, radix: int) -> bool {
    forall|i: int| 0 <= i < s.len() ==> (#[trigger] digit(s[i], radix)) is Some
}

/// The number that a run of digits denotes; zero for the empty run.
pub open spec fn digits_value(s: Seq<char>, radix: int) -> int
    decreases s.len(),
{
    if s.len() == 0 {
        0
    } else {
        digits_value(s.drop_last(), radix) * radix + digit(s.last(), radix)->0
    }
}

/// The number that one or more digits denote.
pub open spec fn natural(s: Seq<char>, radix: int) -> Option<int> {
    if s.len() > 0 && all_digits(s, radix) {
        Some(digits_value(s, radix))
    } else {
        None
    }
}

/// The number that one or more digits denote, behind an optional sign.
pub open spec fn integer(s: Seq<char>, radix: int) -> Option<int> {
    if s.len() > 0 && s[0] == '+' {
        natural(s.drop_first(), radix)
    } else if s.len() > 0 && s[0] == '-' {
        match natural(s.drop_first(), radix) {
            Some(v) => Some(-v),
            None => None,
        }
    } else {
        natural(s, radix)
    }
}

/// The decimal digit for a number below ten.
pub open spec fn digit_char(d: nat) -> char {
    ('0' as u32 + d) as char
}

/// A number in decimal, without leading zeros.
pub open spec fn decimal(n: nat) -> Seq<char>
    decreases n,
{
    if n < 10 {
        seq![digit_char(n)]
    } else {
        decimal(n / 10).push(digit_char(n % 10))
    }
}

/// A signed number in decimal.
pub open spec fn signed_decimal(n: int) -> Seq<char> {
    if n < 0 {
        seq!['-'] + decimal((-n) as nat)
    } else {
        decimal(n as nat)
    }
}

/// More digits never denote a smaller number.
proof fn lemma_value_grows(s: Seq<char>, k: int, radix: int)
    requires
        2 <= radix <= 36,
        0 <= k <= s.len(),
        all_digits(s, radix),
    ensures
        0 <= digits_value(s.take(k), radix) <= digits_value(s, radix),
    decreases s.len(),
{
    if k == s.len() {
        assert(s.take(k) == s);
        if s.len() > 0 {
            let d = s.drop_last();
            assert forall|i: int| 0 <= i < d.len() implies (#[trigger] digit(d[i], radix)) is Some by {
                assert(digit(s[i], radix) is Some);
            }
            lemma_value_grows(d, d.len() as int, radix);
            assert(d.take(d.len() as int) == d);
            assert(digit(s[s.len() - 1], radix) is Some);
            let v = digits_value(d, radix);
            assert(v * radix >= 0) by (nonlinear_arith)
                requires
                    v >= 0,
                    radix >= 2,
            ;
        }
    } else {
        let d = s.drop_last();
        assert forall|i: int| 0 <= i < d.len() implies (#[trigger] digit(d[i], radix)) is Some by {
            assert(digit(s[i], radix) is Some);
        }
        lemma_value_grows(d, k, radix);
        assert(d.take(k) == s.take(k));
        assert(digit(s[s.len() - 1], radix) is Some);
        let v = digits_value(d, radix);
        assert(v * radix >= v) by (nonlinear_arith)
            requires
                v >= 0,
                radix >= 2,
        ;
    }
}

/// What a digit stands for in the given radix, if it is one.
fn digit_of(c: char, radix: u32) -> (r: Option<u32>)
    requires
        2 <= radix <= 36,
    ensures
        match r {
            Some(d) => digit(c, radix as int) == Some(d as int) && d < radix,
            None => digit(c, radix as int) is None,
        },
{
    let v: u32 = if '0' <= c && c <= '9' {
        c as u32 - '0' as u32
    } else if 'a' <= c && c <= 'z' {
        c as u32 - 'a' as u32 + 10
    } else if 'A' <= c && c <= 'Z' {
        c as u32 - 'A' as u32 + 10
    } else {
        radix
    };
    if v < radix {
        Some(v)
    } else {
        None
    }
}

/// Reads one or more digits that denote a number of at most `limit`.
pub fn read_natural(s: &[char], radix: u32, limit: u64) -> (r: Option<u64>)
    requires
        2 <= radix <= 36,
    ensures
        match r {
            Some(v) => natural(s@, radix as int) == Some(v as int) && v <= limit,
            None => match natural(s@, radix as int) {
                Some(v) => v > limit,
                None => true,
            },
        },
{
    if s.len() == 0 {
        return None;
    }
    let mut value: u64 = 0;
    let mut within: bool = true;
    let mut i: usize = 0;
    while i < s.len()
        invariant
            2 <= radix <= 36,
            i <= s@.len(),
            all_digits(s@.take(i as int), radix as int),
            within ==> value == digits_value(s@.take(i as int), radix as int) && value <= limit,
            !within ==> digits_value(s@.take(i as int), radix as int) > limit,
        decreases s@.len() - i,
    {
        let ghost head = s@.take(i as int);
        let ghost next = s@.take(i + 1);
        match digit_of(s[i], radix) {
            None => {
                proof {
                    assert(digit(s@[i as int], radix as int) is None);
                }
                return None;
            },
            Some(d) => {
                proof {
                    assert(next.drop_last() == head);
                    assert(next.last() == s@[i as int]);
                    assert forall|j: int| 0 <= j < next.len() implies (#[trigger] digit(
                        next[j],
                        radix as int,
                    )) is Some by {
                        if j < i {
                            assert(digit(head[j], radix as int) is Some);
                        }
                    }
                    lemma_value_grows(next, i as int, radix as int);
                    assert(next.take(i as int) == head);
                }
                if within {
                    assert(value * radix <= 0xffff_ffff_ffff_ffff * 36) by (nonlinear_arith)
                        requires
                            value <= 0xffff_ffff_ffff_ffff,
                            radix <= 36,
                    ;
                    assert(value * radix >= 0) by (nonlinear_arith)
                        requires
                            value >= 0,
                            radix >= 0,
                    ;
                    let wide: u128 = (value as u128) * (radix as u128) + (d as u128);
                    if wide <= limit as u128 {
                        value = wide as u64;
                    } else {
                        within = false;
                    }
                }
            },
        }
        i += 1;
    }
    assert(s@.take(s@.len() as int) == s@);
    if within {
        Some(value)
    } else {
        None
    }
}

/// Reads an integer of the given radix that fits into 64 bits.
pub fn read_integer(s: &[char], radix: u32) -> (r: Option<i64>)
    requires
        2 <= radix <= 36,
    ensures
        match r {
            Some(v) => integer(s@, radix as int) == Some(v as int),
            None => match integer(s@, radix as int) {
                Some(v) => v < i64::MIN || v > i64::MAX,
                None => true,
            },
        },
{
    if s.len() > 0 && (s[0] == '+' || s[0] == '-') {
        let rest = vstd::slice::slice_subrange(s, 1, s.len());
        assert(rest@ == s@.drop_first());
        if s[0] == '+' {
            match read_natural(rest, radix, 0x7fff_ffff_ffff_ffff) {
                Some(v) => Some(v as i64),
                None => None,
            }
        } else {
            match read_natural(rest, radix, 0x8000_0000_0000_0000) {
                Some(v) => Some((0 - v as i128) as i64),
                None => None,
            }
        }
    } else {
        match read_natural(s, radix, 0x7fff_ffff_ffff_ffff) {
            Some(v) => Some(v as i64),
            None => None,
        }
    }
}

/// Writes a number in decimal.
pub fn write_decimal(n: u64) -> (r: String)
    ensures
        r@ == decimal(n as nat),
    decreases n,
{
    if n < 10 {
        let mut out = String::new();
        out.push((48 + n as u8) as char);
        assert(out@ == decimal(n as nat));
        out
    } else {
        let mut out = write_decimal(n / 10);
        out.push((48 + (n % 10) as u8) as char);
        out
    }
}

/// Writes a signed number in decimal.
pub fn write_signed_decimal(n: i32) -> (r: String)
    ensures
        r@ == signed_decimal(n as int),
{
    if n < 0 {
        let mut out = String::new();
        out.push('-');
        let digits = write_decimal((0 - n as i64) as u64);
        out.append(digits.as_str());
        assert(out@ == signed_decimal(n as int));
        out
    } else {
        write_decimal(n as u64)
    }
}

/// A number is read back from its decimal form.
pub proof fn law_decimal_reads_back(n: nat)
    ensures
        natural(decimal(n), 10) == Some(n as int),
        decimal(n).len() >= 1,
    decreases n,
{
    if n >= 10 {
        law_decimal_reads_back(n / 10);
        let head = decimal(n / 10);
        let s = decimal(n);
        assert(s.drop_last() == head);
        assert(s.last() == digit_char(n % 10));
        assert forall|i: int| 0 <= i < s.len() implies (#[trigger] digit(s[i], 10)) is Some by {
            if i < head.len() {
                assert(digit(head[i], 10) is Some);
            }
        }
    } else {
        let s = decimal(n);
        assert(s.drop_last() == Seq::<char>::empty());
        assert(digits_value(s.drop_last(), 10) == 0);
        assert(digit(s[0], 10) == Some(n as int));
    }
}

/// A digit stands for less than the radix: a decimal digit for itself, a letter of either case for ten
/// and its place in the alphabet. Nothing else is a digit.
pub proof fn law_what_digits_stand_for(c: char, radix: int, v: int)
    requires
        2 <= radix <= 36,
        0 <= v < radix,
    ensures
        digit(c, radix) == Some(v) <==> {
            ||| v < 10 && c as int == 48 + v
            ||| v >= 10 && c as int == 87 + v
            ||| v >= 10 && c as int == 55 + v
        },
        digit(c, radix) matches Some(w) ==> 0 <= w < radix,
{
}

/// A number is read digit by digit, each of them counting as much less as the radix says; without a
/// digit, or with anything else among them, there is no number.
pub proof fn law_numbers_are_positional(s: Seq<char>, c: char, radix: int)
    requires
        2 <= radix <= 36,
    ensures
        natural(Seq::<char>::empty(), radix) is None,
        natural(seq![c], radix) == digit(c, radix),
        natural(s, radix) matches Some(v) ==> natural(s.push(c), radix) == match digit(c, radix) {
            Some(d) => Some(v * radix + d),
            None => None,
        },
        s.len() > 0 && natural(s, radix) is None ==> natural(s.push(c), radix) is None,
{
    let one = seq![c];
    assert(one.drop_last() =~= Seq::<char>::empty());
    assert(digits_value(one.drop_last(), radix) == 0);
    assert(0 * radix == 0);
    assert(one[0] == c);
    if digit(c, radix) is Some {
        assert(all_digits(one, radix));
        assert(digits_value(one, radix) == 0 * radix + digit(c, radix)->0);
    }
    let more = s.push(c);
    assert(more.drop_last() =~= s);
    assert(more.last() == c);
    assert(more[s.len() as int] == c);
    if all_digits(s, radix) && digit(c, radix) is Some {
        assert forall|i: int| 0 <= i < more.len() implies (#[trigger] digit(more[i], radix)) is Some by {
            if i < s.len() {
                assert(digit(s[i], radix) is Some);
            }
        }
    }
    if !all_digits(s, radix) {
        let i = choose|i: int| 0 <= i < s.len() && !((#[trigger] digit(s[i], radix)) is Some);
        assert(more[i] == s[i]);
        assert(digit(more[i], radix) is None);
    }
    if digit(c, radix) is None {
        assert(digit(more[s.len() as int], radix) is None);
    }
}

/// A sign in front of a number negates it or leaves it as it is; a number without one is itself.
pub proof fn law_signs(s: Seq<char>, radix: int)
    requires
        2 <= radix <= 36,
    ensures
        integer(seq!['-'] + s, radix) == match natural(s, radix) {
            Some(v) => Some(-v),
            None => None,
        },
        integer(seq!['+'] + s, radix) == natural(s, radix),
        natural(s, radix) is Some ==> integer(s, radix) == natural(s, radix),
{
    assert((seq!['-'] + s).drop_first() =~= s);
    assert((seq!['+'] + s).drop_first() =~= s);
    if natural(s, radix) is Some {
        assert(digit(s[0], radix) is Some);
    }
}

/// A number in decimal holds nothing but digits, and begins with a zero only if it is zero.
pub proof fn law_decimal_is_plain(n: nat)
    ensures
        forall|i: int| 0 <= i < decimal(n).len() ==> '0' <= #[trigger] decimal(n)[i] <= '9',
        decimal(n).len() > 0,
        n > 0 ==> decimal(n)[0] != '0',
    decreases n,
{
    if n >= 10 {
        law_decimal_is_plain(n / 10);
        let head = decimal(n / 10);
        assert forall|i: int| 0 <= i < decimal(n).len() implies '0' <= #[trigger] decimal(n)[i]
            <= '9' by {
            if i < head.len() {
                assert(decimal(n)[i] == head[i]);
            }
        }
        assert(decimal(n)[0] == head[0]);
    }
}

/// A signed number is read back from its decimal form.
pub proof fn law_signed_decimal_reads_back(n: int)
    ensures
        integer(signed_decimal(n), 10) == Some(n),
{
    if n < 0 {
        law_decimal_reads_back((-n) as nat);
        law_signs(decimal((-n) as nat), 10);
    } else {
        law_decimal_reads_back(n as nat);
        law_signs(decimal(n as nat), 10);
    }
}

} // verus!
