//! What holds of every text that is searched, split, folded or trimmed.

use crate::text::{
    find, find_last, is_white, join, lower, lower_char, same_ignoring_case, split, split_once,
    starts_with, trim, trim_end, trim_end_of, trim_start, upper, upper_char,
};
use vstd::prelude::*;

verus! {

/// Only the case of ASCII letters is folded, and each letter goes to the other form of itself.
pub proof fn law_only_letters_are_folded(c: char)
    ensures
        'A' <= c <= 'Z' ==> lower_char(c) as int == c as int + 32,
        !('A' <= c <= 'Z') ==> lower_char(c) == c,
        'a' <= c <= 'z' ==> upper_char(c) as int == c as int - 32,
        !('a' <= c <= 'z') ==> upper_char(c) == c,
        'A' <= c <= 'Z' ==> upper_char(lower_char(c)) == c,
        'a' <= c <= 'z' ==> lower_char(upper_char(c)) == c,
{
}

/// Folding the case of a text keeps its length and folds every character where it stands; folding
/// again changes nothing.
pub proof fn law_texts_are_folded_in_place(s: Seq<char>, i: int)
    requires
        0 <= i < s.len(),
    ensures
        lower(s).len() == s.len(),
        upper(s).len() == s.len(),
        lower(s)[i] == lower_char(s[i]),
        upper(s)[i] == upper_char(s[i]),
        lower(lower(s)) == lower(s),
        upper(upper(s)) == upper(s),
        lower(upper(s)) == lower(s),
{
    assert(lower(lower(s)) =~= lower(s));
    assert(upper(upper(s)) =~= upper(s));
    assert(lower(upper(s)) =~= lower(s));
}

/// Two texts are the same but for case exactly if they are as long as each other and every pair of
/// characters is the same, or the two forms of one ASCII letter.
pub proof fn law_same_but_for_case(a: Seq<char>, b: Seq<char>)
    ensures
        same_ignoring_case(a, b) <==> a.len() == b.len() && forall|i: int|
            0 <= i < a.len() ==> {
                ||| #[trigger] a[i] == b[i]
                ||| 'A' <= a[i] <= 'Z' && b[i] as int == a[i] as int + 32
                ||| 'A' <= b[i] <= 'Z' && a[i] as int == b[i] as int + 32
            },
{
    if same_ignoring_case(a, b) {
        assert(lower(a).len() == a.len() && lower(b).len() == b.len());
        assert forall|i: int| 0 <= i < a.len() implies {
            ||| #[trigger] a[i] == b[i]
            ||| 'A' <= a[i] <= 'Z' && b[i] as int == a[i] as int + 32
            ||| 'A' <= b[i] <= 'Z' && a[i] as int == b[i] as int + 32
        } by {
            assert(lower(a)[i] == lower(b)[i]);
        }
    }
    if a.len() == b.len() && (forall|i: int|
        0 <= i < a.len() ==> {
            ||| #[trigger] a[i] == b[i]
            ||| 'A' <= a[i] <= 'Z' && b[i] as int == a[i] as int + 32
            ||| 'A' <= b[i] <= 'Z' && a[i] as int == b[i] as int + 32
        }) {
        assert forall|i: int| 0 <= i < a.len() implies lower(a)[i] == lower(b)[i] by {
            assert(a[i] == a[i]);
        }
        assert(lower(a) =~= lower(b));
    }
}

/// A character is found at its first place, and beyond the end when it does not occur.
pub proof fn law_the_first_place_is_found(s: Seq<char>, c: char)
    ensures
        find(s, c) <= s.len(),
        find(s, c) < s.len() ==> s[find(s, c) as int] == c,
        forall|i: int| 0 <= i < find(s, c) ==> #[trigger] s[i] != c,
    decreases s.len(),
{
    if s.len() > 0 && s[0] != c {
        let rest = s.drop_first();
        law_the_first_place_is_found(rest, c);
        assert forall|i: int| 0 <= i < find(s, c) implies #[trigger] s[i] != c by {
            if i > 0 {
                assert(rest[i - 1] == s[i]);
            }
        }
    }
}

/// A character is found at its last place, if it occurs at all.
pub proof fn law_the_last_place_is_found(s: Seq<char>, c: char)
    ensures
        match find_last(s, c) {
            Some(k) => k < s.len() && s[k as int] == c && forall|i: int|
                k < i < s.len() ==> #[trigger] s[i] != c,
            None => !s.contains(c),
        },
    decreases s.len(),
{
    if s.len() > 0 && s.last() != c {
        let head = s.drop_last();
        law_the_last_place_is_found(head, c);
        match find_last(s, c) {
            Some(k) => {
                assert forall|i: int| k < i < s.len() implies #[trigger] s[i] != c by {
                    if i < s.len() - 1 {
                        assert(head[i] == s[i]);
                    }
                }
            },
            None => {
                assert forall|i: int| 0 <= i < s.len() implies s[i] != c by {
                    if i < s.len() - 1 {
                        assert(head[i] == s[i]);
                        assert(head.contains(head[i]));
                    }
                }
            },
        }
    }
}

/// A text with a separator in it falls into what stands before the first one and what stands behind
/// it; a text without one does not fall apart.
pub proof fn law_texts_are_parted_once(s: Seq<char>, c: char)
    ensures
        match split_once(s, c) {
            Some((head, tail)) => s == head.push(c) + tail && !head.contains(c),
            None => !s.contains(c),
        },
{
    law_the_first_place_is_found(s, c);
    match split_once(s, c) {
        Some((head, tail)) => {
            assert(s =~= head.push(c) + tail);
        },
        None => {},
    }
}

/// The parts that a separator makes are found again: a text without the separator, then the
/// separator, then any text.
pub proof fn law_parts_are_found_again(head: Seq<char>, c: char, tail: Seq<char>)
    requires
        !head.contains(c),
    ensures
        split_once(head.push(c) + tail, c) == Some((head, tail)),
        split_once(head, c) is None,
{
    let s = head.push(c) + tail;
    law_the_first_place_is_found(s, c);
    law_the_first_place_is_found(head, c);
    let k = find(s, c) as int;
    assert(s[head.len() as int] == c);
    if k < head.len() {
        assert(s[k] == head[k]);
        assert(head.contains(head[k]));
    }
    assert(s.take(k) =~= head);
    assert(s.skip(k + 1) =~= tail);
    if find(head, c) < head.len() {
        assert(head.contains(head[find(head, c) as int]));
    }
}

/// Joining the parts of one text and one more is joining them with the separator between.
pub proof fn law_joining_adds_a_separator(parts: Seq<Seq<char>>, last: Seq<char>, sep: Seq<char>)
    ensures
        join(Seq::<Seq<char>>::empty(), sep) == Seq::<char>::empty(),
        join(seq![last], sep) == last,
        parts.len() > 0 ==> join(parts.push(last), sep) == join(parts, sep) + sep + last,
{
    assert(parts.push(last).drop_last() =~= parts);
}

/// What is joined behind a first part stands behind it and a separator.
proof fn lemma_join_first(first: Seq<char>, rest: Seq<Seq<char>>, sep: Seq<char>)
    requires
        rest.len() > 0,
    ensures
        join(seq![first] + rest, sep) == first + sep + join(rest, sep),
    decreases rest.len(),
{
    let all = seq![first] + rest;
    if rest.len() > 1 {
        lemma_join_first(first, rest.drop_last(), sep);
        assert(all.drop_last() =~= seq![first] + rest.drop_last());
        assert(join(all, sep) =~= first + sep + join(rest, sep));
    } else {
        assert(all.drop_last() =~= seq![first]);
        assert(join(all.drop_last(), sep) == first);
        assert(all.last() == rest[0]);
    }
}

/// Splitting a text at a separator loses nothing: its pieces joined by the separator are the text,
/// and no piece holds a separator.
pub proof fn law_pieces_join_to_the_text(s: Seq<char>, c: char)
    ensures
        split(s, c).len() > 0,
        join(split(s, c), seq![c]) == s,
        forall|i: int| 0 <= i < split(s, c).len() ==> !(#[trigger] split(s, c)[i]).contains(c),
    decreases s.len(),
{
    law_texts_are_parted_once(s, c);
    match split_once(s, c) {
        Some((piece, rest)) => {
            law_pieces_join_to_the_text(rest, c);
            lemma_join_first(piece, split(rest, c), seq![c]);
            assert(piece.push(c) + rest =~= piece + seq![c] + rest);
            assert forall|i: int| 0 <= i < split(s, c).len() implies !(#[trigger] split(
                s,
                c,
            )[i]).contains(c) by {
                if i > 0 {
                    assert(split(s, c)[i] == split(rest, c)[i - 1]);
                }
            }
        },
        None => {},
    }
}

/// The first piece of a text stands before the first separator, and the other pieces are those of
/// what stands behind it.
pub proof fn law_pieces_follow_the_separators(piece: Seq<char>, c: char, rest: Seq<char>)
    requires
        !piece.contains(c),
    ensures
        split(piece, c) == seq![piece],
        split(piece.push(c) + rest, c) == seq![piece] + split(rest, c),
{
    law_parts_are_found_again(piece, c, rest);
}

/// White space is what it is in ASCII, the next-line and no-break characters, and the space
/// characters of Unicode beyond Latin-1.
pub proof fn law_white_space(c: char)
    ensures
        (c as int) < 128 ==> (is_white(c) <==> c == ' ' || c == '\t' || c == '\n' || c == '\r' || c
            == '\u{b}' || c == '\u{c}'),
        128 <= (c as int) < 256 ==> (is_white(c) <==> c as int == 0x85 || c as int == 0xa0),
        (c as int) >= 256 ==> (is_white(c) <==> c as int == 0x1680 || 0x2000 <= c as int <= 0x200a
            || c as int == 0x2028 || c as int == 0x2029 || c as int == 0x202f || c as int == 0x205f
            || c as int == 0x3000),
{
}

/// All of a text is white space.
pub open spec fn all_white(s: Seq<char>) -> bool {
    forall|i: int| 0 <= i < s.len() ==> is_white(#[trigger] s[i])
}

/// What is trimmed off the start of a text is white space, and no white space is left there.
proof fn lemma_trim_start(s: Seq<char>) -> (k: int)
    ensures
        0 <= k <= s.len(),
        trim_start(s) == s.skip(k),
        all_white(s.take(k)),
        k < s.len() ==> !is_white(s[k]),
    decreases s.len(),
{
    if s.len() > 0 && is_white(s[0]) {
        let rest = s.drop_first();
        let k = lemma_trim_start(rest);
        assert(rest.skip(k) =~= s.skip(k + 1));
        assert forall|i: int| 0 <= i < k + 1 implies is_white(#[trigger] s.take(k + 1)[i]) by {
            if i > 0 {
                assert(rest.take(k)[i - 1] == s[i]);
            }
        }
        if k < rest.len() {
            assert(rest[k] == s[k + 1]);
        }
        k + 1
    } else {
        assert(s.skip(0) =~= s);
        0
    }
}

/// What is trimmed off the end of a text is white space, and no white space is left there.
proof fn lemma_trim_end(s: Seq<char>) -> (k: int)
    ensures
        0 <= k <= s.len(),
        trim_end(s) == s.take(k),
        all_white(s.skip(k)),
        k > 0 ==> !is_white(s[k - 1]),
    decreases s.len(),
{
    if s.len() > 0 && is_white(s.last()) {
        let head = s.drop_last();
        let k = lemma_trim_end(head);
        assert(head.take(k) =~= s.take(k));
        assert forall|i: int| 0 <= i < s.skip(k).len() implies is_white(#[trigger] s.skip(k)[i]) by {
            if i + k < head.len() {
                assert(head.skip(k)[i] == s[i + k]);
            }
        }
        if k > 0 {
            assert(head[k - 1] == s[k - 1]);
        }
        k
    } else {
        assert(s.take(s.len() as int) =~= s);
        s.len() as int
    }
}

/// A trimmed text is what stands between the white space at both ends of the text: nothing but white
/// space was taken off, and none is left at its ends.
pub proof fn law_only_white_space_is_trimmed(s: Seq<char>)
    ensures
        exists|before: Seq<char>, after: Seq<char>|
            #![trigger all_white(before), all_white(after)]
            all_white(before) && all_white(after) && s == before + trim(s) + after,
        trim(s).len() > 0 ==> !is_white(trim(s)[0]) && !is_white(trim(s).last()),
{
    let j = lemma_trim_start(s);
    let t = trim_start(s);
    let k = lemma_trim_end(t);
    assert(all_white(s.take(j)) && all_white(t.skip(k)));
    assert(s =~= s.take(j) + trim(s) + t.skip(k));
    if k > 0 {
        assert(t[0] == s[j]);
        assert(trim(s)[0] == t[0]);
        assert(trim(s).last() == t[k - 1]);
    }
}

/// A text without white space at its ends is not trimmed at all.
pub proof fn law_what_is_not_white_is_kept(s: Seq<char>)
    requires
        s.len() > 0 ==> !is_white(s[0]) && !is_white(s.last()),
    ensures
        trim(s) == s,
{
}

/// Every occurrence of a character at the end of a text is taken off, and nothing else.
pub proof fn law_only_that_character_is_taken_off(s: Seq<char>, c: char)
    ensures
        trim_end_of(s, c).is_prefix_of(s),
        trim_end_of(s, c).len() > 0 ==> trim_end_of(s, c).last() != c,
        forall|i: int| trim_end_of(s, c).len() <= i < s.len() ==> #[trigger] s[i] == c,
    decreases s.len(),
{
    if s.len() > 0 && s.last() == c {
        let head = s.drop_last();
        law_only_that_character_is_taken_off(head, c);
        assert forall|i: int| trim_end_of(s, c).len() <= i < s.len() implies #[trigger] s[i] == c by {
            if i < head.len() {
                assert(head[i] == s[i]);
            }
        }
    }
}

/// A text begins with another exactly if it is that one with something behind it.
pub proof fn law_beginnings(s: Seq<char>, head: Seq<char>, rest: Seq<char>)
    ensures
        starts_with(head + rest, head),
        starts_with(s, head) ==> s == head + s.skip(head.len() as int),
{
    assert((head + rest).take(head.len() as int) =~= head);
    if starts_with(s, head) {
        assert(s =~= head + s.skip(head.len() as int));
    }
}

} // verus!
