//! Whether a client takes gzip.

use crate::text::{
    add_text, chars_of, find, find_char, same_ignoring_case, same_text_ignoring_case, split,
    split_text, string_of, texts, trim, trim_chars,
};
use vstd::prelude::*;

verus! {

/// The name and the value of a parameter: what stands before and behind its first equals sign,
/// without the white space around them.
pub open spec fn parameter(param: Seq<char>) -> (Seq<char>, Seq<char>) {
    let k = find(param, '=') as int;
    if k < param.len() {
        (trim(param.take(k)), trim(param.skip(k + 1)))
    } else {
        (trim(param), trim(Seq::empty()))
    }
}

/// The values of the weights among some parameters.
pub open spec fn weights(params: Seq<Seq<char>>) -> Seq<Seq<char>>
    decreases params.len(),
{
    if params.len() == 0 {
        Seq::empty()
    } else {
        let before = weights(params.drop_last());
        let (name, value) = parameter(params.last());
        if same_ignoring_case(name, "q"@) {
            before.push(value)
        } else {
            before
        }
    }
}

/// An entry of `Accept-Encoding` names gzip, or its old alias.
pub open spec fn names_gzip(entry: Seq<char>) -> bool {
    let coding = trim(split(entry, ';')[0]);
    same_ignoring_case(coding, "gzip"@) || same_ignoring_case(coding, "x-gzip"@)
}

/// For every entry that names gzip, the values of its weights.
pub open spec fn gzip_weights_of(entries: Seq<Seq<char>>) -> Seq<Seq<Seq<char>>>
    decreases entries.len(),
{
    if entries.len() == 0 {
        Seq::empty()
    } else {
        let before = gzip_weights_of(entries.drop_last());
        if names_gzip(entries.last()) {
            before.push(weights(split(entries.last(), ';').drop_first()))
        } else {
            before
        }
    }
}

/// What a list of weights holds.
pub open spec fn weights_view(list: Seq<Vec<String>>) -> Seq<Seq<Seq<char>>> {
    list.map_values(|w: Vec<String>| texts(w@))
}

/// Splitting a text gives at least one piece.
proof fn lemma_split_not_empty(s: Seq<char>, c: char)
    ensures
        split(s, c).len() > 0,
{
}

/// The name and the value of a parameter.
fn split_parameter(param: &str) -> (r: (String, String))
    ensures
        (r.0@, r.1@) == parameter(param@),
{
    let chars = chars_of(param);
    let k: usize = find_char(&chars, '=');
    let head = vstd::slice::slice_subrange(chars.as_slice(), 0, k);
    assert(head@ =~= param@.take(k as int));
    if k < chars.len() {
        let tail = vstd::slice::slice_subrange(chars.as_slice(), k + 1, chars.len());
        assert(tail@ =~= param@.skip(k + 1));
        (string_of(trim_chars(head)), string_of(trim_chars(tail)))
    } else {
        assert(head@ =~= param@);
        (string_of(trim_chars(head)), String::new())
    }
}

/// The values of the weights among the parameters of an entry.
fn entry_weights(parts: &Vec<String>) -> (r: Vec<String>)
    requires
        parts@.len() > 0,
    ensures
        texts(r@) == weights(texts(parts@).drop_first()),
{
    let mut out: Vec<String> = Vec::new();
    let ghost params = texts(parts@).drop_first();
    let mut i: usize = 1;
    proof {
        assert(texts(out@) =~= Seq::empty());
        assert(params.take(0) =~= Seq::empty());
    }
    while i < parts.len()
        invariant
            1 <= i <= parts@.len(),
            params == texts(parts@).drop_first(),
            texts(out@) == weights(params.take(i - 1)),
        decreases parts@.len() - i,
    {
        proof {
            assert(params.take(i as int).drop_last() =~= params.take(i - 1));
            assert(params.take(i as int).last() == parts@[i as int]@);
        }
        let (name, value) = split_parameter(parts[i].as_str());
        if same_text_ignoring_case(name.as_str(), "q") {
            add_text(&mut out, value);
        }
        i += 1;
    }
    assert(params.take(i - 1) =~= params);
    out
}

/// For every entry of an `Accept-Encoding` header that names gzip, the values of its weights.
pub fn gzip_weights(accept_encoding: &str) -> (r: Vec<Vec<String>>)
    ensures
        weights_view(r@) == gzip_weights_of(split(accept_encoding@, ',')),
{
    let entries = split_text(accept_encoding, ',');
    let ghost all = texts(entries@);
    let mut out: Vec<Vec<String>> = Vec::new();
    let mut i: usize = 0;
    proof {
        assert(weights_view(out@) =~= Seq::empty());
        assert(all.take(0) =~= Seq::empty());
    }
    while i < entries.len()
        invariant
            i <= entries@.len(),
            all == texts(entries@),
            weights_view(out@) == gzip_weights_of(all.take(i as int)),
        decreases entries@.len() - i,
    {
        proof {
            assert(all.take(i + 1).drop_last() =~= all.take(i as int));
            assert(all.take(i + 1).last() == entries@[i as int]@);
            lemma_split_not_empty(entries@[i as int]@, ';');
        }
        let parts = split_text(entries[i].as_str(), ';');
        assert(texts(parts@)[0] == parts@[0]@);
        let first = chars_of(parts[0].as_str());
        let coding = string_of(trim_chars(&first));
        if same_text_ignoring_case(coding.as_str(), "gzip") || same_text_ignoring_case(
            coding.as_str(),
            "x-gzip",
        ) {
            let found = entry_weights(&parts);
            let ghost before = weights_view(out@);
            let ghost seen = texts(found@);
            out.push(found);
            assert(weights_view(out@) =~= before.push(seen));
        }
        i += 1;
    }
    assert(all.take(i as int) =~= all);
    out
}

/// None of the flags is set.
pub open spec fn none_set(flags: Seq<bool>) -> bool {
    forall|j: int| 0 <= j < flags.len() ==> !#[trigger] flags[j]
}

/// Gzip is accepted: some entry names it, and none of that entry's weights is zero.
pub open spec fn gzip_accepted(zero_weights: Seq<Seq<bool>>) -> bool {
    exists|i: int| 0 <= i < zero_weights.len() && none_set(#[trigger] zero_weights[i])
}

/// What a list of flags for each entry holds.
pub open spec fn flags_view(list: Seq<Vec<bool>>) -> Seq<Seq<bool>> {
    list.map_values(|w: Vec<bool>| w@)
}

/// Whether gzip is accepted, given which weights of each entry that names it are zero.
pub fn accepts_gzip(zero_weights: &[Vec<bool>]) -> (r: bool)
    ensures
        r == gzip_accepted(flags_view(zero_weights@)),
{
    let ghost all = flags_view(zero_weights@);
    let mut i: usize = 0;
    while i < zero_weights.len()
        invariant
            i <= zero_weights@.len(),
            all == flags_view(zero_weights@),
            forall|k: int| 0 <= k < i ==> !none_set(#[trigger] all[k]),
        decreases zero_weights@.len() - i,
    {
        assert(all[i as int] == zero_weights@[i as int]@);
        if !has_set(&zero_weights[i]) {
            return true;
        }
        i += 1;
    }
    false
}

/// Whether one of the flags is set.
fn has_set(flags: &Vec<bool>) -> (r: bool)
    ensures
        r == !none_set(flags@),
{
    let mut i: usize = 0;
    while i < flags.len()
        invariant
            i <= flags@.len(),
            forall|j: int| 0 <= j < i ==> !#[trigger] flags@[j],
        decreases flags@.len() - i,
    {
        if flags[i] {
            assert(flags@[i as int]);
            return true;
        }
        i += 1;
    }
    false
}

} // verus!
