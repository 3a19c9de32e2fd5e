//! Replacement of every occurrence of a pattern in a text.

use vstd::prelude::*;

verus! {

/// `text` with every occurrence of `from` replaced by `to`.
///
/// Occurrences are found from left to right and do not overlap: after a match the
/// search goes on behind it, and the inserted `to` is never searched.  An empty
/// `from` occurs before every character and at the end.
pub open spec fn replaced(text: Seq<char>, from: Seq<char>, to: Seq<char>) -> Seq<char>
    decreases text.len(),
{
    if text.len() == 0 {
        if from.len() == 0 {
            to
        } else {
            text
        }
    } else if from.len() == 0 {
        to + seq![text[0]] + replaced(text.skip(1), from, to)
    } else if from.is_prefix_of(text) {
        to + replaced(text.skip(from.len() as int), from, to)
    } else {
        seq![text[0]] + replaced(text.skip(1), from, to)
    }
}

/// `pattern` occurs somewhere in `text`.
pub open spec fn occurs_in(pattern: Seq<char>, text: Seq<char>) -> bool {
    exists|i: int| 0 <= i <= text.len() && #[trigger] pattern.is_prefix_of(text.skip(i))
}

/// Whether `pattern` stands in `text` at index `at`.
fn matches_at(text: &Vec<char>, at: usize, pattern: &Vec<char>) -> (found: bool)
    requires
        at <= text.len(),
    ensures
        found == pattern@.is_prefix_of(text@.skip(at as int)),
{
    if pattern.len() > text.len() - at {
        return false;
    }
    let mut k: usize = 0;
    while k < pattern.len()
        invariant
            at <= text.len(),
            pattern.len() <= text.len() - at,
            k <= pattern.len(),
            forall|j: int| 0 <= j < k ==> pattern@[j] == text@[at + j],
        decreases pattern.len() - k,
    {
        if pattern[k] != text[at + k] {
            assert(text@.skip(at as int).subrange(0, pattern@.len() as int)[k as int] != pattern@[k as int]);
            return false;
        }
        k += 1;
    }
    assert(pattern@ =~= text@.skip(at as int).subrange(0, pattern@.len() as int));
    true
}

/// Appends a copy of `tail` to `out`.
fn append_chars(out: &mut Vec<char>, tail: &Vec<char>)
    ensures
        final(out)@ == old(out)@ + tail@,
{
    let mut k: usize = 0;
    while k < tail.len()
        invariant
            k <= tail.len(),
            out@ == old(out)@ + tail@.take(k as int),
        decreases tail.len() - k,
    {
        out.push(tail[k]);
        k += 1;
    }
}

/// Replaces every occurrence of `from` in `text` by `to`.
pub fn replace_all(text: &Vec<char>, from: &Vec<char>, to: &Vec<char>) -> (out: Vec<char>)
    ensures
        out@ == replaced(text@, from@, to@),
{
    let mut out: Vec<char> = Vec::new();
    let mut i: usize = 0;
    proof {
        assert(text@.skip(0) == text@);
        assert(out@ + replaced(text@, from@, to@) == replaced(text@, from@, to@));
    }
    while i < text.len()
        invariant
            i <= text.len(),
            out@ + replaced(text@.skip(i as int), from@, to@) == replaced(text@, from@, to@),
        decreases text.len() - i,
    {
        let ghost rest = text@.skip(i as int);
        let ghost before = out@;
        if from.len() == 0 {
            append_chars(&mut out, to);
            out.push(text[i]);
            proof {
                assert(rest.skip(1) == text@.skip(i + 1));
                assert(out@ + replaced(rest.skip(1), from@, to@) == before + (to@ + seq![rest[0]]
                    + replaced(rest.skip(1), from@, to@)));
            }
            i += 1;
        } else if matches_at(text, i, from) {
            append_chars(&mut out, to);
            proof {
                assert(rest.skip(from@.len() as int) == text@.skip(i + from@.len()));
                assert(out@ + replaced(rest.skip(from@.len() as int), from@, to@) == before + (to@
                    + replaced(rest.skip(from@.len() as int), from@, to@)));
            }
            i += from.len();
        } else {
            out.push(text[i]);
            proof {
                assert(rest.skip(1) == text@.skip(i + 1));
                assert(out@ + replaced(rest.skip(1), from@, to@) == before + (seq![rest[0]]
                    + replaced(rest.skip(1), from@, to@)));
            }
            i += 1;
        }
    }
    assert(text@.skip(i as int).len() == 0);
    if from.len() == 0 {
        append_chars(&mut out, to);
    } else {
        assert(out@ + Seq::<char>::empty() == out@);
    }
    out
}

/// A pattern that does not occur in a text leaves it as it is.
pub proof fn lemma_replaced_without_pattern(text: Seq<char>, from: Seq<char>, to: Seq<char>)
    requires
        !occurs_in(from, text),
    ensures
        replaced(text, from, to) == text,
    decreases text.len(),
{
    assert(text.skip(0) =~= text);
    assert(!from.is_prefix_of(text.skip(0)));
    if text.len() > 0 {
        let tail = text.skip(1);
        assert forall|i: int| 0 <= i <= tail.len() implies !#[trigger] from.is_prefix_of(
            tail.skip(i),
        ) by {
            assert(tail.skip(i) =~= text.skip(i + 1));
            assert(!from.is_prefix_of(text.skip(i + 1)));
        }
        lemma_replaced_without_pattern(tail, from, to);
        assert(seq![text[0]] + tail =~= text);
    }
}

} // verus!
