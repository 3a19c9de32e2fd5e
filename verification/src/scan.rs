//! The expansion as one scan of the text.
//!
//! Applying the macros one after the other comes to the same as reading the text
//! once from left to right and, wherever tokens stand, replacing the one that comes
//! first in the order of the passes.  With the longest token first in that order,
//! this is the longest token that stands there.

use crate::expand::expanded_by;
use crate::order::descending;
use crate::replace::replaced;
use crate::shape::{all_well_formed, is_lowercase, is_token, well_formed};
use crate::table::Macro;
use vstd::prelude::*;

verus! {

/// The index of the first macro of `order` whose token stands at the start of
/// `text`, or the length of `order` if there is none.
pub open spec fn first_match(text: Seq<char>, order: Seq<Macro>) -> int
    decreases order.len(),
{
    if order.len() == 0 {
        0
    } else if order[0].token.is_prefix_of(text) {
        0
    } else {
        1 + first_match(text, order.skip(1))
    }
}

/// `text` read once from left to right: where tokens of `order` stand, the one that
/// is first in `order` gives way to its replacement and the reading goes on behind
/// it; any other character is kept.
pub open spec fn scanned(text: Seq<char>, order: Seq<Macro>) -> Seq<char>
    decreases text.len(),
{
    if text.len() == 0 {
        text
    } else {
        let found = first_match(text, order);
        if 0 <= found < order.len() && 0 < order[found].token.len() <= text.len() {
            order[found].replacement + scanned(text.skip(order[found].token.len() as int), order)
        } else {
            seq![text[0]] + scanned(text.skip(1), order)
        }
    }
}

/// A prefix is a sequence that agrees with the start of the other, index by index.
pub proof fn lemma_prefix_by_index(prefix: Seq<char>, text: Seq<char>)
    ensures
        prefix.is_prefix_of(text) <==> (prefix.len() <= text.len() && forall|j: int|
            0 <= j < prefix.len() ==> #[trigger] prefix[j] == text[j]),
{
    if prefix.is_prefix_of(text) {
        assert forall|j: int| 0 <= j < prefix.len() implies #[trigger] prefix[j] == text[j] by {
            assert(text.subrange(0, prefix.len() as int)[j] == text[j]);
        }
    }
    if prefix.len() <= text.len() && forall|j: int|
        0 <= j < prefix.len() ==> #[trigger] prefix[j] == text[j] {
        assert(prefix =~= text.subrange(0, prefix.len() as int));
    }
}

/// What `first_match` returns: no macro before it matches, and the one at it does.
pub proof fn lemma_first_match(text: Seq<char>, order: Seq<Macro>)
    ensures
        0 <= first_match(text, order) <= order.len(),
        forall|j: int|
            0 <= j < first_match(text, order) ==> !(#[trigger] order[j]).token.is_prefix_of(text),
        first_match(text, order) < order.len() ==> order[first_match(text, order)].token.is_prefix_of(
            text,
        ),
    decreases order.len(),
{
    if order.len() > 0 && !order[0].token.is_prefix_of(text) {
        let rest = order.skip(1);
        lemma_first_match(text, rest);
        assert forall|j: int| 0 <= j < first_match(text, order) implies !(
        #[trigger] order[j]).token.is_prefix_of(text) by {
            if j > 0 {
                assert(order[j] == rest[j - 1]);
            }
        }
        if first_match(text, order) < order.len() {
            assert(order[first_match(text, order)] == rest[first_match(text, rest)]);
        }
    }
}

/// An index with the two properties of `first_match` is what `first_match` returns.
pub proof fn lemma_first_match_is(text: Seq<char>, order: Seq<Macro>, at: int)
    requires
        0 <= at <= order.len(),
        forall|j: int| 0 <= j < at ==> !(#[trigger] order[j]).token.is_prefix_of(text),
        at < order.len() ==> order[at].token.is_prefix_of(text),
    ensures
        first_match(text, order) == at,
{
    lemma_first_match(text, order);
    let found = first_match(text, order);
    if found < at {
        assert(order[found].token.is_prefix_of(text));
    } else if at < found {
        assert(order[at].token.is_prefix_of(text));
    }
}

/// With the tokens in descending order of length, the first token that stands at
/// the start of `text` is the longest that stands there.
pub proof fn lemma_first_match_is_longest(text: Seq<char>, order: Seq<Macro>)
    requires
        descending(order),
    ensures
        forall|j: int|
            0 <= j < order.len() && (#[trigger] order[j]).token.is_prefix_of(text) ==> {
                &&& first_match(text, order) <= j
                &&& order[j].token.len() <= order[first_match(text, order)].token.len()
            },
{
    lemma_first_match(text, order);
    let found = first_match(text, order);
    assert forall|j: int|
        0 <= j < order.len() && (#[trigger] order[j]).token.is_prefix_of(text) implies {
        &&& found <= j
        &&& order[j].token.len() <= order[found].token.len()
    } by {
        if j < found {
            assert(!order[j].token.is_prefix_of(text));
        }
    }
}

/// Where `text` does not start with a backslash, no token stands at its start.
proof fn lemma_no_match_without_backslash(text: Seq<char>, order: Seq<Macro>)
    requires
        all_well_formed(order),
        text.len() == 0 || text[0] != '\\',
    ensures
        first_match(text, order) == order.len(),
{
    lemma_first_match(text, order);
    let found = first_match(text, order);
    if found < order.len() {
        assert(well_formed(order[found]));
        lemma_prefix_by_index(order[found].token, text);
        assert(order[found].token[0] == text[0]);
    }
}

/// A scan for no macro at all keeps the text.
proof fn lemma_scan_for_nothing(text: Seq<char>)
    ensures
        scanned(text, Seq::<Macro>::empty()) == text,
    decreases text.len(),
{
    if text.len() > 0 {
        lemma_scan_for_nothing(text.skip(1));
        assert(seq![text[0]] + text.skip(1) =~= text);
    }
}

/// A replacement passes over a stretch that holds the pattern's first character
/// nowhere.
proof fn lemma_replaced_past(head: Seq<char>, rest: Seq<char>, from: Seq<char>, to: Seq<char>)
    requires
        from.len() > 0,
        forall|j: int| 0 <= j < head.len() ==> #[trigger] head[j] != from[0],
    ensures
        replaced(head + rest, from, to) == head + replaced(rest, from, to),
    decreases head.len(),
{
    let text = head + rest;
    if head.len() == 0 {
        assert(text =~= rest);
        assert(head + replaced(rest, from, to) =~= replaced(rest, from, to));
    } else {
        lemma_prefix_by_index(from, text);
        assert(text[0] == head[0]);
        assert(!from.is_prefix_of(text));
        let shorter = head.skip(1);
        assert(text.skip(1) =~= shorter + rest);
        assert forall|j: int| 0 <= j < shorter.len() implies #[trigger] shorter[j] != from[0] by {
            assert(shorter[j] == head[j + 1]);
        }
        lemma_replaced_past(shorter, rest, from, to);
        assert(seq![text[0]] + (shorter + replaced(rest, from, to)) =~= head + replaced(
            rest,
            from,
            to,
        ));
    }
}

/// A scan passes over a stretch that holds no backslash.
proof fn lemma_scan_past(head: Seq<char>, rest: Seq<char>, order: Seq<Macro>)
    requires
        all_well_formed(order),
        forall|j: int| 0 <= j < head.len() ==> #[trigger] head[j] != '\\',
    ensures
        scanned(head + rest, order) == head + scanned(rest, order),
    decreases head.len(),
{
    let text = head + rest;
    if head.len() == 0 {
        assert(text =~= rest);
        assert(head + scanned(rest, order) =~= scanned(rest, order));
    } else {
        assert(text[0] == head[0]);
        lemma_no_match_without_backslash(text, order);
        let shorter = head.skip(1);
        assert(text.skip(1) =~= shorter + rest);
        assert forall|j: int| 0 <= j < shorter.len() implies #[trigger] shorter[j] != '\\' by {
            assert(shorter[j] == head[j + 1]);
        }
        lemma_scan_past(shorter, rest, order);
        assert(seq![text[0]] + (shorter + scanned(rest, order)) =~= head + scanned(rest, order));
    }
}

/// Lower-case letters at the start of a scan's result stood at the start of the
/// text: a replacement does not start with one.
proof fn lemma_letters_through_scan(text: Seq<char>, order: Seq<Macro>, letters: Seq<char>)
    requires
        all_well_formed(order),
        forall|j: int| 0 <= j < letters.len() ==> is_lowercase(#[trigger] letters[j]),
        letters.is_prefix_of(scanned(text, order)),
    ensures
        letters.is_prefix_of(text),
    decreases letters.len(),
{
    let out = scanned(text, order);
    lemma_prefix_by_index(letters, out);
    lemma_prefix_by_index(letters, text);
    if letters.len() > 0 {
        assert(letters[0] == out[0]);
        lemma_first_match(text, order);
        let found = first_match(text, order);
        if found < order.len() {
            assert(well_formed(order[found]));
            lemma_prefix_by_index(order[found].token, text);
            assert(out[0] == order[found].replacement[0]);
            assert(false);
        } else {
            let tail = text.skip(1);
            let fewer = letters.skip(1);
            assert(out.skip(1) =~= scanned(tail, order));
            lemma_prefix_by_index(fewer, scanned(tail, order));
            assert forall|j: int| 0 <= j < fewer.len() implies #[trigger] fewer[j] == scanned(
                tail,
                order,
            )[j] by {
                assert(fewer[j] == letters[j + 1]);
                assert(out.skip(1)[j] == out[j + 1]);
            }
            assert forall|j: int| 0 <= j < fewer.len() implies is_lowercase(#[trigger] fewer[j]) by {
                assert(fewer[j] == letters[j + 1]);
            }
            lemma_letters_through_scan(tail, order, fewer);
            lemma_prefix_by_index(fewer, tail);
            assert forall|j: int| 0 <= j < letters.len() implies #[trigger] letters[j] == text[j] by {
                if j > 0 {
                    assert(fewer[j - 1] == letters[j]);
                    assert(tail[j - 1] == text[j]);
                }
            }
        }
    }
}

/// A token at the start of a scan's result stood at the start of the text, where
/// the scan found no token.
proof fn lemma_token_through_scan(text: Seq<char>, order: Seq<Macro>, token: Seq<char>)
    requires
        all_well_formed(order),
        is_token(token),
        text.len() > 0,
        first_match(text, order) == order.len(),
        token.is_prefix_of(seq![text[0]] + scanned(text.skip(1), order)),
    ensures
        token.is_prefix_of(text),
{
    let tail = text.skip(1);
    let out = seq![text[0]] + scanned(tail, order);
    let letters = token.skip(1);
    lemma_prefix_by_index(token, out);
    lemma_prefix_by_index(letters, scanned(tail, order));
    assert(token[0] == out[0]);
    assert forall|j: int| 0 <= j < letters.len() implies #[trigger] letters[j] == scanned(
        tail,
        order,
    )[j] by {
        assert(letters[j] == token[j + 1]);
        assert(out[j + 1] == scanned(tail, order)[j]);
    }
    assert forall|j: int| 0 <= j < letters.len() implies is_lowercase(#[trigger] letters[j]) by {
        assert(letters[j] == token[j + 1]);
    }
    lemma_letters_through_scan(tail, order, letters);
    lemma_prefix_by_index(letters, tail);
    lemma_prefix_by_index(token, text);
    assert forall|j: int| 0 <= j < token.len() implies #[trigger] token[j] == text[j] by {
        if j > 0 {
            assert(letters[j - 1] == token[j]);
            assert(tail[j - 1] == text[j]);
        }
    }
}

/// One more pass over the result of a scan gives the scan for one more macro.
proof fn lemma_pass_extends_scan(text: Seq<char>, active: Seq<Macro>, m: Macro)
    requires
        all_well_formed(active),
        well_formed(m),
    ensures
        replaced(scanned(text, active), m.token, m.replacement) == scanned(text, active.push(m)),
    decreases text.len(),
{
    let wider = active.push(m);
    if text.len() > 0 {
        let found = first_match(text, active);
        lemma_first_match(text, active);
        assert forall|j: int| 0 <= j < active.len() implies #[trigger] wider[j] == active[j] by {}
        if found < active.len() {
            let hit = active[found];
            assert(well_formed(hit));
            assert(wider[found] == hit);
            lemma_first_match_is(text, wider, found);
            lemma_prefix_by_index(hit.token, text);
            let rest = text.skip(hit.token.len() as int);
            lemma_pass_extends_scan(rest, active, m);
            lemma_replaced_past(hit.replacement, scanned(rest, active), m.token, m.replacement);
        } else if m.token.is_prefix_of(text) {
            assert(wider[active.len() as int] == m);
            lemma_first_match_is(text, wider, active.len() as int);
            lemma_prefix_by_index(m.token, text);
            let rest = text.skip(m.token.len() as int);
            let letters = m.token.skip(1);
            assert(text.skip(1) =~= letters + rest);
            assert forall|j: int| 0 <= j < letters.len() implies #[trigger] letters[j] != '\\' by {
                assert(letters[j] == m.token[j + 1]);
                assert(is_lowercase(m.token[j + 1]));
            }
            lemma_scan_past(letters, rest, active);
            let after = scanned(rest, active);
            assert(scanned(text, active) =~= m.token + after);
            lemma_prefix_by_index(m.token, m.token + after);
            assert((m.token + after).skip(m.token.len() as int) =~= after);
            lemma_pass_extends_scan(rest, active, m);
        } else {
            assert(wider[active.len() as int] == m);
            lemma_first_match_is(text, wider, wider.len() as int);
            let tail = text.skip(1);
            lemma_pass_extends_scan(tail, active, m);
            let out = scanned(text, active);
            if m.token.is_prefix_of(out) {
                lemma_token_through_scan(text, active, m.token);
            }
            assert(out.skip(1) =~= scanned(tail, active));
        }
    }
}

/// Applying the first `passes` macros of `order` one after the other gives what one
/// scan for them gives.
pub proof fn lemma_passes_are_one_scan(text: Seq<char>, order: Seq<Macro>, passes: nat)
    requires
        all_well_formed(order),
        passes <= order.len(),
    ensures
        expanded_by(text, order, passes) == scanned(text, order.take(passes as int)),
    decreases passes,
{
    if passes == 0 {
        lemma_scan_for_nothing(text);
        assert(order.take(0) =~= Seq::<Macro>::empty());
    } else {
        let before = (passes - 1) as nat;
        lemma_passes_are_one_scan(text, order, before);
        let active = order.take(before as int);
        assert forall|i: int| 0 <= i < active.len() implies well_formed(#[trigger] active[i]) by {
            assert(active[i] == order[i]);
        }
        assert(well_formed(order[before as int]));
        lemma_pass_extends_scan(text, active, order[before as int]);
        assert(active.push(order[before as int]) =~= order.take(passes as int));
    }
}

/// Behind no place of a scan's result stands a token that the scan looked for.
pub proof fn lemma_no_token_in_scan_at(text: Seq<char>, order: Seq<Macro>, j: int, at: int)
    requires
        all_well_formed(order),
        0 <= j < order.len(),
        0 <= at <= scanned(text, order).len(),
    ensures
        !order[j].token.is_prefix_of(scanned(text, order).skip(at)),
    decreases text.len(),
{
    let token = order[j].token;
    let out = scanned(text, order);
    assert(well_formed(order[j]));
    lemma_prefix_by_index(token, out.skip(at));
    if text.len() > 0 {
        lemma_first_match(text, order);
        let found = first_match(text, order);
        if found < order.len() {
            let hit = order[found];
            assert(well_formed(hit));
            lemma_prefix_by_index(hit.token, text);
            let rest = text.skip(hit.token.len() as int);
            if at < hit.replacement.len() {
                assert(out.skip(at)[0] == hit.replacement[at]);
            } else {
                assert(out.skip(at) =~= scanned(rest, order).skip(at - hit.replacement.len()));
                lemma_no_token_in_scan_at(rest, order, j, at - hit.replacement.len());
            }
        } else {
            let tail = text.skip(1);
            if at >= 1 {
                assert(out.skip(at) =~= scanned(tail, order).skip(at - 1));
                lemma_no_token_in_scan_at(tail, order, j, at - 1);
            } else {
                assert(out.skip(0) =~= out);
                if token.is_prefix_of(out) {
                    lemma_token_through_scan(text, order, token);
                    assert(false);
                }
            }
        }
    }
}

/// A scan of two texts in a row, the second of which starts with a backslash, is
/// the scan of the first followed by the scan of the second: no token reaches over
/// a backslash.
pub proof fn lemma_scan_splits(before: Seq<char>, after: Seq<char>, order: Seq<Macro>)
    requires
        all_well_formed(order),
        after.len() == 0 || after[0] == '\\',
    ensures
        scanned(before + after, order) == scanned(before, order) + scanned(after, order),
    decreases before.len(),
{
    let text = before + after;
    if before.len() == 0 {
        assert(text =~= after);
        assert(scanned(before, order) + scanned(after, order) =~= scanned(after, order));
    } else {
        assert forall|j: int| 0 <= j < order.len() implies (#[trigger] order[j]).token.is_prefix_of(
            text,
        ) == order[j].token.is_prefix_of(before) by {
            let token = order[j].token;
            assert(well_formed(order[j]));
            lemma_prefix_by_index(token, text);
            lemma_prefix_by_index(token, before);
            if token.is_prefix_of(text) && token.len() > before.len() {
                assert(is_lowercase(token[before.len() as int]));
                assert(text[before.len() as int] == after[0]);
                assert(false);
            }
            if token.is_prefix_of(before) {
                assert forall|k: int| 0 <= k < token.len() implies #[trigger] token[k]
                    == text[k] by {
                    assert(text[k] == before[k]);
                }
            }
            if token.is_prefix_of(text) {
                assert forall|k: int| 0 <= k < token.len() implies #[trigger] token[k]
                    == before[k] by {
                    assert(text[k] == before[k]);
                }
            }
        }
        lemma_first_match(before, order);
        let found = first_match(before, order);
        lemma_first_match_is(text, order, found);
        if found < order.len() {
            let hit = order[found];
            assert(well_formed(hit));
            lemma_prefix_by_index(hit.token, before);
            let skipped = hit.token.len() as int;
            assert(text.skip(skipped) =~= before.skip(skipped) + after);
            lemma_scan_splits(before.skip(skipped), after, order);
            assert(hit.replacement + (scanned(before.skip(skipped), order) + scanned(after, order))
                =~= (hit.replacement + scanned(before.skip(skipped), order)) + scanned(
                after,
                order,
            ));
        } else {
            assert(text.skip(1) =~= before.skip(1) + after);
            lemma_scan_splits(before.skip(1), after, order);
            assert(seq![text[0]] + (scanned(before.skip(1), order) + scanned(after, order)) =~= (
            seq![before[0]] + scanned(before.skip(1), order)) + scanned(after, order));
        }
    }
}

} // verus!
