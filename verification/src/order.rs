//! The order in which the macros are applied: by the length of their tokens.

use crate::table::{macros_of, Macro, Mapping};
use vstd::prelude::*;

verus! {

/// `sorted` with `m` put in before the first macro whose token is at least as long
/// as that of `m`, or at the end if there is none.
pub open spec fn inserted(sorted: Seq<Macro>, m: Macro) -> Seq<Macro>
    decreases sorted.len(),
{
    if sorted.len() == 0 {
        seq![m]
    } else if m.token.len() <= sorted[0].token.len() {
        seq![m] + sorted
    } else {
        seq![sorted[0]] + inserted(sorted.skip(1), m)
    }
}

/// The macros of `table` by ascending length of their tokens.  Macros whose tokens
/// are equally long stay in the order that they have in `table`.
pub open spec fn sorted_by_length(table: Seq<Macro>) -> Seq<Macro>
    decreases table.len(),
{
    if table.len() == 0 {
        table
    } else {
        inserted(sorted_by_length(table.skip(1)), table[0])
    }
}

/// The tokens of `order` do not get shorter along it.
pub open spec fn ascending(order: Seq<Macro>) -> bool {
    forall|i: int, j: int|
        0 <= i <= j < order.len() ==> (#[trigger] order[i]).token.len() <= (
        #[trigger] order[j]).token.len()
}

/// The tokens of `order` do not get longer along it.
pub open spec fn descending(order: Seq<Macro>) -> bool {
    forall|i: int, j: int|
        0 <= i <= j < order.len() ==> (#[trigger] order[i]).token.len() >= (
        #[trigger] order[j]).token.len()
}

/// The macros of `order` whose tokens have the length `length`, in the order that
/// they have in `order`.
pub open spec fn of_length(order: Seq<Macro>, length: nat) -> Seq<Macro>
    decreases order.len(),
{
    if order.len() == 0 {
        order
    } else if order[0].token.len() == length {
        seq![order[0]] + of_length(order.skip(1), length)
    } else {
        of_length(order.skip(1), length)
    }
}

/// Where `inserted` puts `m`: after `at` macros with shorter tokens.
proof fn lemma_inserted_at(sorted: Seq<Macro>, m: Macro, at: int)
    requires
        0 <= at <= sorted.len(),
        forall|j: int| 0 <= j < at ==> (#[trigger] sorted[j]).token.len() < m.token.len(),
        at < sorted.len() ==> m.token.len() <= sorted[at].token.len(),
    ensures
        inserted(sorted, m) == sorted.insert(at, m),
    decreases sorted.len(),
{
    if sorted.len() == 0 {
        assert(sorted.insert(at, m) =~= seq![m]);
    } else if at == 0 {
        assert(sorted.insert(at, m) =~= seq![m] + sorted);
    } else {
        let rest = sorted.skip(1);
        assert(sorted[0].token.len() < m.token.len());
        assert forall|j: int| 0 <= j < at - 1 implies (#[trigger] rest[j]).token.len()
            < m.token.len() by {
            assert(rest[j] == sorted[j + 1]);
        }
        lemma_inserted_at(rest, m, at - 1);
        assert(sorted.insert(at, m) =~= seq![sorted[0]] + rest.insert(at - 1, m));
    }
}

/// `inserted` adds one macro and keeps the others.
pub proof fn lemma_inserted_holds(sorted: Seq<Macro>, m: Macro)
    ensures
        inserted(sorted, m).len() == sorted.len() + 1,
        inserted(sorted, m).to_multiset() == sorted.to_multiset().insert(m),
    decreases sorted.len(),
{
    broadcast use vstd::seq_lib::group_to_multiset_ensures;

    if sorted.len() == 0 {
        assert(seq![m] =~= Seq::<Macro>::empty().push(m));
    } else if m.token.len() <= sorted[0].token.len() {
        assert(seq![m] + sorted =~= sorted.insert(0, m));
    } else {
        let rest = sorted.skip(1);
        lemma_inserted_holds(rest, m);
        assert(seq![sorted[0]] + inserted(rest, m) =~= inserted(rest, m).insert(0, sorted[0]));
        assert(sorted =~= rest.insert(0, sorted[0]));
        assert(inserted(sorted, m).to_multiset() =~= sorted.to_multiset().insert(m));
    }
}

/// `inserted` keeps an ascending order ascending.
proof fn lemma_inserted_ascending(sorted: Seq<Macro>, m: Macro)
    requires
        ascending(sorted),
    ensures
        ascending(inserted(sorted, m)),
    decreases sorted.len(),
{
    let out = inserted(sorted, m);
    if sorted.len() == 0 {
    } else if m.token.len() <= sorted[0].token.len() {
        assert forall|i: int, j: int| 0 <= i <= j < out.len() implies (#[trigger] out[i]).token.len()
            <= (#[trigger] out[j]).token.len() by {
            if i > 0 {
                assert(out[i] == sorted[i - 1] && out[j] == sorted[j - 1]);
            } else if j > 0 {
                assert(out[j] == sorted[j - 1]);
                assert(sorted[0].token.len() <= sorted[j - 1].token.len());
            }
        }
    } else {
        let rest = sorted.skip(1);
        assert forall|i: int, j: int| 0 <= i <= j < rest.len() implies (#[trigger] rest[i]).token.len()
            <= (#[trigger] rest[j]).token.len() by {
            assert(rest[i] == sorted[i + 1] && rest[j] == sorted[j + 1]);
        }
        lemma_inserted_ascending(rest, m);
        lemma_inserted_holds(rest, m);
        let tail = inserted(rest, m);
        assert forall|k: int| 0 <= k < tail.len() implies sorted[0].token.len() <= (
        #[trigger] tail[k]).token.len() by {
            broadcast use vstd::seq_lib::group_to_multiset_ensures;

            assert(tail.to_multiset().count(tail[k]) > 0);
            if tail[k] != m {
                assert(rest.to_multiset().count(tail[k]) > 0);
                let at = choose|at: int| 0 <= at < rest.len() && rest[at] == tail[k];
                assert(rest[at] == sorted[at + 1]);
            }
        }
        assert forall|i: int, j: int| 0 <= i <= j < out.len() implies (#[trigger] out[i]).token.len()
            <= (#[trigger] out[j]).token.len() by {
            if i > 0 {
                assert(out[i] == tail[i - 1] && out[j] == tail[j - 1]);
            } else if j > 0 {
                assert(out[j] == tail[j - 1]);
            }
        }
    }
}

/// `inserted` puts `m` in front of the macros whose tokens are as long as its own,
/// and leaves the macros of any other length as they were.
proof fn lemma_inserted_of_length(sorted: Seq<Macro>, m: Macro, length: nat)
    ensures
        of_length(inserted(sorted, m), length) == if m.token.len() == length {
            seq![m] + of_length(sorted, length)
        } else {
            of_length(sorted, length)
        },
    decreases sorted.len(),
{
    if sorted.len() == 0 {
        assert(seq![m].skip(1) =~= sorted);
    } else if m.token.len() <= sorted[0].token.len() {
        assert((seq![m] + sorted).skip(1) =~= sorted);
    } else {
        let rest = sorted.skip(1);
        lemma_inserted_of_length(rest, m, length);
        assert((seq![sorted[0]] + inserted(rest, m)).skip(1) =~= inserted(rest, m));
        if sorted[0].token.len() == length && m.token.len() != length {
            assert(of_length(inserted(sorted, m), length) == seq![sorted[0]] + of_length(
                rest,
                length,
            ));
        }
    }
}

/// Sorting is stable: the macros of one length come out in the order in which they
/// went in.
pub proof fn lemma_sorted_stable(table: Seq<Macro>, length: nat)
    ensures
        of_length(sorted_by_length(table), length) == of_length(table, length),
    decreases table.len(),
{
    if table.len() > 0 {
        lemma_sorted_stable(table.skip(1), length);
        lemma_inserted_of_length(sorted_by_length(table.skip(1)), table[0], length);
    }
}

/// Sorting keeps every macro, as often as it stood in the table.
pub proof fn lemma_sorted_holds(table: Seq<Macro>)
    ensures
        sorted_by_length(table).len() == table.len(),
        sorted_by_length(table).to_multiset() == table.to_multiset(),
    decreases table.len(),
{
    broadcast use vstd::seq_lib::group_to_multiset_ensures;

    if table.len() > 0 {
        let rest = table.skip(1);
        lemma_sorted_holds(rest);
        lemma_inserted_holds(sorted_by_length(rest), table[0]);
        assert(table =~= rest.insert(0, table[0]));
    }
}

/// Sorting puts the tokens in ascending order of length.
pub proof fn lemma_sorted_ascending(table: Seq<Macro>)
    ensures
        ascending(sorted_by_length(table)),
    decreases table.len(),
{
    if table.len() > 0 {
        lemma_sorted_ascending(table.skip(1));
        lemma_inserted_ascending(sorted_by_length(table.skip(1)), table[0]);
    }
}

/// Sorts `table` by ascending length of the tokens, keeping the table's order among
/// tokens of one length.
pub fn sort_by_length(table: Vec<Mapping>) -> (sorted: Vec<Mapping>)
    ensures
        macros_of(sorted@) == sorted_by_length(macros_of(table@)),
{
    let ghost all = macros_of(table@);
    let mut table = table;
    let mut sorted: Vec<Mapping> = Vec::new();
    proof {
        assert(all.skip(all.len() as int) =~= Seq::<Macro>::empty());
        assert(macros_of(sorted@) =~= Seq::<Macro>::empty());
    }
    while table.len() > 0
        invariant
            table.len() <= all.len(),
            macros_of(table@) == all.take(table.len() as int),
            macros_of(sorted@) == sorted_by_length(all.skip(table.len() as int)),
        decreases table.len(),
    {
        let ghost before = macros_of(sorted@);
        let ghost n = table.len() as int;
        let mapping = table.pop().unwrap();
        let mut at: usize = 0;
        while at < sorted.len() && sorted[at].token.len() < mapping.token.len()
            invariant
                at <= sorted.len(),
                forall|j: int| 0 <= j < at ==> (#[trigger] sorted@[j])@.token.len() < mapping@.token.len(),
            decreases sorted.len() - at,
        {
            at += 1;
        }
        proof {
            assert forall|j: int| 0 <= j < at implies (#[trigger] before[j]).token.len()
                < mapping@.token.len() by {
                assert(before[j] == sorted@[j]@);
            }
            if at < sorted.len() {
                assert(before[at as int] == sorted@[at as int]@);
            }
            lemma_inserted_at(before, mapping@, at as int);
            assert(mapping@ == all.take(n)[n - 1]);
            assert(all.skip(n - 1).skip(1) =~= all.skip(n));
            assert(all.skip(n - 1)[0] == mapping@);
        }
        sorted.insert(at, mapping);
        proof {
            assert(macros_of(sorted@) =~= before.insert(at as int, mapping@));
            assert(macros_of(table@) =~= all.take(n - 1));
        }
    }
    proof {
        assert(all.skip(0) =~= all);
    }
    sorted
}

} // verus!
