//! What holds of the expansion of every text.

use crate::expand::{expand, expanded_by, expansion_order};
use crate::order::{
    ascending, descending, lemma_sorted_ascending, lemma_sorted_holds, sorted_by_length,
};
use crate::replace::{lemma_replaced_without_pattern, occurs_in};
use crate::scan::{
    first_match, lemma_first_match, lemma_first_match_is_longest, lemma_no_token_in_scan_at,
    lemma_passes_are_one_scan, lemma_prefix_by_index, lemma_scan_splits, scanned,
};
use crate::shape::{
    all_well_formed, lemma_macro_table_well_formed, lemma_tokens_differ, well_formed,
};
use crate::table::{macro_of, macro_table, Macro};
use vstd::prelude::*;

verus! {

/// A sequence read backwards holds what it held.
proof fn lemma_reverse_holds(order: Seq<Macro>)
    ensures
        order.reverse().to_multiset() == order.to_multiset(),
    decreases order.len(),
{
    broadcast use vstd::seq_lib::group_to_multiset_ensures;

    if order.len() > 0 {
        let front = order.drop_last();
        lemma_reverse_holds(front);
        assert(order =~= front.push(order.last()));
        assert(order.reverse() =~= front.reverse().insert(0, order.last()));
    }
}

/// The passes apply every macro of the table, each as often as the table holds it,
/// and no other.
pub proof fn lemma_expansion_order_holds_table()
    ensures
        expansion_order().len() == macro_table().len(),
        expansion_order().to_multiset() == macro_table().to_multiset(),
        forall|m: Macro| expansion_order().contains(m) <==> macro_table().contains(m),
{
    broadcast use vstd::seq_lib::group_to_multiset_ensures;

    lemma_sorted_holds(macro_table());
    lemma_reverse_holds(sorted_by_length(macro_table()));
    assert forall|m: Macro| expansion_order().contains(m) <==> macro_table().contains(m) by {
        assert(expansion_order().to_multiset().count(m) == macro_table().to_multiset().count(m));
    }
}

/// The passes go from the longest token to the shortest.
pub proof fn lemma_expansion_order_descending()
    ensures
        descending(expansion_order()),
{
    let sorted = sorted_by_length(macro_table());
    lemma_sorted_ascending(macro_table());
    assert(ascending(sorted));
    let order = expansion_order();
    assert forall|i: int, j: int| 0 <= i <= j < order.len() implies (#[trigger] order[i]).token.len()
        >= (#[trigger] order[j]).token.len() by {
        assert(order[i] == sorted[sorted.len() - 1 - i]);
        assert(order[j] == sorted[sorted.len() - 1 - j]);
    }
}

/// Every macro that a pass applies is well formed.
pub proof fn lemma_expansion_order_well_formed()
    ensures
        all_well_formed(expansion_order()),
{
    lemma_macro_table_well_formed();
    lemma_expansion_order_holds_table();
    let order = expansion_order();
    assert forall|i: int| 0 <= i < order.len() implies well_formed(#[trigger] order[i]) by {
        assert(order.contains(order[i]));
        assert(macro_table().contains(order[i]));
    }
}

/// The expansion is one scan of the text from left to right, in which the first
/// token of the passes' order that stands at a place is replaced.  By
/// `lemma_expansion_order_descending` and `lemma_first_match_is_longest` that token
/// is the longest of the table that stands there: a token is never taken for a
/// shorter one that it starts with.
pub proof fn lemma_expand_is_one_scan(text: Seq<char>)
    ensures
        expand(text) == scanned(text, expansion_order()),
{
    let order = expansion_order();
    lemma_expansion_order_well_formed();
    lemma_passes_are_one_scan(text, order, order.len());
    assert(order.take(order.len() as int) =~= order);
}

/// Passes whose tokens do not occur in a text leave it as it is.
proof fn lemma_passes_without_tokens(text: Seq<char>, order: Seq<Macro>, passes: nat)
    requires
        passes <= order.len(),
        forall|j: int| 0 <= j < passes ==> !occurs_in((#[trigger] order[j]).token, text),
    ensures
        expanded_by(text, order, passes) == text,
    decreases passes,
{
    if passes > 0 {
        lemma_passes_without_tokens(text, order, (passes - 1) as nat);
        let last = order[passes - 1];
        lemma_replaced_without_pattern(text, last.token, last.replacement);
    }
}

/// A text in which no token of the table occurs is its own expansion.
pub proof fn lemma_expand_keeps_text_without_tokens(text: Seq<char>)
    requires
        forall|i: int|
            0 <= i < macro_table().len() ==> !occurs_in((#[trigger] macro_table()[i]).token, text),
    ensures
        expand(text) == text,
{
    let order = expansion_order();
    lemma_expansion_order_holds_table();
    assert forall|j: int| 0 <= j < order.len() implies !occurs_in(
        (#[trigger] order[j]).token,
        text,
    ) by {
        assert(order.contains(order[j]));
        assert(macro_table().contains(order[j]));
        let i = choose|i: int| 0 <= i < macro_table().len() && macro_table()[i] == order[j];
        assert(!occurs_in(macro_table()[i].token, text));
    }
    lemma_passes_without_tokens(text, order, order.len());
}

/// No token occurs in a replacement of the table.
pub proof fn lemma_no_token_in_replacements()
    ensures
        forall|i: int, j: int|
            0 <= i < macro_table().len() && 0 <= j < macro_table().len() ==> !occurs_in(
                (#[trigger] macro_table()[j]).token,
                (#[trigger] macro_table()[i]).replacement,
            ),
{
    lemma_macro_table_well_formed();
    let table = macro_table();
    assert forall|i: int, j: int| 0 <= i < table.len() && 0 <= j < table.len() implies !occurs_in(
        (#[trigger] table[j]).token,
        (#[trigger] table[i]).replacement,
    ) by {
        let token = table[j].token;
        let replacement = table[i].replacement;
        assert(well_formed(table[i]) && well_formed(table[j]));
        assert forall|at: int| 0 <= at <= replacement.len() implies !#[trigger] token.is_prefix_of(
            replacement.skip(at),
        ) by {
            lemma_prefix_by_index(token, replacement.skip(at));
            if at < replacement.len() {
                assert(replacement.skip(at)[0] == replacement[at]);
            }
        }
    }
}

/// No token of the table occurs in an expansion.
pub proof fn lemma_expand_leaves_no_token(text: Seq<char>)
    ensures
        forall|i: int|
            0 <= i < macro_table().len() ==> !occurs_in(
                (#[trigger] macro_table()[i]).token,
                expand(text),
            ),
{
    let order = expansion_order();
    let table = macro_table();
    lemma_expansion_order_well_formed();
    lemma_expansion_order_holds_table();
    lemma_expand_is_one_scan(text);
    let out = scanned(text, order);
    assert forall|i: int| 0 <= i < table.len() implies !occurs_in(
        (#[trigger] table[i]).token,
        expand(text),
    ) by {
        assert(table.contains(table[i]));
        assert(order.contains(table[i]));
        let j = choose|j: int| 0 <= j < order.len() && order[j] == table[i];
        assert forall|at: int| 0 <= at <= out.len() implies !#[trigger] order[j].token.is_prefix_of(
            out.skip(at),
        ) by {
            lemma_no_token_in_scan_at(text, order, j, at);
        }
    }
}

/// Expanding an expansion changes nothing.
pub proof fn lemma_expand_twice(text: Seq<char>)
    ensures
        expand(expand(text)) == expand(text),
{
    lemma_expand_leaves_no_token(text);
    lemma_expand_keeps_text_without_tokens(expand(text));
}

/// Where the token of a macro `m` stands in a text and no longer token of the table
/// stands at the same place, the expansion holds the replacement of `m` there,
/// between the expansions of what stands before the token and of what stands behind
/// it.
pub proof fn lemma_longest_token_wins(before: Seq<char>, m: Macro, after: Seq<char>)
    requires
        macro_table().contains(m),
        forall|i: int|
            0 <= i < macro_table().len() && (#[trigger] macro_table()[i]).token.is_prefix_of(
                m.token + after,
            ) ==> macro_table()[i].token.len() <= m.token.len(),
    ensures
        expand(before + m.token + after) == expand(before) + m.replacement + expand(after),
{
    let order = expansion_order();
    let table = macro_table();
    let here = m.token + after;
    lemma_macro_table_well_formed();
    lemma_expansion_order_holds_table();
    lemma_expansion_order_well_formed();
    lemma_expansion_order_descending();
    lemma_expand_is_one_scan(before + m.token + after);
    lemma_expand_is_one_scan(before);
    lemma_expand_is_one_scan(after);
    let at = choose|at: int| 0 <= at < table.len() && table[at] == m;
    assert(well_formed(table[at]));
    lemma_prefix_by_index(m.token, here);
    assert(m.token.is_prefix_of(here));
    assert(order.contains(m));
    let k = choose|k: int| 0 <= k < order.len() && order[k] == m;
    lemma_first_match(here, order);
    lemma_first_match_is_longest(here, order);
    let found = first_match(here, order);
    assert(order[k].token.is_prefix_of(here));
    assert(found <= k);
    assert(order.contains(order[found]));
    assert(table.contains(order[found]));
    let i = choose|i: int| 0 <= i < table.len() && table[i] == order[found];
    assert(table[i].token.is_prefix_of(here));
    assert(table[i].token == m.token) by {
        lemma_prefix_by_index(table[i].token, here);
        assert(table[i].token =~= m.token);
    }
    lemma_tokens_differ(i, at);
    assert(here.skip(m.token.len() as int) =~= after);
    assert(scanned(here, order) == m.replacement + scanned(after, order));
    assert(before + m.token + after =~= before + here);
    lemma_scan_splits(before, here, order);
    assert(scanned(before, order) + (m.replacement + scanned(after, order)) =~= scanned(
        before,
        order,
    ) + m.replacement + scanned(after, order));
}

/// The token of a macro of the table, alone, expands to the macro's replacement and
/// nothing else.
pub proof fn lemma_token_expands_to_replacement(i: int)
    requires
        0 <= i < macro_table().len(),
    ensures
        expand(macro_table()[i].token) == macro_table()[i].replacement,
{
    let m = macro_table()[i];
    let nothing = Seq::<char>::empty();
    assert(m.token + nothing =~= m.token);
    assert(nothing + m.token + nothing =~= m.token);
    lemma_expand_is_one_scan(nothing);
    assert(nothing + m.replacement + nothing =~= m.replacement);
    lemma_longest_token_wins(nothing, m, nothing);
}

/// The only macro of the table whose token starts with `\apjl` is `\apjl` itself.
proof fn lemma_only_apjl(i: int)
    requires
        0 <= i < macro_table().len(),
        macro_table()[i].token.len() >= 5,
        macro_table()[i].token[1] == 'a',
        macro_table()[i].token[2] == 'p',
        macro_table()[i].token[3] == 'j',
        macro_table()[i].token[4] == 'l',
    ensures
        macro_table()[i] == macro_of(r"\apjl", "Astrophysical Journal, Letters"),
{
    reveal_strlit(r"\aas");
    reveal_strlit(r"\aj");
    reveal_strlit(r"\actaa");
    reveal_strlit(r"\araa");
    reveal_strlit(r"\apj");
    reveal_strlit(r"\apjl");
    reveal_strlit(r"\apjs");
    reveal_strlit(r"\ao");
    reveal_strlit(r"\apss");
    reveal_strlit(r"\aap");
    reveal_strlit(r"\aapr");
    reveal_strlit(r"\aaps");
    reveal_strlit(r"\aplett");
    reveal_strlit(r"\apspr");
    reveal_strlit(r"\azh");
    reveal_strlit(r"\baas");
    reveal_strlit(r"\bain");
    reveal_strlit(r"\caa");
    reveal_strlit(r"\cjaa");
    reveal_strlit(r"\dps");
    reveal_strlit(r"\fcp");
    reveal_strlit(r"\gca");
    reveal_strlit(r"\grl");
    reveal_strlit(r"\iaucirc");
    reveal_strlit(r"\icarus");
    reveal_strlit(r"\jaavso");
    reveal_strlit(r"\jcap");
    reveal_strlit(r"\jcp");
    reveal_strlit(r"\jgr");
    reveal_strlit(r"\jqsrt");
    reveal_strlit(r"\jrasc");
    reveal_strlit(r"\maps");
    reveal_strlit(r"\memras");
    reveal_strlit(r"\memsai");
    reveal_strlit(r"\mnras");
    reveal_strlit(r"\na");
    reveal_strlit(r"\nar");
    reveal_strlit(r"\nat");
    reveal_strlit(r"\nphysa");
    reveal_strlit(r"\pasa");
    reveal_strlit(r"\pasp");
    reveal_strlit(r"\pasj");
    reveal_strlit(r"\physrep");
    reveal_strlit(r"\physscr");
    reveal_strlit(r"\planss");
    reveal_strlit(r"\pra");
    reveal_strlit(r"\prb");
    reveal_strlit(r"\prc");
    reveal_strlit(r"\prd");
    reveal_strlit(r"\pre");
    reveal_strlit(r"\prl");
    reveal_strlit(r"\procspie");
    reveal_strlit(r"\psj");
    reveal_strlit(r"\qjras");
    reveal_strlit(r"\rmxaa");
    reveal_strlit(r"\skytel");
    reveal_strlit(r"\solphys");
    reveal_strlit(r"\sovast");
    reveal_strlit(r"\ssr");
    reveal_strlit(r"\zap");
}

/// Wherever `\apjl` stands in a text, the expansion holds the name of the Letters
/// there, and never the name that `\apj` stands for with an `l` behind it.
pub proof fn lemma_apjl_is_not_apj(before: Seq<char>, after: Seq<char>)
    ensures
        expand(before + r"\apjl"@ + after) == expand(before)
            + "Astrophysical Journal, Letters"@ + expand(after),
{
    let m = macro_of(r"\apjl", "Astrophysical Journal, Letters");
    let table = macro_table();
    assert(table[5] == m);
    assert(table.contains(m));
    reveal_strlit(r"\apjl");
    assert forall|i: int|
        0 <= i < table.len() && (#[trigger] table[i]).token.is_prefix_of(
            m.token + after,
        ) implies table[i].token.len() <= m.token.len() by {
        let token = table[i].token;
        if token.len() > m.token.len() {
            lemma_prefix_by_index(token, m.token + after);
            assert(token[1] == (m.token + after)[1]);
            assert(token[2] == (m.token + after)[2]);
            assert(token[3] == (m.token + after)[3]);
            assert(token[4] == (m.token + after)[4]);
            lemma_only_apjl(i);
        }
    }
    lemma_longest_token_wins(before, m, after);
}

} // verus!
