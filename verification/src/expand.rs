//! The expander: every journal macro in a text gives way to the journal's name.

use crate::order::{sort_by_length, sorted_by_length};
use crate::replace::{replace_all, replaced};
use crate::table::{macro_table, macros_of, mappings, Macro};
use crate::text::{chars_of, string_of};
use vstd::prelude::*;

verus! {

/// The macros in the order in which they are applied: longest token first, and among
/// tokens of one length the one first that stands later in the table.
pub open spec fn expansion_order() -> Seq<Macro> {
    sorted_by_length(macro_table()).reverse()
}

/// `text` after the first `passes` macros of `order` have been applied to it, one
/// after the other: each pass replaces every occurrence of its token in what the
/// pass before it left.
pub open spec fn expanded_by(text: Seq<char>, order: Seq<Macro>, passes: nat) -> Seq<char>
    decreases passes,
{
    if passes == 0 {
        text
    } else {
        let last = order[passes - 1];
        replaced(expanded_by(text, order, (passes - 1) as nat), last.token, last.replacement)
    }
}

/// `text` with the journal macros expanded: every macro of the table is applied, in
/// the order of `expansion_order`.
pub open spec fn expand(text: Seq<char>) -> Seq<char> {
    expanded_by(text, expansion_order(), expansion_order().len())
}

/// Expands the journal macros in the text of a bibliography.
pub fn update_bibliography_file(input: &str) -> (output: String)
    ensures
        output@ == expand(input@),
{
    let sorted = sort_by_length(mappings());
    let ghost order = expansion_order();
    let total = sorted.len();
    assert(order.len() == total && forall|j: int|
        0 <= j < total ==> (#[trigger] sorted@[j])@ == order[total - 1 - j]);
    let mut buf = chars_of(input);
    let mut left = total;
    while left > 0
        invariant
            total == sorted.len() == order.len(),
            left <= total,
            forall|j: int| 0 <= j < total ==> (#[trigger] sorted@[j])@ == order[total - 1 - j],
            buf@ == expanded_by(input@, order, (total - left) as nat),
        decreases left,
    {
        left -= 1;
        assert(sorted@[left as int]@ == order[total - left - 1]);
        buf = replace_all(&buf, &sorted[left].token, &sorted[left].replacement);
    }
    string_of(&buf)
}

} // verus!
