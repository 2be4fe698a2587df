//! Groups of adjacent edges that become one `match`.

use crate::ir::{PatternInst, Value};
use crate::order::positions;
use crate::output::{compared_variant, compares_to, edge_at, group_end, is_order_of, joins_group};
use crate::sema::VariantId;
use crate::trie::{TrieEdge, TrieSymbol};
use std::collections::BTreeSet;
use vstd::prelude::*;

verus! {

broadcast use vstd::laws_cmp::group_laws_cmp;

/// Returns the end of the group of adjacent edges that starts at place `i` of the order: edges
/// that compare one value to different variants.
pub fn adjacent_variants(edges: &Vec<TrieEdge>, order: &Vec<usize>, i: usize) -> (last:
    usize)
    requires
        i < order@.len(),
        is_order_of(positions(order@), edges@),
    ensures
        last == group_end(edges@, positions(order@), i as int, i as int),
        i <= last <= order@.len(),
{
    let ghost o = positions(order@);
    let mut last: usize = i;
    let mut adjacent_variants: BTreeSet<usize> = BTreeSet::new();
    let mut adjacent_variant_input: Option<Value> = None;
    while last < order.len()
        invariant_except_break
            o == positions(order@),
            is_order_of(o, edges@),
            i <= last <= order@.len(),
            i < order@.len(),
            group_end(edges@, o, i as int, i as int) == group_end(
                edges@,
                o,
                i as int,
                last as int,
            ),
            adjacent_variant_input is None <==> last == i,
            last > i ==> (compared_variant(edge_at(edges@, o, i as int).symbol) matches Some(
                (first, _),
            ) && adjacent_variant_input == Some(first)),
            forall|v: usize| #[trigger]
                adjacent_variants@.contains(v) ==> exists|k: int|
                    i <= k < last && compares_to(
                        #[trigger] edge_at(edges@, o, k),
                        VariantId(v),
                    ),
            forall|k: int, v: usize|
                i <= k < last && compares_to(#[trigger] edge_at(edges@, o, k), VariantId(v))
                    ==> #[trigger] adjacent_variants@.contains(v),
        ensures
            i <= last <= order@.len(),
            last == group_end(edges@, o, i as int, i as int),
        decreases order@.len() - last,
    {
        assert(o[last as int] == order@[last as int]);
        let ghost edge = edge_at(edges@, o, last as int);
        match &edges[order[last]].symbol {
            TrieSymbol::Match { op: PatternInst::MatchVariant { input, variant, .. } } => {
                let same_input = match adjacent_variant_input {
                    Some(first) => first == *input,
                    None => true,
                };
                if same_input && !adjacent_variants.contains(&variant.index()) {
                    proof {
                        assert(joins_group(edges@, o, i as int, last as int)) by {
                            assert forall|k: int| i <= k < last implies !compares_to(
                                #[trigger] edge_at(edges@, o, k),
                                *variant,
                            ) by {
                                if compares_to(edge_at(edges@, o, k), VariantId(variant.0)) {
                                    assert(adjacent_variants@.contains(variant.0));
                                }
                            }
                        }
                    }
                    adjacent_variant_input = Some(*input);
                    adjacent_variants.insert(variant.index());
                    assert(compares_to(edge, VariantId(variant.0)));
                    last += 1;
                } else {
                    break;
                }
            },
            _ => {
                break;
            },
        }
    }
    last
}

} // verus!
