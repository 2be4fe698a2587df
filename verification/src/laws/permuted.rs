//! The code for a node does not depend on the order in which its edges are given.

use crate::ir::{InstId, PatternInst};
use crate::laws::edges::{law_edge_order, law_edge_order_unique, tried_before};
use crate::laws::symbols::symbol_rank;
use crate::output::{
    always_taken, bind_fields, body_run, can_order, cases_run, compared_input, compared_variant,
    compares_to, edge_at, edge_run, edges_run, group_end, group_run, is_order_of, joins_group,
    min_len, variants_of, Bindings,
};
use crate::sema::{TermEnv, TypeEnv, TypeId};
use crate::trie::{edge_order, TrieEdge, TrieNode, TrieSymbol};
use vstd::prelude::*;

verus! {

/// Whether `b` lists the edges of `a`, where `places` says where each of them stands in `a`.
pub open spec fn is_rearranged(a: Seq<TrieEdge>, b: Seq<TrieEdge>, places: Seq<int>) -> bool {
    &&& b.len() == a.len()
    &&& places.len() == a.len()
    &&& is_order_of(places, a)
    &&& places.no_duplicates()
    &&& forall|k: int| 0 <= k < a.len() ==> places.contains(k)
    &&& forall|i: int| 0 <= i < b.len() ==> b[i] == a[#[trigger] places[i]]
}

/// Whether two edges differ in their priority or in their symbol.
pub open spec fn is_distinct(a: TrieEdge, b: TrieEdge) -> bool {
    a.range.min != b.range.min || symbol_rank(a.symbol) != symbol_rank(b.symbol)
}

/// Whether any two of the edges differ in their priority or in their symbol.
pub open spec fn all_distinct(edges: Seq<TrieEdge>) -> bool {
    forall|i: int, j: int|
        0 <= i < j < edges.len() ==> is_distinct(#[trigger] edges[i], #[trigger] edges[j])
}

/// Whether two lists have the same edges at the same places of two orders.
pub open spec fn same_edges(
    a: Seq<TrieEdge>,
    order_a: Seq<int>,
    b: Seq<TrieEdge>,
    order_b: Seq<int>,
) -> bool {
    &&& is_order_of(order_a, a)
    &&& is_order_of(order_b, b)
    &&& order_a.len() == order_b.len()
    &&& forall|i: int|
        0 <= i < order_a.len() ==> #[trigger] edge_at(a, order_a, i) == edge_at(b, order_b, i)
}

proof fn lemma_same_order(a: Seq<TrieEdge>, b: Seq<TrieEdge>, places: Seq<int>)
    requires
        is_rearranged(a, b, places),
        all_distinct(a),
    ensures
        same_edges(a, edge_order(a), b, edge_order(b)),
{
    let order = edge_order(b);
    law_edge_order(b);
    let moved = Seq::new(order.len(), |i: int| places[order[i]]);
    assert forall|k: int| 0 <= k < a.len() implies moved.contains(k) by {
        assert(places.contains(k));
        let m = choose|m: int| 0 <= m < places.len() && places[m] == k;
        assert(order.contains(m));
        let i = choose|i: int| 0 <= i < order.len() && order[i] == m;
        assert(moved[i] == k);
    }
    assert forall|i: int, j: int| 0 <= i < j < moved.len() implies tried_before(
        a,
        #[trigger] moved[i],
        #[trigger] moved[j],
    ) by {
        assert(tried_before(b, order[i], order[j]));
        let x = moved[i];
        let y = moved[j];
        assert(b[order[i]] == a[x]);
        assert(b[order[j]] == a[y]);
        if !is_distinct(a[x], a[y]) {
            assert(x == y);
        }
    }
    law_edge_order_unique(a, moved);
    law_edge_order(a);
    assert forall|i: int| 0 <= i < order.len() implies #[trigger] edge_at(a, edge_order(a), i)
        == edge_at(b, order, i) by {
        assert(moved[i] == places[order[i]]);
    }
}

proof fn lemma_same_group(
    a: Seq<TrieEdge>,
    order_a: Seq<int>,
    b: Seq<TrieEdge>,
    order_b: Seq<int>,
    i: int,
    j: int,
)
    requires
        same_edges(a, order_a, b, order_b),
        0 <= i <= j,
    ensures
        group_end(a, order_a, i, j) == group_end(b, order_b, i, j),
        j <= order_a.len() ==> group_end(a, order_a, i, j) <= order_a.len(),
    decreases order_a.len() - j,
{
    if j < order_a.len() {
        assert(edge_at(a, order_a, i) == edge_at(b, order_b, i));
        assert(edge_at(a, order_a, j) == edge_at(b, order_b, j));
        assert(joins_group(a, order_a, i, j) == joins_group(b, order_b, i, j)) by {
            if let Some((_, variant)) = compared_variant(edge_at(a, order_a, j).symbol) {
                if joins_group(b, order_b, i, j) {
                    assert forall|k: int| i <= k < j implies !compares_to(
                        #[trigger] edge_at(a, order_a, k),
                        variant,
                    ) by {
                        assert(!compares_to(edge_at(b, order_b, k), variant));
                    }
                }
                if joins_group(a, order_a, i, j) {
                    assert forall|k: int| i <= k < j implies !compares_to(
                        #[trigger] edge_at(b, order_b, k),
                        variant,
                    ) by {
                        assert(!compares_to(edge_at(a, order_a, k), variant));
                    }
                }
            }
        }
        if joins_group(a, order_a, i, j) {
            lemma_same_group(a, order_a, b, order_b, i, j + 1);
        }
    }
}

proof fn lemma_same_cases(
    te: TypeEnv,
    tm: TermEnv,
    depth: int,
    a: Seq<TrieEdge>,
    order_a: Seq<int>,
    b: Seq<TrieEdge>,
    order_b: Seq<int>,
    i: int,
    end: int,
    input_ty: TypeId,
    indent: Seq<char>,
    bindings: Bindings,
)
    requires
        same_edges(a, order_a, b, order_b),
        0 <= i,
        end <= order_a.len(),
    ensures
        cases_run(te, tm, depth, a, order_a, i, end, input_ty, indent, bindings) == cases_run(
            te,
            tm,
            depth,
            b,
            order_b,
            i,
            end,
            input_ty,
            indent,
            bindings,
        ),
    decreases end - i,
{
    if i < end {
        let edge = edge_at(a, order_a, i);
        assert(edge == edge_at(b, order_b, i));
        match edge.symbol {
            TrieSymbol::Match { op: PatternInst::MatchVariant { arg_tys, variant, .. } } => {
                let fields = variants_of(te, input_ty)[variant.0 as int].fields@;
                let bound = bind_fields(
                    te,
                    bindings,
                    fields,
                    InstId(depth as usize),
                    min_len(arg_tys@.len(), fields.len()),
                );
                let sub = body_run(te, tm, depth + 1, edge.node, indent + "        "@, bound);
                lemma_same_cases(
                    te,
                    tm,
                    depth,
                    a,
                    order_a,
                    b,
                    order_b,
                    i + 1,
                    end,
                    input_ty,
                    indent,
                    sub.bindings,
                );
            },
            _ => {},
        }
    }
}

proof fn lemma_same_edges(
    te: TypeEnv,
    tm: TermEnv,
    depth: int,
    a: Seq<TrieEdge>,
    order_a: Seq<int>,
    b: Seq<TrieEdge>,
    order_b: Seq<int>,
    i: int,
    indent: Seq<char>,
    bindings: Bindings,
    returned: bool,
)
    requires
        same_edges(a, order_a, b, order_b),
        0 <= i,
    ensures
        edges_run(te, tm, depth, a, order_a, i, indent, bindings, returned) == edges_run(
            te,
            tm,
            depth,
            b,
            order_b,
            i,
            indent,
            bindings,
            returned,
        ),
    decreases order_a.len() - i,
{
    if i < order_a.len() {
        let edge = edge_at(a, order_a, i);
        assert(edge == edge_at(b, order_b, i));
        lemma_same_group(a, order_a, b, order_b, i, i);
        let end = group_end(a, order_a, i, i);
        if end - i > 1 && end <= order_a.len() {
            let (_, input_ty) = compared_input(edge.symbol);
            lemma_same_cases(
                te,
                tm,
                depth,
                a,
                order_a,
                b,
                order_b,
                i,
                end,
                input_ty,
                indent,
                bindings,
            );
            let group = group_run(te, tm, depth, a, order_a, i, end, indent, bindings);
            assert(group == group_run(te, tm, depth, b, order_b, i, end, indent, bindings));
            lemma_same_edges(
                te,
                tm,
                depth,
                a,
                order_a,
                b,
                order_b,
                end,
                indent,
                group.bindings,
                returned,
            );
        } else {
            let one = edge_run(te, tm, depth, edge, indent, bindings);
            if !(always_taken(edge) && one.returned) {
                lemma_same_edges(
                    te,
                    tm,
                    depth,
                    a,
                    order_a,
                    b,
                    order_b,
                    i + 1,
                    indent,
                    one.bindings,
                    if edge.symbol is EndOfMatch {
                        one.returned
                    } else {
                        returned
                    },
                );
            }
        }
    }
}

/// Where any two edges of a node differ in priority or symbol, the code for the node does not
/// depend on the order in which they are given.
pub proof fn law_edges_permuted(
    te: TypeEnv,
    tm: TermEnv,
    depth: int,
    a: Vec<TrieEdge>,
    b: Vec<TrieEdge>,
    places: Seq<int>,
    indent: Seq<char>,
    bindings: Bindings,
)
    requires
        is_rearranged(a@, b@, places),
        all_distinct(a@),
    ensures
        body_run(te, tm, depth, TrieNode::Decision { edges: a }, indent, bindings) == body_run(
            te,
            tm,
            depth,
            TrieNode::Decision { edges: b },
            indent,
            bindings,
        ),
{
    lemma_same_order(a@, b@, places);
    lemma_same_edges(
        te,
        tm,
        depth,
        a@,
        edge_order(a@),
        b@,
        edge_order(b@),
        0,
        indent,
        bindings,
        false,
    );
    assert(can_order(a@) == can_order(b@)) by {
        if can_order(a@) {
            assert forall|i: int| 0 <= i < b@.len() && b@.len() > 1 implies (
            #[trigger] b@[i]).range.min != i64::MIN by {
                assert(b@[i] == a@[places[i]]);
            }
        }
        if can_order(b@) {
            assert forall|k: int| 0 <= k < a@.len() && a@.len() > 1 implies (
            #[trigger] a@[k]).range.min != i64::MIN by {
                assert(places.contains(k));
                let i = choose|i: int| 0 <= i < places.len() && places[i] == k;
                assert(b@[i] == a@[k]);
            }
        }
    }
}

} // verus!
