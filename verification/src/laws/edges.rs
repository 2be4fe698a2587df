//! The order in which edges are tried, how they are grouped, and when code returns.

use crate::ir::{InstId, Value};
use crate::laws::symbols::{law_symbol_order, rank_less, symbol_rank};
use crate::order::{law_stable_order, law_stable_order_unique, precedes};
use crate::output::{
    always_taken, body_run, borrowed_text, cases_run, compared_input, compared_variant, compares_to,
    edge_at, edge_run, edges_run, group_end, group_run, is_order_of, joins_group, pattern_run,
    Bindings,
};
use crate::sema::{TermEnv, TypeEnv};
use crate::trie::{edge_key, edge_keys, edge_order, symbol_key, TrieEdge, TrieNode, TrieSymbol};
use vstd::prelude::*;

verus! {

/// Whether the edge at position `a` is tried before that at position `b`: by falling priority,
/// within a priority in the order of the symbols, and with one symbol as they were given.
pub open spec fn tried_before(edges: Seq<TrieEdge>, a: int, b: int) -> bool {
    let min_a = edges[a].range.min;
    let min_b = edges[b].range.min;
    let rank_a = symbol_rank(edges[a].symbol);
    let rank_b = symbol_rank(edges[b].symbol);
    min_a > min_b || (min_a == min_b && (rank_less(rank_a, rank_b) || (rank_a == rank_b && a < b)))
}

/// Whether `order` lists each edge once, in the order in which they are tried.
pub open spec fn is_trying_order(edges: Seq<TrieEdge>, order: Seq<int>) -> bool {
    &&& order.len() == edges.len()
    &&& is_order_of(order, edges)
    &&& forall|k: int| 0 <= k < edges.len() ==> order.contains(k)
    &&& forall|i: int, j: int|
        0 <= i < j < order.len() ==> tried_before(edges, #[trigger] order[i], #[trigger] order[j])
}

proof fn lemma_tried_before(edges: Seq<TrieEdge>, a: int, b: int)
    requires
        0 <= a < edges.len(),
        0 <= b < edges.len(),
    ensures
        tried_before(edges, a, b) == precedes(edge_keys(edges), a, b),
{
    let key_a = edge_key(edges[a]);
    let key_b = edge_key(edges[b]);
    law_symbol_order(edges[a].symbol, edges[b].symbol);
    assert(key_a.skip(1) =~= symbol_key(edges[a].symbol));
    assert(key_b.skip(1) =~= symbol_key(edges[b].symbol));
    if key_a[0] == key_b[0] && key_a.skip(1) == key_b.skip(1) {
        assert(key_a =~= seq![key_a[0]] + key_a.skip(1));
        assert(key_b =~= seq![key_b[0]] + key_b.skip(1));
    }
}

/// Each edge is tried once. Edges of a higher priority come before those of a lower one; within a
/// priority they come in the order of their symbols, and those with one symbol as they were given.
pub proof fn law_edge_order(edges: Seq<TrieEdge>)
    ensures
        is_trying_order(edges, edge_order(edges)),
{
    let order = edge_order(edges);
    law_stable_order(edge_keys(edges), edges.len());
    assert forall|i: int, j: int| 0 <= i < j < order.len() implies tried_before(
        edges,
        #[trigger] order[i],
        #[trigger] order[j],
    ) by {
        lemma_tried_before(edges, order[i], order[j]);
    }
}

/// No other order has the edges in that way.
pub proof fn law_edge_order_unique(edges: Seq<TrieEdge>, order: Seq<int>)
    requires
        is_trying_order(edges, order),
    ensures
        order == edge_order(edges),
{
    let keys = edge_keys(edges);
    law_stable_order(keys, edges.len());
    assert forall|i: int, j: int| 0 <= i < j < order.len() implies precedes(
        keys,
        #[trigger] order[i],
        #[trigger] order[j],
    ) by {
        lemma_tried_before(edges, order[i], order[j]);
    }
    law_stable_order_unique(keys, edges.len(), order, edge_order(edges));
}

/// The edges of a group compare one value to different variants, and no more edges could be added
/// to the group behind its last one.
pub proof fn law_group(edges: Seq<TrieEdge>, order: Seq<int>, i: int)
    requires
        0 <= i < order.len(),
    ensures
        i <= group_end(edges, order, i, i) <= order.len(),
        forall|k: int|
            i <= k < group_end(edges, order, i, i) ==> (compared_variant(
                (#[trigger] edge_at(edges, order, k)).symbol,
            ) matches Some((input, _)) && Some(input) == first_input(edges, order, i)),
        forall|k: int, l: int|
            i <= k < l < group_end(edges, order, i, i) ==> different_variants(
                #[trigger] edge_at(edges, order, k),
                #[trigger] edge_at(edges, order, l),
            ),
        group_end(edges, order, i, i) < order.len() ==> !joins_group(
            edges,
            order,
            i,
            group_end(edges, order, i, i),
        ),
{
    lemma_group(edges, order, i, i);
}

/// The value that the edge at place `i` compares to a variant, where it does so.
pub open spec fn first_input(edges: Seq<TrieEdge>, order: Seq<int>, i: int) -> Option<
    Value,
> {
    match compared_variant(edge_at(edges, order, i).symbol) {
        Some((input, _)) => Some(input),
        None => None,
    }
}

/// Whether two edges compare values to two different variants.
pub open spec fn different_variants(a: TrieEdge, b: TrieEdge) -> bool {
    match (compared_variant(a.symbol), compared_variant(b.symbol)) {
        (Some((_, v)), Some((_, w))) => v != w,
        _ => false,
    }
}

proof fn lemma_group(edges: Seq<TrieEdge>, order: Seq<int>, i: int, j: int)
    requires
        0 <= i <= j <= order.len(),
        forall|k: int|
            i <= k < j ==> (compared_variant(
                (#[trigger] edge_at(edges, order, k)).symbol,
            ) matches Some((input, _)) && Some(input) == first_input(edges, order, i)),
        forall|k: int, l: int|
            i <= k < l < j ==> different_variants(
                #[trigger] edge_at(edges, order, k),
                #[trigger] edge_at(edges, order, l),
            ),
    ensures
        j <= group_end(edges, order, i, j) <= order.len(),
        forall|k: int|
            i <= k < group_end(edges, order, i, j) ==> (compared_variant(
                (#[trigger] edge_at(edges, order, k)).symbol,
            ) matches Some((input, _)) && Some(input) == first_input(edges, order, i)),
        forall|k: int, l: int|
            i <= k < l < group_end(edges, order, i, j) ==> different_variants(
                #[trigger] edge_at(edges, order, k),
                #[trigger] edge_at(edges, order, l),
            ),
        group_end(edges, order, i, j) < order.len() ==> !joins_group(
            edges,
            order,
            i,
            group_end(edges, order, i, j),
        ),
    decreases order.len() - j,
{
    if j < order.len() && joins_group(edges, order, i, j) {
        assert forall|k: int, l: int| i <= k < l < j + 1 implies different_variants(
            #[trigger] edge_at(edges, order, k),
            #[trigger] edge_at(edges, order, l),
        ) by {
            if l == j {
                match compared_variant(edge_at(edges, order, j).symbol) {
                    Some((_, variant)) => {
                        assert(!compares_to(edge_at(edges, order, k), variant));
                    },
                    None => {},
                }
            }
        }
        lemma_group(edges, order, i, j + 1);
    }
}

/// A group of two or more edges becomes one `match`, any other edge is tried on its own. What is
/// written for the edges from place `i` on begins with the code for that group or edge.
pub proof fn law_edges_in_turn(
    te: TypeEnv,
    tm: TermEnv,
    depth: int,
    edges: Seq<TrieEdge>,
    order: Seq<int>,
    i: int,
    indent: Seq<char>,
    bindings: Bindings,
    returned: bool,
)
    requires
        0 <= i < order.len(),
        is_order_of(order, edges),
    ensures
        ({
            let end = group_end(edges, order, i, i);
            let run = edges_run(te, tm, depth, edges, order, i, indent, bindings, returned);
            let first = if end - i > 1 {
                group_run(te, tm, depth, edges, order, i, end, indent, bindings).text
            } else {
                edge_run(te, tm, depth, edge_at(edges, order, i), indent, bindings).text
            };
            first.is_prefix_of(run.text)
        }),
{
    law_group(edges, order, i);
    let end = group_end(edges, order, i, i);
    let run = edges_run(te, tm, depth, edges, order, i, indent, bindings, returned);
    if end - i > 1 {
        let group = group_run(te, tm, depth, edges, order, i, end, indent, bindings);
        let rest = edges_run(te, tm, depth, edges, order, end, indent, group.bindings, returned);
        assert(run.text == group.text + rest.text);
        assert(group.text =~= run.text.take(group.text.len() as int));
    } else {
        let edge = edge_at(edges, order, i);
        let one = edge_run(te, tm, depth, edge, indent, bindings);
        if !(always_taken(edge) && one.returned) {
            let rest = edges_run(
                te,
                tm,
                depth,
                edges,
                order,
                i + 1,
                indent,
                one.bindings,
                if edge.symbol is EndOfMatch {
                    one.returned
                } else {
                    returned
                },
            );
            assert(run.text == one.text + rest.text);
        }
        assert(one.text =~= run.text.take(one.text.len() as int));
    }
}

/// A `match` always ends in a case for all that the others do not cover.
#[verifier::spinoff_prover]
#[verifier::rlimit(40)]
pub proof fn law_catchall(
    te: TypeEnv,
    tm: TermEnv,
    depth: int,
    edges: Seq<TrieEdge>,
    order: Seq<int>,
    i: int,
    end: int,
    indent: Seq<char>,
    bindings: Bindings,
)
    ensures
        (indent + "    _ => {}\n"@ + indent + "}\n"@).is_suffix_of(
            group_run(te, tm, depth, edges, order, i, end, indent, bindings).text,
        ),
{
    let text = group_run(te, tm, depth, edges, order, i, end, indent, bindings).text;
    let (input, input_ty) = compared_input(edge_at(edges, order, i).symbol);
    let cases = cases_run(te, tm, depth, edges, order, i, end, input_ty, indent, bindings);
    let last = indent + "    _ => {}\n"@ + indent + "}\n"@;
    let first = indent + "match "@ + borrowed_text(te, bindings, input) + " {\n"@
        + cases.text;
    assert(text =~= first + last);
    assert(last =~= text.skip(text.len() - last.len()));
}

/// Whether some way through a node always leads to a rule: the node is a rule, or one of its
/// edges needs no match or always matches, and leads to such a node.
pub open spec fn always_reaches_rule(node: TrieNode) -> bool
    decreases node,
{
    match node {
        TrieNode::Empty => false,
        TrieNode::Leaf { .. } => true,
        TrieNode::Decision { edges } => exists|k: int|
            0 <= k < edges@.len() && leads_on(#[trigger] edges@[k]) && always_reaches_rule(
                edges@[k].node,
            ),
    }
}

/// Whether an edge needs no match or always matches.
pub open spec fn leads_on(edge: TrieEdge) -> bool {
    edge.symbol is EndOfMatch || always_taken(edge)
}

/// Code is only said to return where some way through its node always leads to a rule.
pub proof fn law_returned(
    te: TypeEnv,
    tm: TermEnv,
    depth: int,
    node: TrieNode,
    indent: Seq<char>,
    bindings: Bindings,
)
    ensures
        body_run(te, tm, depth, node, indent, bindings).returned ==> always_reaches_rule(node),
    decreases node, 0int,
{
    match node {
        TrieNode::Decision { edges } => {
            lemma_edges_returned(
                te,
                tm,
                depth,
                edges@,
                edge_order(edges@),
                0,
                indent,
                bindings,
                false,
            );
        },
        _ => {},
    }
}

proof fn lemma_edges_returned(
    te: TypeEnv,
    tm: TermEnv,
    depth: int,
    edges: Seq<TrieEdge>,
    order: Seq<int>,
    i: int,
    indent: Seq<char>,
    bindings: Bindings,
    returned: bool,
)
    ensures
        edges_run(te, tm, depth, edges, order, i, indent, bindings, returned).returned ==> (returned
            || exists|k: int|
            0 <= k < edges.len() && leads_on(#[trigger] edges[k]) && always_reaches_rule(
                edges[k].node,
            )),
    decreases edges, order.len() - i,
{
    if !(i < 0 || i >= order.len() || !is_order_of(order, edges)) {
        let end = group_end(edges, order, i, i);
        let edge = edges[order[i]];
        if end - i > 1 && end <= order.len() {
            let group = group_run(te, tm, depth, edges, order, i, end, indent, bindings);
            lemma_edges_returned(
                te,
                tm,
                depth,
                edges,
                order,
                end,
                indent,
                group.bindings,
                returned,
            );
        } else {
            let one = edge_run(te, tm, depth, edge, indent, bindings);
            lemma_edge_returned(te, tm, depth, edge, indent, bindings);
            if !(always_taken(edge) && one.returned) {
                lemma_edges_returned(
                    te,
                    tm,
                    depth,
                    edges,
                    order,
                    i + 1,
                    indent,
                    one.bindings,
                    if edge.symbol is EndOfMatch {
                        one.returned
                    } else {
                        returned
                    },
                );
            }
        }
    }
}

proof fn lemma_edge_returned(
    te: TypeEnv,
    tm: TermEnv,
    depth: int,
    edge: TrieEdge,
    indent: Seq<char>,
    bindings: Bindings,
)
    ensures
        edge_run(te, tm, depth, edge, indent, bindings).returned ==> always_reaches_rule(edge.node),
    decreases edge, 0int,
{
    match edge.symbol {
        TrieSymbol::EndOfMatch => {
            law_returned(te, tm, depth + 1, edge.node, indent, bindings);
        },
        TrieSymbol::Match { op } => {
            let head = pattern_run(
                te,
                tm,
                InstId(depth as usize),
                op,
                indent,
                bindings,
            );
            law_returned(te, tm, depth + 1, edge.node, indent, head.bindings);
            law_returned(te, tm, depth + 1, edge.node, indent + "    "@, head.bindings);
        },
    }
}

} // verus!
