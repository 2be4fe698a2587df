//! What stays bound, and how, while code is generated.

use crate::ir::{ExprInst, InstId, PatternInst, Value};
use crate::output::{
    always_taken, bind_fields, bind_outputs, body_run, can_bind_field, can_bind_fields, can_borrow,
    cases_run, compared_input, edge_at, edge_run, edges_run, expr_run, expr_step, expr_value,
    group_end, group_run, is_order_of, min_len, pattern_run, variants_of, Bindings,
};
use crate::sema::{Field, TermEnv, TypeEnv, TypeId};
use crate::trie::{edge_order, TrieEdge, TrieNode, TrieSymbol};
use vstd::prelude::*;

verus! {

/// Whether each bound value has its type there, and none of a primitive type is a reference.
pub open spec fn well_bound(te: TypeEnv, bindings: Bindings) -> bool {
    forall|value: Value| #[trigger]
        bindings.contains_key(value) ==> te.has_type(bindings[value].1) && (bindings[value].0
            ==> !te.is_prim(bindings[value].1))
}

/// Whether all that was bound before still is.
pub open spec fn keeps_bound(before: Bindings, after: Bindings) -> bool {
    forall|value: Value| #[trigger] before.contains_key(value) ==> after.contains_key(value)
}

/// Whether a value is an output of a pattern instruction above the given depth.
pub open spec fn is_outer(value: Value, depth: int) -> bool {
    match value {
        Value::Pattern { inst, .. } => inst.0 < depth,
        Value::Expr { .. } => false,
    }
}

/// Whether a value is bound as it was before, or not bound as it was before.
pub open spec fn same_binding(before: Bindings, after: Bindings, value: Value) -> bool {
    before.contains_key(value) == after.contains_key(value) && (before.contains_key(value)
        ==> before[value] == after[value])
}

/// Whether the outputs of pattern instructions above the given depth are bound as before.
pub open spec fn keeps_outer(before: Bindings, after: Bindings, depth: int) -> bool {
    forall|value: Value| #[trigger] is_outer(value, depth) ==> same_binding(before, after, value)
}

/// Among well-bound values every bound one can be borrowed.
pub proof fn law_bound_can_be_borrowed(te: TypeEnv, bindings: Bindings, value: Value)
    requires
        well_bound(te, bindings),
    ensures
        can_borrow(te, bindings, value) <==> bindings.contains_key(value),
{
}

/// An expression instruction keeps values well bound, and changes the binding of its own output at
/// most.
pub proof fn law_expr_step_bindings(
    te: TypeEnv,
    tm: TermEnv,
    id: InstId,
    inst: ExprInst,
    indent: Seq<char>,
    bindings: Bindings,
)
    requires
        expr_step(te, tm, id, inst, indent, bindings).valid,
    ensures
        ({
            let after = expr_step(te, tm, id, inst, indent, bindings).bindings;
            &&& well_bound(te, bindings) ==> well_bound(te, after)
            &&& keeps_bound(bindings, after)
            &&& forall|value: Value|
                value != expr_value(id) ==> #[trigger] same_binding(bindings, after, value)
        }),
{
}

/// A pattern instruction keeps values well bound, and changes the bindings of its own outputs at
/// most. What an expression inside it binds is not bound after it.
pub proof fn law_pattern_bindings(
    te: TypeEnv,
    tm: TermEnv,
    id: InstId,
    op: PatternInst,
    indent: Seq<char>,
    bindings: Bindings,
)
    requires
        pattern_run(te, tm, id, op, indent, bindings).valid,
    ensures
        ({
            let after = pattern_run(te, tm, id, op, indent, bindings).bindings;
            &&& well_bound(te, bindings) ==> well_bound(te, after)
            &&& keeps_bound(bindings, after)
            &&& forall|value: Value|
                !is_output_of(value, id) ==> #[trigger] same_binding(bindings, after, value)
        }),
{
    match op {
        PatternInst::MatchVariant { input_ty, arg_tys, variant, .. } => {
            let fields = variants_of(te, input_ty)[variant.0 as int].fields@;
            lemma_bind_fields(te, bindings, fields, arg_tys@, id);
        },
        PatternInst::Extract { output_tys, .. } => {
            lemma_bind_outputs(te, bindings, output_tys@, id, output_tys@.len());
        },
        _ => {},
    }
}

/// Whether a value is an output of the given pattern instruction.
pub open spec fn is_output_of(value: Value, id: InstId) -> bool {
    match value {
        Value::Pattern { inst, .. } => inst == id,
        Value::Expr { .. } => false,
    }
}

proof fn lemma_bind_fields(
    te: TypeEnv,
    bindings: Bindings,
    fields: Seq<Field>,
    arg_tys: Seq<TypeId>,
    id: InstId,
)
    requires
        can_bind_fields(te, fields, arg_tys),
    ensures
        ({
            let after = bind_fields(
                te,
                bindings,
                fields,
                id,
                min_len(arg_tys.len(), fields.len()),
            );
            &&& well_bound(te, bindings) ==> well_bound(te, after)
            &&& keeps_bound(bindings, after)
            &&& forall|value: Value|
                !is_output_of(value, id) ==> #[trigger] same_binding(bindings, after, value)
        }),
{
    let n = min_len(arg_tys.len(), fields.len());
    assert forall|i: int| 0 <= i < n implies te.has_type((#[trigger] fields[i]).ty) by {
        assert(can_bind_field(te, fields[i], arg_tys[i]));
    }
    lemma_bind_first_fields(te, bindings, fields, id, n);
}

proof fn lemma_bind_first_fields(
    te: TypeEnv,
    bindings: Bindings,
    fields: Seq<Field>,
    id: InstId,
    n: nat,
)
    requires
        forall|i: int| 0 <= i < n ==> te.has_type((#[trigger] fields[i]).ty),
    ensures
        ({
            let after = bind_fields(te, bindings, fields, id, n);
            &&& well_bound(te, bindings) ==> well_bound(te, after)
            &&& keeps_bound(bindings, after)
            &&& forall|value: Value|
                !is_output_of(value, id) ==> #[trigger] same_binding(bindings, after, value)
        }),
    decreases n,
{
    if n > 0 {
        lemma_bind_first_fields(te, bindings, fields, id, (n - 1) as nat);
        assert(te.has_type(fields[n - 1].ty));
        let before = bind_fields(te, bindings, fields, id, (n - 1) as nat);
        let after = bind_fields(te, bindings, fields, id, n);
        assert forall|value: Value| !is_output_of(value, id) implies #[trigger] same_binding(
            bindings,
            after,
            value,
        ) by {
            assert(same_binding(bindings, before, value));
        }
    }
}

proof fn lemma_bind_outputs(
    te: TypeEnv,
    bindings: Bindings,
    tys: Seq<TypeId>,
    id: InstId,
    n: nat,
)
    requires
        forall|i: int| 0 <= i < n ==> te.has_type(#[trigger] tys[i]),
    ensures
        ({
            let after = bind_outputs(te, bindings, tys, id, n);
            &&& well_bound(te, bindings) ==> well_bound(te, after)
            &&& keeps_bound(bindings, after)
            &&& forall|value: Value|
                !is_output_of(value, id) ==> #[trigger] same_binding(bindings, after, value)
        }),
    decreases n,
{
    if n > 0 {
        lemma_bind_outputs(te, bindings, tys, id, (n - 1) as nat);
        assert(te.has_type(tys[n - 1]));
        let before = bind_outputs(te, bindings, tys, id, (n - 1) as nat);
        let after = bind_outputs(te, bindings, tys, id, n);
        assert forall|value: Value| !is_output_of(value, id) implies #[trigger] same_binding(
            bindings,
            after,
            value,
        ) by {
            assert(same_binding(bindings, before, value));
        }
    }
}

proof fn lemma_expr_run_bindings(
    te: TypeEnv,
    tm: TermEnv,
    insts: Seq<ExprInst>,
    n: nat,
    indent: Seq<char>,
    bindings: Bindings,
)
    requires
        expr_run(te, tm, insts, n, indent, bindings).valid,
    ensures
        ({
            let after = expr_run(te, tm, insts, n, indent, bindings).bindings;
            &&& well_bound(te, bindings) ==> well_bound(te, after)
            &&& keeps_bound(bindings, after)
            &&& forall|value: Value|
                value is Pattern ==> #[trigger] same_binding(bindings, after, value)
        }),
    decreases n,
{
    if n > 0 {
        let before = expr_run(te, tm, insts, (n - 1) as nat, indent, bindings);
        lemma_expr_run_bindings(te, tm, insts, (n - 1) as nat, indent, bindings);
        let id = InstId((n - 1) as usize);
        law_expr_step_bindings(te, tm, id, insts[n - 1], indent, before.bindings);
        let after = expr_run(te, tm, insts, n, indent, bindings).bindings;
        assert forall|value: Value| value is Pattern implies #[trigger] same_binding(
            bindings,
            after,
            value,
        ) by {
            assert(same_binding(bindings, before.bindings, value));
            assert(same_binding(before.bindings, after, value));
        }
    }
}

/// The code for a node keeps values well bound and keeps them bound, and does not touch what the
/// instructions above the node have bound.
pub proof fn law_body_bindings(
    te: TypeEnv,
    tm: TermEnv,
    depth: int,
    node: TrieNode,
    indent: Seq<char>,
    bindings: Bindings,
)
    requires
        0 <= depth <= usize::MAX,
        body_run(te, tm, depth, node, indent, bindings).valid,
    ensures
        ({
            let after = body_run(te, tm, depth, node, indent, bindings).bindings;
            &&& well_bound(te, bindings) ==> well_bound(te, after)
            &&& keeps_bound(bindings, after)
            &&& keeps_outer(bindings, after, depth)
        }),
    decreases node, 0int, 0int,
{
    match node {
        TrieNode::Empty => {},
        TrieNode::Leaf { output, .. } => {
            let n = output.insts@.len();
            lemma_expr_run_bindings(te, tm, output.insts@, n, indent, bindings);
            let after = body_run(te, tm, depth, node, indent, bindings).bindings;
            assert forall|value: Value| #[trigger] is_outer(value, depth) implies same_binding(
                bindings,
                after,
                value,
            ) by {
                assert(value is Pattern);
            }
        },
        TrieNode::Decision { edges } => {
            let order = edge_order(edges@);
            lemma_edges_bindings(te, tm, depth, edges@, order, 0, indent, bindings, false);
        },
    }
}

#[verifier::spinoff_prover]
#[verifier::rlimit(40)]
proof fn lemma_edges_bindings(
    te: TypeEnv,
    tm: TermEnv,
    depth: int,
    edges: Seq<TrieEdge>,
    order: Seq<int>,
    i: int,
    indent: Seq<char>,
    bindings: Bindings,
    returned: bool,
)
    requires
        0 <= depth <= usize::MAX,
        edges_run(te, tm, depth, edges, order, i, indent, bindings, returned).valid,
    ensures
        ({
            let after = edges_run(
                te,
                tm,
                depth,
                edges,
                order,
                i,
                indent,
                bindings,
                returned,
            ).bindings;
            &&& well_bound(te, bindings) ==> well_bound(te, after)
            &&& keeps_bound(bindings, after)
            &&& keeps_outer(bindings, after, depth)
        }),
    decreases edges, order.len() - i, 2int,
{
    if !(i < 0 || i >= order.len() || !is_order_of(order, edges)) {
        let end = group_end(edges, order, i, i);
        let edge = edges[order[i]];
        let run = edges_run(te, tm, depth, edges, order, i, indent, bindings, returned);
        if end - i > 1 && end <= order.len() {
            let group = group_run(te, tm, depth, edges, order, i, end, indent, bindings);
            let (input, input_ty) = compared_input(edge_at(edges, order, i).symbol);
            lemma_cases_bindings(te, tm, depth, edges, order, i, end, input_ty, indent, bindings);
            lemma_edges_bindings(
                te,
                tm,
                depth,
                edges,
                order,
                end,
                indent,
                group.bindings,
                returned,
            );
            lemma_keeps_outer_twice(bindings, group.bindings, run.bindings, depth);
        } else {
            let one = edge_run(te, tm, depth, edge, indent, bindings);
            lemma_edge_bindings(te, tm, depth, edge, indent, bindings);
            if !(always_taken(edge) && one.returned) {
                lemma_edges_bindings(
                    te,
                    tm,
                    depth,
                    edges,
                    order,
                    i + 1,
                    indent,
                    one.bindings,
                    if edge.symbol is EndOfMatch {
                        one.returned
                    } else {
                        returned
                    },
                );
                lemma_keeps_outer_twice(bindings, one.bindings, run.bindings, depth);
            }
        }
    }
}

proof fn lemma_keeps_outer_twice(a: Bindings, b: Bindings, c: Bindings, depth: int)
    requires
        keeps_outer(a, b, depth),
        keeps_outer(b, c, depth),
    ensures
        keeps_outer(a, c, depth),
{
}

/// What keeps the bindings above a depth keeps those above a smaller one.
proof fn lemma_keeps_outer_less(a: Bindings, b: Bindings, depth: int)
    requires
        keeps_outer(a, b, depth + 1),
    ensures
        keeps_outer(a, b, depth),
{
    assert forall|value: Value| #[trigger] is_outer(value, depth) implies same_binding(
        a,
        b,
        value,
    ) by {
        assert(is_outer(value, depth + 1));
    }
}

/// An instruction at a depth keeps the bindings above it.
proof fn lemma_own_outputs_only(a: Bindings, b: Bindings, depth: int)
    requires
        0 <= depth <= usize::MAX,
        forall|value: Value|
            !is_output_of(value, InstId(depth as usize)) ==> #[trigger] same_binding(a, b, value),
    ensures
        keeps_outer(a, b, depth),
{
}

proof fn lemma_edge_bindings(
    te: TypeEnv,
    tm: TermEnv,
    depth: int,
    edge: TrieEdge,
    indent: Seq<char>,
    bindings: Bindings,
)
    requires
        0 <= depth <= usize::MAX,
        edge_run(te, tm, depth, edge, indent, bindings).valid,
    ensures
        ({
            let after = edge_run(te, tm, depth, edge, indent, bindings).bindings;
            &&& well_bound(te, bindings) ==> well_bound(te, after)
            &&& keeps_bound(bindings, after)
            &&& keeps_outer(bindings, after, depth)
        }),
    decreases edge, 0int, 0int,
{
    let after = edge_run(te, tm, depth, edge, indent, bindings).bindings;
    match edge.symbol {
        TrieSymbol::EndOfMatch => {
            law_body_bindings(te, tm, depth + 1, edge.node, indent, bindings);
            lemma_keeps_outer_less(bindings, after, depth);
        },
        TrieSymbol::Match { op } => {
            let id = InstId(depth as usize);
            let inner = if op.infallible() {
                indent
            } else {
                indent + "    "@
            };
            let head = pattern_run(te, tm, id, op, indent, bindings);
            law_pattern_bindings(te, tm, id, op, indent, bindings);
            law_body_bindings(te, tm, depth + 1, edge.node, inner, head.bindings);
            lemma_own_outputs_only(bindings, head.bindings, depth);
            lemma_keeps_outer_less(head.bindings, after, depth);
            lemma_keeps_outer_twice(bindings, head.bindings, after, depth);
        },
    }
}

proof fn lemma_cases_bindings(
    te: TypeEnv,
    tm: TermEnv,
    depth: int,
    edges: Seq<TrieEdge>,
    order: Seq<int>,
    i: int,
    end: int,
    input_ty: TypeId,
    indent: Seq<char>,
    bindings: Bindings,
)
    requires
        0 <= depth <= usize::MAX,
        cases_run(te, tm, depth, edges, order, i, end, input_ty, indent, bindings).valid,
    ensures
        ({
            let after = cases_run(
                te,
                tm,
                depth,
                edges,
                order,
                i,
                end,
                input_ty,
                indent,
                bindings,
            ).bindings;
            &&& well_bound(te, bindings) ==> well_bound(te, after)
            &&& keeps_bound(bindings, after)
            &&& keeps_outer(bindings, after, depth)
        }),
    decreases edges, end - i, 0int,
{
    if !(i >= end || !(0 <= i < order.len()) || !(0 <= order[i] < edges.len())) {
        let edge = edges[order[i]];
        match edge.symbol {
            TrieSymbol::Match { op: PatternInst::MatchVariant { arg_tys, variant, .. } } => {
                let run = cases_run(
                    te,
                    tm,
                    depth,
                    edges,
                    order,
                    i,
                    end,
                    input_ty,
                    indent,
                    bindings,
                );
                let id = InstId(depth as usize);
                let fields = variants_of(te, input_ty)[variant.0 as int].fields@;
                let bound = bind_fields(
                    te,
                    bindings,
                    fields,
                    id,
                    min_len(arg_tys@.len(), fields.len()),
                );
                let inner = indent + "        "@;
                let sub = body_run(te, tm, depth + 1, edge.node, inner, bound);
                lemma_bind_fields(te, bindings, fields, arg_tys@, id);
                law_body_bindings(te, tm, depth + 1, edge.node, inner, bound);
                lemma_cases_bindings(
                    te,
                    tm,
                    depth,
                    edges,
                    order,
                    i + 1,
                    end,
                    input_ty,
                    indent,
                    sub.bindings,
                );
                lemma_own_outputs_only(bindings, bound, depth);
                lemma_keeps_outer_less(bound, sub.bindings, depth);
                lemma_keeps_outer_twice(bindings, bound, sub.bindings, depth);
                lemma_keeps_outer_twice(bindings, sub.bindings, run.bindings, depth);
            },
            _ => {},
        }
    }
}

} // verus!
