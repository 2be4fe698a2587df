//! No rule is lost: the code for a node holds that of every rule that can apply.

use crate::ir::{ExprSequence, InstId, PatternInst, Value};
use crate::laws::declared::{
    holds, holds_at, law_functions_complete, law_holds_itself, law_holds_within,
};
use crate::laws::edges::{law_edge_order, law_group};
use crate::output::{
    bind_fields, body_run, borrowed_text, braced, cases_run, codegen_text, compared_input,
    compared_variant, edge_at, edge_run, edges_run, field_binders, function_body, function_head,
    function_text, group_end, group_run, is_order_of, min_len, pattern_run, result_run, root_run,
    variants_of, Bindings,
};
use crate::sema::{ConstructorKind, TermEnv, TermKind, TypeEnv, TypeId};
use crate::text::decimal;
use crate::trie::{edge_order, TrieEdge, TrieNode, TrieSymbol};
use vstd::prelude::*;

verus! {

/// Whether the code for a node is known to return does not depend on where it stands, on what is
/// bound before it, or on what the types and terms are.
pub proof fn law_returned_by_node_alone(
    te: TypeEnv,
    tm: TermEnv,
    depth: int,
    indent: Seq<char>,
    bindings: Bindings,
    te_b: TypeEnv,
    tm_b: TermEnv,
    depth_b: int,
    indent_b: Seq<char>,
    bindings_b: Bindings,
    node: TrieNode,
)
    ensures
        body_run(te, tm, depth, node, indent, bindings).returned == body_run(
            te_b,
            tm_b,
            depth_b,
            node,
            indent_b,
            bindings_b,
        ).returned,
    decreases node, 0int,
{
    if let TrieNode::Decision { edges } = node {
        lemma_returned_by_edges_alone(
            te,
            tm,
            depth,
            indent,
            bindings,
            te_b,
            tm_b,
            depth_b,
            indent_b,
            bindings_b,
            edges@,
            edge_order(edges@),
            0,
            false,
        );
    }
}

proof fn lemma_returned_by_edges_alone(
    te: TypeEnv,
    tm: TermEnv,
    depth: int,
    indent: Seq<char>,
    bindings: Bindings,
    te_b: TypeEnv,
    tm_b: TermEnv,
    depth_b: int,
    indent_b: Seq<char>,
    bindings_b: Bindings,
    edges: Seq<TrieEdge>,
    order: Seq<int>,
    i: int,
    returned: bool,
)
    ensures
        edges_run(te, tm, depth, edges, order, i, indent, bindings, returned).returned
            == edges_run(
            te_b,
            tm_b,
            depth_b,
            edges,
            order,
            i,
            indent_b,
            bindings_b,
            returned,
        ).returned,
    decreases edges, order.len() - i,
{
    if 0 <= i < order.len() && is_order_of(order, edges) {
        let end = group_end(edges, order, i, i);
        if end - i > 1 && end <= order.len() {
            let a = group_run(te, tm, depth, edges, order, i, end, indent, bindings);
            let b = group_run(te_b, tm_b, depth_b, edges, order, i, end, indent_b, bindings_b);
            lemma_returned_by_edges_alone(
                te,
                tm,
                depth,
                indent,
                a.bindings,
                te_b,
                tm_b,
                depth_b,
                indent_b,
                b.bindings,
                edges,
                order,
                end,
                returned,
            );
        } else {
            let edge = edges[order[i]];
            let a = edge_run(te, tm, depth, edge, indent, bindings);
            let b = edge_run(te_b, tm_b, depth_b, edge, indent_b, bindings_b);
            lemma_edge_returned(te, tm, depth, edge, indent, bindings);
            lemma_edge_returned(te_b, tm_b, depth_b, edge, indent_b, bindings_b);
            law_returned_by_node_alone(
                te,
                tm,
                0,
                Seq::empty(),
                Map::empty(),
                te_b,
                tm_b,
                0,
                Seq::empty(),
                Map::empty(),
                edge.node,
            );
            lemma_returned_by_edges_alone(
                te,
                tm,
                depth,
                indent,
                a.bindings,
                te_b,
                tm_b,
                depth_b,
                indent_b,
                b.bindings,
                edges,
                order,
                i + 1,
                if edge.symbol is EndOfMatch {
                    a.returned
                } else {
                    returned
                },
            );
        }
    }
}

/// Whether the code for a node is known to return, wherever it stands.
pub open spec fn known_to_return(te: TypeEnv, tm: TermEnv, node: TrieNode) -> bool {
    body_run(te, tm, 0, node, Seq::empty(), Map::empty()).returned
}

proof fn lemma_edge_returned(
    te: TypeEnv,
    tm: TermEnv,
    depth: int,
    edge: TrieEdge,
    indent: Seq<char>,
    bindings: Bindings,
)
    ensures
        edge_run(te, tm, depth, edge, indent, bindings).returned == known_to_return(
            te,
            tm,
            edge.node,
        ),
    decreases edge, 0int,
{
    let none = Seq::<char>::empty();
    let free = Map::<Value, (bool, TypeId)>::empty();
    match edge.symbol {
        TrieSymbol::EndOfMatch => {
            law_returned_by_node_alone(
                te,
                tm,
                depth + 1,
                indent,
                bindings,
                te,
                tm,
                0,
                none,
                free,
                edge.node,
            );
        },
        TrieSymbol::Match { op } => {
            let bound = pattern_run(te, tm, InstId(depth as usize), op, indent, bindings).bindings;
            let inner = if op.infallible() {
                indent
            } else {
                indent + "    "@
            };
            law_returned_by_node_alone(
                te,
                tm,
                depth + 1,
                inner,
                bound,
                te,
                tm,
                0,
                none,
                free,
                edge.node,
            );
        },
    }
}

/// Whether an edge always matches and its code is known to return: nothing behind it can be
/// reached.
pub open spec fn cuts_off(te: TypeEnv, tm: TermEnv, edge: TrieEdge) -> bool {
    &&& edge.symbol matches TrieSymbol::Match { op } && op.infallible()
    &&& known_to_return(te, tm, edge.node)
}

/// Whether no edge that is tried before the edge at position `k` cuts it off.
pub open spec fn is_tried(te: TypeEnv, tm: TermEnv, edges: Seq<TrieEdge>, k: int) -> bool {
    forall|p: int, q: int|
        0 <= q < p < edges.len() && #[trigger] edge_order(edges)[p] == k ==> !cuts_off(
            te,
            tm,
            edges[#[trigger] edge_order(edges)[q]],
        )
}

/// Whether a rule can apply at a node: the node is the rule, or the rule can apply behind one of
/// the node's edges that is not cut off.
pub open spec fn can_apply(te: TypeEnv, tm: TermEnv, node: TrieNode, rule: ExprSequence) -> bool
    decreases node,
{
    match node {
        TrieNode::Empty => false,
        TrieNode::Leaf { output, .. } => output == rule,
        TrieNode::Decision { edges } => exists|k: int|
            0 <= k < edges@.len() && is_tried(te, tm, edges@, k) && can_apply(
                te,
                tm,
                (#[trigger] edges@[k]).node,
                rule,
            ),
    }
}

/// What stands in the code for a rule: where the rule comes from, what builds its result, and the
/// return of the result, with some indentation and some bindings.
pub open spec fn rule_text(
    te: TypeEnv,
    tm: TermEnv,
    rule: ExprSequence,
    indent: Seq<char>,
    bindings: Bindings,
) -> Seq<char> {
    "// Rule at "@ + te.filenames@[rule.pos.file as int]@ + " line "@ + decimal(
        rule.pos.line as nat,
    ) + ".\n"@ + result_run(te, tm, rule, indent, bindings).text
}

/// Whether a text holds the code for a rule.
pub open spec fn writes_rule(
    te: TypeEnv,
    tm: TermEnv,
    text: Seq<char>,
    rule: ExprSequence,
) -> bool {
    exists|indent: Seq<char>, bindings: Bindings|
        holds(text, #[trigger] rule_text(te, tm, rule, indent, bindings))
}

proof fn lemma_regroup(a: Seq<char>, b: Seq<char>, c: Seq<char>, d: Seq<char>, e: Seq<char>)
    ensures
        a + b + c + d + e == a + (b + c + d + e),
{
    assert(a + b + c + d + e =~= a + (b + c + d + e));
}

proof fn lemma_regroup_rule(
    a: Seq<char>,
    b: Seq<char>,
    c: Seq<char>,
    d: Seq<char>,
    e: Seq<char>,
    f: Seq<char>,
    g: Seq<char>,
)
    ensures
        a + b + (c + d + e) + f + g == a + (b + c + d + e + f + g),
{
    assert(a + b + (c + d + e) + f + g =~= a + (b + c + d + e + f + g));
}

proof fn lemma_writes_within(
    te: TypeEnv,
    tm: TermEnv,
    a: Seq<char>,
    text: Seq<char>,
    b: Seq<char>,
    rule: ExprSequence,
)
    requires
        writes_rule(te, tm, text, rule),
    ensures
        writes_rule(te, tm, a + text + b, rule),
{
    let (indent, bindings) = choose|indent: Seq<char>, bindings: Bindings|
        holds(text, #[trigger] rule_text(te, tm, rule, indent, bindings));
    law_holds_within(a, text, b, rule_text(te, tm, rule, indent, bindings));
}

/// The code for a node holds the code for every rule that can apply there.
#[verifier::spinoff_prover]
#[verifier::rlimit(40)]
pub proof fn law_no_rule_lost(
    te: TypeEnv,
    tm: TermEnv,
    depth: int,
    node: TrieNode,
    rule: ExprSequence,
    indent: Seq<char>,
    bindings: Bindings,
)
    requires
        can_apply(te, tm, node, rule),
    ensures
        writes_rule(te, tm, body_run(te, tm, depth, node, indent, bindings).text, rule),
    decreases node, 0int, 0int,
{
    match node {
        TrieNode::Empty => {},
        TrieNode::Leaf { .. } => {
            let part = rule_text(te, tm, rule, indent, bindings);
            let none = Seq::<char>::empty();
            law_holds_itself(part);
            law_holds_within(indent, part, none, part);
            let file = te.filenames@[rule.pos.file as int]@;
            let number = decimal(rule.pos.line as nat);
            let result = result_run(te, tm, rule, indent, bindings).text;
            lemma_regroup_rule(indent, "// Rule at "@, file, " line "@, number, ".\n"@, result);
            assert(indent + part + none =~= indent + part);
        },
        TrieNode::Decision { edges } => {
            let k = choose|k: int|
                0 <= k < edges@.len() && is_tried(te, tm, edges@, k) && can_apply(
                    te,
                    tm,
                    (#[trigger] edges@[k]).node,
                    rule,
                );
            let order = edge_order(edges@);
            law_edge_order(edges@);
            assert(order.contains(k));
            let p = choose|p: int| 0 <= p < order.len() && order[p] == k;
            assert forall|q: int| 0 <= q < p implies !cuts_off(
                te,
                tm,
                #[trigger] edge_at(edges@, order, q),
            ) by {
                assert(!cuts_off(te, tm, edges@[order[q]]));
            }
            lemma_edges_keep_rule(
                te,
                tm,
                depth,
                edges@,
                order,
                0,
                p,
                rule,
                indent,
                bindings,
                false,
            );
        },
    }
}

#[verifier::spinoff_prover]
#[verifier::rlimit(40)]
proof fn lemma_edge_keeps_rule(
    te: TypeEnv,
    tm: TermEnv,
    depth: int,
    edge: TrieEdge,
    rule: ExprSequence,
    indent: Seq<char>,
    bindings: Bindings,
)
    requires
        can_apply(te, tm, edge.node, rule),
    ensures
        writes_rule(te, tm, edge_run(te, tm, depth, edge, indent, bindings).text, rule),
    decreases edge, 0int, 0int,
{
    let text = edge_run(te, tm, depth, edge, indent, bindings).text;
    match edge.symbol {
        TrieSymbol::EndOfMatch => {
            law_no_rule_lost(te, tm, depth + 1, edge.node, rule, indent, bindings);
        },
        TrieSymbol::Match { op } => {
            let head = pattern_run(te, tm, InstId(depth as usize), op, indent, bindings);
            let inner = if op.infallible() {
                indent
            } else {
                indent + "    "@
            };
            let tail = if op.infallible() {
                Seq::<char>::empty()
            } else {
                indent + "}\n"@
            };
            let sub = body_run(te, tm, depth + 1, edge.node, inner, head.bindings);
            law_no_rule_lost(te, tm, depth + 1, edge.node, rule, inner, head.bindings);
            lemma_writes_within(te, tm, head.text, sub.text, tail, rule);
            assert(text =~= head.text + sub.text + tail);
        },
    }
}

#[verifier::spinoff_prover]
#[verifier::rlimit(40)]
proof fn lemma_edges_keep_rule(
    te: TypeEnv,
    tm: TermEnv,
    depth: int,
    edges: Seq<TrieEdge>,
    order: Seq<int>,
    i: int,
    p: int,
    rule: ExprSequence,
    indent: Seq<char>,
    bindings: Bindings,
    returned: bool,
)
    requires
        is_order_of(order, edges),
        0 <= i <= p < order.len(),
        can_apply(te, tm, edges[order[p]].node, rule),
        forall|q: int| i <= q < p ==> !cuts_off(te, tm, #[trigger] edge_at(edges, order, q)),
    ensures
        writes_rule(
            te,
            tm,
            edges_run(te, tm, depth, edges, order, i, indent, bindings, returned).text,
            rule,
        ),
    decreases edges, order.len() - i, 2int,
{
    let none = Seq::<char>::empty();
    let run = edges_run(te, tm, depth, edges, order, i, indent, bindings, returned);
    law_group(edges, order, i);
    let end = group_end(edges, order, i, i);
    let edge = edge_at(edges, order, i);
    if end - i > 1 {
        let group = group_run(te, tm, depth, edges, order, i, end, indent, bindings);
        let rest = edges_run(te, tm, depth, edges, order, end, indent, group.bindings, returned);
        if p < end {
            let (_, input_ty) = compared_input(edge.symbol);
            assert forall|k: int| i <= k < end implies compared_variant(
                (#[trigger] edge_at(edges, order, k)).symbol,
            ) is Some by {}
            lemma_cases_keep_rule(
                te,
                tm,
                depth,
                edges,
                order,
                i,
                end,
                p,
                input_ty,
                rule,
                indent,
                bindings,
            );
            lemma_group_holds_cases(te, tm, depth, edges, order, i, end, rule, indent, bindings);
            lemma_writes_within(te, tm, none, group.text, rest.text, rule);
            assert(none + group.text + rest.text =~= run.text);
        } else {
            lemma_edges_keep_rule(
                te,
                tm,
                depth,
                edges,
                order,
                end,
                p,
                rule,
                indent,
                group.bindings,
                returned,
            );
            lemma_writes_within(te, tm, group.text, rest.text, none, rule);
            assert(group.text + rest.text + none =~= run.text);
        }
    } else {
        let one = edge_run(te, tm, depth, edge, indent, bindings);
        lemma_edge_returned(te, tm, depth, edge, indent, bindings);
        let known = if edge.symbol is EndOfMatch {
            one.returned
        } else {
            returned
        };
        let rest = edges_run(te, tm, depth, edges, order, i + 1, indent, one.bindings, known);
        if p == i {
            lemma_edge_keeps_rule(te, tm, depth, edge, rule, indent, bindings);
            lemma_writes_within(te, tm, none, one.text, rest.text, rule);
            assert(none + one.text + rest.text =~= one.text + rest.text);
        } else {
            assert(!cuts_off(te, tm, edge));
            lemma_edges_keep_rule(
                te,
                tm,
                depth,
                edges,
                order,
                i + 1,
                p,
                rule,
                indent,
                one.bindings,
                known,
            );
            lemma_writes_within(te, tm, one.text, rest.text, none, rule);
            assert(one.text + rest.text + none =~= run.text);
        }
    }
}

#[verifier::spinoff_prover]
#[verifier::rlimit(40)]
proof fn lemma_group_holds_cases(
    te: TypeEnv,
    tm: TermEnv,
    depth: int,
    edges: Seq<TrieEdge>,
    order: Seq<int>,
    i: int,
    end: int,
    rule: ExprSequence,
    indent: Seq<char>,
    bindings: Bindings,
)
    requires
        ({
            let (_, input_ty) = compared_input(edge_at(edges, order, i).symbol);
            let cases = cases_run(te, tm, depth, edges, order, i, end, input_ty, indent, bindings);
            writes_rule(te, tm, cases.text, rule)
        }),
    ensures
        writes_rule(
            te,
            tm,
            group_run(te, tm, depth, edges, order, i, end, indent, bindings).text,
            rule,
        ),
{
    let (input, input_ty) = compared_input(edge_at(edges, order, i).symbol);
    let cases = cases_run(te, tm, depth, edges, order, i, end, input_ty, indent, bindings);
    let head = indent + "match "@ + borrowed_text(te, bindings, input) + " {\n"@;
    let tail = indent + "    _ => {}\n"@ + indent + "}\n"@;
    lemma_writes_within(te, tm, head, cases.text, tail, rule);
    lemma_regroup(head + cases.text, indent, "    _ => {}\n"@, indent, "}\n"@);
}

#[verifier::spinoff_prover]
#[verifier::rlimit(40)]
proof fn lemma_cases_keep_rule(
    te: TypeEnv,
    tm: TermEnv,
    depth: int,
    edges: Seq<TrieEdge>,
    order: Seq<int>,
    i: int,
    end: int,
    p: int,
    input_ty: TypeId,
    rule: ExprSequence,
    indent: Seq<char>,
    bindings: Bindings,
)
    requires
        is_order_of(order, edges),
        0 <= i <= p < end <= order.len(),
        can_apply(te, tm, edges[order[p]].node, rule),
        forall|k: int|
            i <= k < end ==> compared_variant(
                (#[trigger] edge_at(edges, order, k)).symbol,
            ) is Some,
    ensures
        writes_rule(
            te,
            tm,
            cases_run(te, tm, depth, edges, order, i, end, input_ty, indent, bindings).text,
            rule,
        ),
    decreases edges, end - i, 0int,
{
    let none = Seq::<char>::empty();
    let edge = edge_at(edges, order, i);
    let run = cases_run(te, tm, depth, edges, order, i, end, input_ty, indent, bindings);
    match edge.symbol {
        TrieSymbol::Match { op: PatternInst::MatchVariant { arg_tys, variant, .. } } => {
            let id = InstId(depth as usize);
            let info = variants_of(te, input_ty)[variant.0 as int];
            let fields = info.fields@;
            let bound = bind_fields(
                te,
                bindings,
                fields,
                id,
                min_len(arg_tys@.len(), fields.len()),
            );
            let inner = indent + "        "@;
            let sub = body_run(te, tm, depth + 1, edge.node, inner, bound);
            let rest = cases_run(
                te,
                tm,
                depth,
                edges,
                order,
                i + 1,
                end,
                input_ty,
                indent,
                sub.bindings,
            );
            let head = indent + "    &"@ + te.sym_text(te.type_at(input_ty).name_sym()) + "::"@
                + te.sym_text(info.name) + " "@ + braced(field_binders(te, fields, arg_tys@, id))
                + " => {\n"@;
            let close = indent + "    }\n"@;
            assert(head + sub.text + (close + rest.text) =~= run.text);
            assert(head + sub.text + close + rest.text + none =~= run.text);
            if p == i {
                law_no_rule_lost(te, tm, depth + 1, edge.node, rule, inner, bound);
                lemma_writes_within(te, tm, head, sub.text, close + rest.text, rule);
            } else {
                lemma_cases_keep_rule(
                    te,
                    tm,
                    depth,
                    edges,
                    order,
                    i + 1,
                    end,
                    p,
                    input_ty,
                    rule,
                    indent,
                    sub.bindings,
                );
                lemma_writes_within(te, tm, head + sub.text + close, rest.text, none, rule);
            }
        },
        _ => {},
    }
}

proof fn lemma_holds_inner(text: Seq<char>, middle: Seq<char>, part: Seq<char>)
    requires
        holds(text, middle),
        holds(middle, part),
    ensures
        holds(text, part),
{
    let n = choose|n: int| holds_at(text, middle, n);
    let before = text.take(n);
    let behind = text.skip(n + middle.len());
    assert(middle == text.subrange(n, n + middle.len()));
    assert(before + middle + behind =~= text);
    law_holds_within(before, middle, behind, part);
}

/// The file holds the code for every rule that can apply in the trie of a term whose constructor
/// is generated.
pub proof fn law_no_rule_lost_in_file(
    te: TypeEnv,
    tm: TermEnv,
    tries: Map<usize, TrieNode>,
    t: usize,
    rule: ExprSequence,
)
    requires
        t < tm.terms@.len(),
        tries.contains_key(t),
        tm.terms@[t as int].kind matches TermKind::Decl {
            constructor_kind: Some(ConstructorKind::InternalConstructor),
            ..
        },
        can_apply(te, tm, tries[t], rule),
    ensures
        writes_rule(te, tm, codegen_text(te, tm, tries), rule),
{
    let term = tm.terms@[t as int];
    let run = root_run(te, tm, tries[t]);
    let function = function_text(te, tm, term, tries[t]);
    let body = function_body(te, tm, tries[t]);
    let none = Seq::<char>::empty();
    law_no_rule_lost(te, tm, 0, tries[t], rule, "    "@, Map::empty());
    let tail = if run.returned {
        ""@
    } else {
        "    return None;\n"@
    };
    lemma_writes_within(te, tm, none, run.text, tail, rule);
    assert(none + run.text + tail =~= body);
    lemma_writes_within(te, tm, function_head(te, term), body, "}\n"@, rule);
    law_functions_complete(te, tm, tries, t);
    let (indent, bindings) = choose|indent: Seq<char>, bindings: Bindings|
        holds(function, #[trigger] rule_text(te, tm, rule, indent, bindings));
    let part = rule_text(te, tm, rule, indent, bindings);
    lemma_holds_inner(codegen_text(te, tm, tries), function, part);
}

} // verus!
