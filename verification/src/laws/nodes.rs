//! What the code for a node of a trie says: every rule that can apply is written, edges follow one
//! another, and an edge in a `match` says what it would say on its own.

use crate::ir::{ExprSequence, InstId, PatternInst, Value};
use crate::laws::declared::holds;
use crate::laws::edges::law_group;
use crate::laws::matching::{law_if_let, variant_pattern};
use crate::output::{
    body_run, braced, cases_run, compares_to, edge_at, edge_run, edges_run, field_binders,
    group_end, group_run, is_order_of, joins_group, pattern_run, result_run, value_text, Bindings,
};
use crate::sema::{TermEnv, Type, TypeEnv, TypeId, VariantId};
use crate::text::decimal;
use crate::trie::{edge_order, TrieEdge, TrieNode, TrieSymbol};
use vstd::prelude::*;

verus! {

/// Where a rule applies, its file and line are noted, its result is built and returned. Where
/// nothing is left to try nothing is written.
pub proof fn law_rule(
    te: TypeEnv,
    tm: TermEnv,
    depth: int,
    prio: i64,
    output: ExprSequence,
    indent: Seq<char>,
    bindings: Bindings,
)
    ensures
        ({
            let run = body_run(te, tm, depth, TrieNode::Leaf { prio, output }, indent, bindings);
            let result = result_run(te, tm, output, indent, bindings);
            &&& run.text == indent + "// Rule at "@ + (te.filenames@[output.pos.file as int]@
                + " line "@ + decimal(output.pos.line as nat)) + ".\n"@ + result.text
            &&& run.bindings == result.bindings
            &&& run.returned
        }),
        ({
            let run = body_run(te, tm, depth, TrieNode::Empty, indent, bindings);
            run.text.len() == 0 && run.bindings == bindings && !run.returned
        }),
{
    reveal_strlit("");
}

/// An edge that needs no match is the code for its node. One that always matches is the line for
/// its instruction and then the code for its node. Any other one is the same with the code for
/// the node indented by four more spaces, and the end of the block. The instruction is numbered
/// by the depth, and the node finds bound what the instruction binds.
pub proof fn law_edge_alone(
    te: TypeEnv,
    tm: TermEnv,
    depth: int,
    edge: TrieEdge,
    indent: Seq<char>,
    bindings: Bindings,
)
    ensures
        ({
            let run = edge_run(te, tm, depth, edge, indent, bindings);
            match edge.symbol {
                TrieSymbol::EndOfMatch => {
                    let node = body_run(te, tm, depth + 1, edge.node, indent, bindings);
                    &&& run.text == node.text
                    &&& run.bindings == node.bindings
                    &&& run.returned == node.returned
                },
                TrieSymbol::Match { op } => {
                    let line = pattern_run(te, tm, InstId(depth as usize), op, indent, bindings);
                    let inner = if op.infallible() {
                        indent
                    } else {
                        indent + "    "@
                    };
                    let node = body_run(te, tm, depth + 1, edge.node, inner, line.bindings);
                    &&& op.infallible() ==> run.text == line.text + node.text
                    &&& !op.infallible() ==> run.text == line.text + node.text + indent + "}\n"@
                    &&& run.bindings == node.bindings
                    &&& run.returned == node.returned
                },
            }
        }),
{
}

/// The edges of a node are tried in their order, from the first.
pub proof fn law_decision(
    te: TypeEnv,
    tm: TermEnv,
    depth: int,
    edges: Vec<TrieEdge>,
    indent: Seq<char>,
    bindings: Bindings,
)
    ensures
        ({
            let node = TrieNode::Decision { edges };
            let run = body_run(te, tm, depth, node, indent, bindings);
            let all = edges_run(
                te,
                tm,
                depth,
                edges@,
                edge_order(edges@),
                0,
                indent,
                bindings,
                false,
            );
            run.text == all.text && run.bindings == all.bindings && run.returned == all.returned
        }),
{
}

/// What is written for the edges from place `i` on is the code for the group or the edge there,
/// and then what is written for the edges behind it, which find bound what that code binds.
/// Nothing is written behind an edge alone if that edge always matches and its code is known to
/// return, and only then. Behind the last edge there is nothing.
#[verifier::spinoff_prover]
#[verifier::rlimit(40)]
pub proof fn law_edges_follow(
    te: TypeEnv,
    tm: TermEnv,
    depth: int,
    edges: Seq<TrieEdge>,
    order: Seq<int>,
    i: int,
    indent: Seq<char>,
    bindings: Bindings,
    returned: bool,
)
    requires
        0 <= i <= order.len(),
        is_order_of(order, edges),
    ensures
        ({
            let run = edges_run(te, tm, depth, edges, order, i, indent, bindings, returned);
            let end = group_end(edges, order, i, i);
            let group = group_run(te, tm, depth, edges, order, i, end, indent, bindings);
            let edge = edges[order[i]];
            let one = edge_run(te, tm, depth, edge, indent, bindings);
            if i == order.len() {
                run.text.len() == 0 && run.bindings == bindings && run.returned == returned
            } else if end >= i + 2 {
                let rest = edges_run(
                    te,
                    tm,
                    depth,
                    edges,
                    order,
                    end,
                    indent,
                    group.bindings,
                    returned,
                );
                &&& run.text == group.text + rest.text
                &&& run.bindings == rest.bindings
                &&& run.returned == rest.returned
            } else {
                match edge.symbol {
                    TrieSymbol::Match { op } => if op.infallible() && one.returned {
                        &&& run.text == one.text
                        &&& run.bindings == one.bindings
                        &&& run.returned
                    } else {
                        let rest = edges_run(
                            te,
                            tm,
                            depth,
                            edges,
                            order,
                            i + 1,
                            indent,
                            one.bindings,
                            returned,
                        );
                        &&& run.text == one.text + rest.text
                        &&& run.bindings == rest.bindings
                        &&& run.returned == rest.returned
                    },
                    TrieSymbol::EndOfMatch => {
                        let rest = edges_run(
                            te,
                            tm,
                            depth,
                            edges,
                            order,
                            i + 1,
                            indent,
                            one.bindings,
                            one.returned,
                        );
                        &&& run.text == one.text + rest.text
                        &&& run.bindings == rest.bindings
                        &&& run.returned == rest.returned
                    },
                }
            }
        }),
{
    reveal_strlit("");
    if i < order.len() {
        law_group(edges, order, i);
    }
}

/// The value that an edge compares to a variant, where it does so.
pub open spec fn tested_value(edge: TrieEdge) -> Option<Value> {
    match edge.symbol {
        TrieSymbol::Match { op: PatternInst::MatchVariant { input, .. } } => Some(input),
        _ => None,
    }
}

/// The variant that an edge compares a value to, where it does so.
pub open spec fn tested_variant(edge: TrieEdge) -> Option<VariantId> {
    match edge.symbol {
        TrieSymbol::Match { op: PatternInst::MatchVariant { variant, .. } } => Some(variant),
        _ => None,
    }
}

/// A group is as long as it can be. It holds an edge exactly where its first edge compares a value
/// to a variant, and all its edges compare that value, to different variants; the edge behind it
/// does not compare that value, or compares it to a variant that an edge of the group does.
pub proof fn law_group_is_whole(edges: Seq<TrieEdge>, order: Seq<int>, i: int)
    requires
        0 <= i < order.len(),
    ensures
        ({
            let end = group_end(edges, order, i, i);
            let first = tested_value(edges[order[i]]);
            &&& i <= end <= order.len()
            &&& end > i <==> first is Some
            &&& forall|k: int|
                i <= k < end ==> first is Some && tested_value(edges[#[trigger] order[k]]) == first
            &&& forall|k: int, l: int|
                i <= k < l < end ==> tested_variant(edges[#[trigger] order[k]]) != tested_variant(
                    edges[#[trigger] order[l]],
                )
            &&& i < end < order.len() ==> {
                ||| tested_value(edges[order[end]]) != first
                ||| exists|k: int|
                    i <= k < end && #[trigger] tested_variant(edges[order[k]]) == tested_variant(
                        edges[order[end]],
                    )
            }
        }),
{
    law_group(edges, order, i);
    lemma_group_reaches(edges, order, i, i);
    let end = group_end(edges, order, i, i);
    let first = tested_value(edges[order[i]]);
    assert(edge_at(edges, order, i) == edges[order[i]]);
    assert forall|k: int| i <= k < end implies first is Some && tested_value(
        edges[#[trigger] order[k]],
    ) == first by {
        assert(edge_at(edges, order, k) == edges[order[k]]);
    }
    assert forall|k: int, l: int| i <= k < l < end implies tested_variant(
        edges[#[trigger] order[k]],
    ) != tested_variant(edges[#[trigger] order[l]]) by {
        assert(edge_at(edges, order, k) == edges[order[k]]);
        assert(edge_at(edges, order, l) == edges[order[l]]);
    }
}

/// Two edges next to each other that compare a value to variants stand in one group exactly where
/// they compare one value to two variants; an edge that compares no value to a variant stands in
/// no group.
pub proof fn law_neighbours(
    edges: Seq<TrieEdge>,
    order: Seq<int>,
    i: int,
    v: Value,
    t: TypeId,
    ts: Vec<TypeId>,
    m: VariantId,
    x: Value,
    u: TypeId,
    us: Vec<TypeId>,
    n: VariantId,
)
    requires
        0 <= i < order.len() - 1,
    ensures
        ({
            let end = group_end(edges, order, i, i);
            let a = PatternInst::MatchVariant { input: v, input_ty: t, arg_tys: ts, variant: m };
            let b = PatternInst::MatchVariant { input: x, input_ty: u, arg_tys: us, variant: n };
            let first = edges[order[i]].symbol;
            let second = edges[order[i + 1]].symbol;
            &&& first == (TrieSymbol::Match { op: a }) && second == (TrieSymbol::Match { op: b })
                ==> (end >= i + 2 <==> v == x && m != n)
            &&& first == (TrieSymbol::Match { op: a }) ==> end >= i + 1
            &&& first is EndOfMatch ==> end == i
            &&& first matches TrieSymbol::Match { op } ==> (!(op is MatchVariant) ==> end == i)
        }),
{
    law_group_is_whole(edges, order, i);
    let end = group_end(edges, order, i, i);
    if end >= i + 2 {
        assert(tested_variant(edges[order[i]]) != tested_variant(edges[order[i + 1]]));
        assert(tested_value(edges[order[i + 1]]) == tested_value(edges[order[i]]));
    }
    if end == i + 1 {
        assert(edges[order[end]] == edges[order[i + 1]]);
    }
}

proof fn lemma_group_reaches(edges: Seq<TrieEdge>, order: Seq<int>, i: int, j: int)
    requires
        0 <= i <= j <= order.len(),
        i < order.len(),
        j > i ==> tested_value(edges[order[i]]) is Some,
    ensures
        ({
            let end = group_end(edges, order, i, j);
            let first = tested_value(edges[order[i]]);
            &&& end >= j
            &&& end > i <==> j > i || first is Some
            &&& i < end < order.len() ==> {
                ||| tested_value(edges[order[end]]) != first
                ||| exists|k: int|
                    i <= k < end && #[trigger] tested_variant(edges[order[k]]) == tested_variant(
                        edges[order[end]],
                    )
            }
        }),
    decreases order.len() - j,
{
    if j < order.len() {
        let first = edge_at(edges, order, i);
        let edge = edge_at(edges, order, j);
        if tested_value(edge) is Some && tested_value(edge) == tested_value(first) && !(exists|
            k: int,
        |
            i <= k < j && #[trigger] tested_variant(edges[order[k]]) == tested_variant(edge)) {
            let variant = tested_variant(edge)->0;
            assert forall|k: int| i <= k < j implies !compares_to(
                #[trigger] edge_at(edges, order, k),
                variant,
            ) by {
                assert(tested_variant(edges[order[k]]) != tested_variant(edge));
            }
            assert(joins_group(edges, order, i, j));
        }
        if joins_group(edges, order, i, j) {
            lemma_group_reaches(edges, order, i, j + 1);
        }
    }
}

/// A `match` is on the very expression that an `if let` for its first edge is on, and that
/// expression is a reference to the enum: the variable has `&` in front of it exactly where it
/// holds the enum itself. It has the cases, a last case for all else, and the end of the block.
#[verifier::spinoff_prover]
#[verifier::rlimit(40)]
pub proof fn law_match_on_reference(
    te: TypeEnv,
    tm: TermEnv,
    depth: int,
    edges: Seq<TrieEdge>,
    order: Seq<int>,
    i: int,
    end: int,
    input: Value,
    input_ty: TypeId,
    arg_tys: Vec<TypeId>,
    variant: VariantId,
    id: InstId,
    indent: Seq<char>,
    bindings: Bindings,
)
    requires
        edges[order[i]].symbol == (TrieSymbol::Match {
            op: PatternInst::MatchVariant { input, input_ty, arg_tys, variant },
        }),
        te.types@[input_ty.0 as int] is Enum,
    ensures
        ({
            let run = group_run(te, tm, depth, edges, order, i, end, indent, bindings);
            let cases = cases_run(te, tm, depth, edges, order, i, end, input_ty, indent, bindings);
            let op = PatternInst::MatchVariant { input, input_ty, arg_tys, variant };
            let alone = pattern_run(te, tm, id, op, indent, bindings);
            let matched = if te.types@[bindings[input].1.0 as int] is Enum && !bindings[input].0 {
                "&"@ + value_text(input)
            } else {
                value_text(input)
            };
            &&& run.text == indent + "match "@ + matched + " {\n"@ + cases.text + indent
                + "    _ => {}\n"@ + indent + "}\n"@
            &&& alone.text == indent + "if let "@ + variant_pattern(
                te,
                input_ty,
                variant,
                arg_tys@,
                id,
            ) + " = "@ + matched + " {\n"@
            &&& run.bindings == cases.bindings
            &&& !run.returned
        }),
{
    let op = PatternInst::MatchVariant { input, input_ty, arg_tys, variant };
    law_if_let(te, tm, id, input, input_ty, arg_tys, variant, indent, bindings);
}

/// Each case of a `match` has the pattern that an `if let` for its edge would have, and binds what
/// that would bind; in it stands the code for the edge's node, indented by eight more spaces. The
/// cases follow one another, and behind the last there is nothing.
#[verifier::spinoff_prover]
#[verifier::rlimit(40)]
pub proof fn law_cases_follow(
    te: TypeEnv,
    tm: TermEnv,
    depth: int,
    edges: Seq<TrieEdge>,
    order: Seq<int>,
    i: int,
    end: int,
    value: Value,
    input: Value,
    own_ty: TypeId,
    input_ty: TypeId,
    arg_tys: Vec<TypeId>,
    variant: VariantId,
    indent: Seq<char>,
    bindings: Bindings,
)
    requires
        0 <= i < end <= order.len(),
        is_order_of(order, edges),
        edges[order[i]].symbol == (TrieSymbol::Match {
            op: PatternInst::MatchVariant { input, input_ty: own_ty, arg_tys, variant },
        }),
        te.types@[input_ty.0 as int] is Enum,
    ensures
        ({
            let id = InstId(depth as usize);
            let run = cases_run(te, tm, depth, edges, order, i, end, input_ty, indent, bindings);
            let op = PatternInst::MatchVariant { input: value, input_ty, arg_tys, variant };
            let bound = pattern_run(te, tm, id, op, indent, bindings).bindings;
            let node = body_run(
                te,
                tm,
                depth + 1,
                edges[order[i]].node,
                indent + "        "@,
                bound,
            );
            let rest = cases_run(
                te,
                tm,
                depth,
                edges,
                order,
                i + 1,
                end,
                input_ty,
                indent,
                node.bindings,
            );
            &&& run.text == indent + "    "@ + variant_pattern(
                te,
                input_ty,
                variant,
                arg_tys@,
                id,
            ) + " => {\n"@ + node.text + indent + "    }\n"@ + rest.text
            &&& run.bindings == rest.bindings
        }),
        cases_run(te, tm, depth, edges, order, end, end, input_ty, indent, bindings).text.len()
            == 0,
        cases_run(te, tm, depth, edges, order, end, end, input_ty, indent, bindings).bindings
            == bindings,
{
    reveal_strlit("");
    reveal_strlit("    ");
    reveal_strlit("&");
    reveal_strlit("    &");
    let id = InstId(depth as usize);
    let run = cases_run(te, tm, depth, edges, order, i, end, input_ty, indent, bindings);
    let op = PatternInst::MatchVariant { input: value, input_ty, arg_tys, variant };
    let bound = pattern_run(te, tm, id, op, indent, bindings).bindings;
    let inner = indent + "        "@;
    let node = body_run(te, tm, depth + 1, edges[order[i]].node, inner, bound);
    let rest = cases_run(
        te,
        tm,
        depth,
        edges,
        order,
        i + 1,
        end,
        input_ty,
        indent,
        node.bindings,
    );
    assert("    &"@ =~= "    "@ + "&"@);
    if let Type::Enum { name, variants, .. } = te.types@[input_ty.0 as int] {
        let info = variants@[variant.0 as int];
        lemma_case_text(
            indent,
            te.syms@[name.0 as int]@,
            te.syms@[info.name.0 as int]@,
            braced(field_binders(te, info.fields@, arg_tys@, id)),
        );
    }
}

proof fn lemma_case_text(
    indent: Seq<char>,
    name: Seq<char>,
    variant: Seq<char>,
    fields: Seq<char>,
)
    requires
        "    &"@ == "    "@ + "&"@,
    ensures
        indent + "    &"@ + name + "::"@ + variant + " "@ + fields == indent + "    "@ + ("&"@
            + name + "::"@ + variant + " "@ + fields),
{
    assert(indent + "    &"@ + name + "::"@ + variant + " "@ + fields =~= indent + "    "@ + ("&"@
        + name + "::"@ + variant + " "@ + fields));
}

} // verus!
