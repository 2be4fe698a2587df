//! Every block that the generated code opens it closes, and code that is said to return does so
//! outside all blocks of its own.

use crate::ir::{ExprInst, ExprSequence, InstId, PatternInst};
use crate::laws::blocks::{
    balanced, group_blocks, lemma_brace_literals, lemma_plain_literals, level, opens_block, plain,
};
use crate::laws::pieces::{all_plain, group_pieces, plain_names, plain_syms};
use crate::output::{
    always_taken, argument_texts, bind_fields, binder_text, body_run, borrowed_text, borrowed_texts,
    can_bind_field, can_bind_fields, can_init, cases_run, compared_input, edge_at, edge_run,
    edges_run, expr_run, expr_step, field_binders, field_inits, group_end, group_run, init_lines,
    min_len, output_texts, owned_text, pattern_run, pattern_value, result_run, value_text,
    variants_of, Bindings,
};
use crate::sema::{Field, TermEnv, TypeEnv, TypeId};
use crate::trie::{edge_order, TrieEdge, TrieNode, TrieSymbol};
use vstd::prelude::*;

verus! {

broadcast use {group_blocks, group_pieces};

/// Whether a text ends with the end of a line.
pub open spec fn ends_line(text: Seq<char>) -> bool {
    text.len() > 0 && text.last() == '\n'
}

/// Whether a text is made of whole lines.
pub open spec fn whole_lines(text: Seq<char>) -> bool {
    text.len() == 0 || ends_line(text)
}

/// Whether a text is made of whole lines, closes all blocks that it opens, and no others.
pub open spec fn whole_code(text: Seq<char>) -> bool {
    balanced(text) && whole_lines(text)
}

/// Whether a line of a text, outside all blocks, starts with the indentation and a `return`,
/// where `n` characters stand before the line.
pub open spec fn returns_at(text: Seq<char>, indent: Seq<char>, n: int) -> bool {
    &&& 0 <= n <= text.len()
    &&& level(text.take(n), 0) == 0
    &&& whole_lines(text.take(n))
    &&& (indent + "return "@).is_prefix_of(text.skip(n))
}

/// Whether a text has a line, outside all blocks, that starts with the indentation and a `return`.
pub open spec fn returns_outside(text: Seq<char>, indent: Seq<char>) -> bool {
    exists|n: int| returns_at(text, indent, n)
}

/// A text that returns outside all blocks still does when more follows.
pub proof fn law_returns_before(a: Seq<char>, b: Seq<char>, indent: Seq<char>)
    requires
        returns_outside(a, indent),
    ensures
        returns_outside(a + b, indent),
{
    let n = choose|n: int| returns_at(a, indent, n);
    assert((a + b).take(n) =~= a.take(n));
    assert((a + b).skip(n) =~= a.skip(n) + b);
    assert(returns_at(a + b, indent, n));
}

/// A text that returns outside all blocks still does behind whole code.
pub proof fn law_returns_after(a: Seq<char>, b: Seq<char>, indent: Seq<char>)
    requires
        whole_code(a),
        returns_outside(b, indent),
    ensures
        returns_outside(a + b, indent),
{
    let n = choose|n: int| returns_at(b, indent, n);
    let m = a.len() + n;
    assert((a + b).take(m) =~= a + b.take(n));
    assert((a + b).skip(m) =~= b.skip(n));
    assert(returns_at(a + b, indent, m));
}

/// Whole code twice is whole code.
pub broadcast proof fn law_whole_code_concat(a: Seq<char>, b: Seq<char>)
    requires
        whole_code(a),
        whole_code(b),
    ensures
        #[trigger] whole_code(a + b),
{
}

/// The fixed texts that end a line, and the empty one.
pub proof fn lemma_line_ends()
    ensures
        ends_line(";\n"@),
        ends_line(",\n"@),
        ends_line(");\n"@),
        ends_line(".\n"@),
        ends_line("\n"@),
        ends_line("};\n"@),
        ends_line("}\n"@),
        ends_line("    }\n"@),
        ends_line("    },\n"@),
        ends_line(" {\n"@),
        ends_line("() {\n"@),
        ends_line("    return None;\n"@),
        ends_line("\nuse super::*;  // Pulls in all external types.\n"@),
        ""@.len() == 0,
{
    reveal_strlit(";\n");
    reveal_strlit(",\n");
    reveal_strlit(");\n");
    reveal_strlit(".\n");
    reveal_strlit("\n");
    reveal_strlit("};\n");
    reveal_strlit("}\n");
    reveal_strlit("    }\n");
    reveal_strlit("    },\n");
    reveal_strlit(" {\n");
    reveal_strlit("() {\n");
    reveal_strlit("    return None;\n");
    reveal_strlit("\nuse super::*;  // Pulls in all external types.\n");
    reveal_strlit("");
}

proof fn lemma_init_lines(indent: Seq<char>, inits: Seq<Seq<char>>, n: nat)
    requires
        plain(indent),
        all_plain(inits),
        n <= inits.len(),
    ensures
        plain(init_lines(indent, inits, n)),
    decreases n,
{
    lemma_plain_literals();
    if n > 0 {
        lemma_init_lines(indent, inits, (n - 1) as nat);
        assert(plain(inits[n - 1]));
    }
}

/// The line of an expression instruction is whole code, and the results that it names are plain.
pub proof fn law_expr_step_nesting(
    te: TypeEnv,
    tm: TermEnv,
    id: InstId,
    inst: ExprInst,
    indent: Seq<char>,
    bindings: Bindings,
)
    requires
        plain_syms(te),
        plain(indent),
        expr_step(te, tm, id, inst, indent, bindings).valid,
    ensures
        whole_code(expr_step(te, tm, id, inst, indent, bindings).text),
        forall|i: int|
            0 <= i < expr_step(te, tm, id, inst, indent, bindings).results.len() ==> plain(
                (#[trigger] expr_step(te, tm, id, inst, indent, bindings).results[i]).1,
            ),
{
    lemma_plain_literals();
    lemma_brace_literals();
    lemma_line_ends();
    match inst {
        ExprInst::CreateVariant { inputs, ty, variant } => {
            let fields = variants_of(te, ty)[variant.0 as int].fields@;
            let inits = field_inits(te, fields, inputs@, bindings);
            assert forall|i: int| 0 <= i < inits.len() implies plain(#[trigger] inits[i]) by {
                assert(can_init(te, bindings, fields[i], inputs@[i]));
                assert(plain(te.sym_text(fields[i].name)));
                assert(plain(owned_text(bindings, inputs@[i].0)));
            }
            lemma_init_lines(indent, inits, inits.len());
        },
        ExprInst::Construct { inputs, .. } => {
            let arguments = argument_texts(te, bindings, inputs@);
            assert forall|i: int| 0 <= i < arguments.len() implies plain(
                #[trigger] arguments[i],
            ) by {
                assert(plain(owned_text(bindings, inputs@[i].0)));
                assert(plain(borrowed_text(te, bindings, inputs@[i].0)));
            }
        },
        _ => {},
    }
}

/// The lines of expression instructions are whole code, and the results that they name are plain.
pub proof fn law_expr_run_nesting(
    te: TypeEnv,
    tm: TermEnv,
    insts: Seq<ExprInst>,
    n: nat,
    indent: Seq<char>,
    bindings: Bindings,
)
    requires
        plain_syms(te),
        plain(indent),
        expr_run(te, tm, insts, n, indent, bindings).valid,
    ensures
        whole_code(expr_run(te, tm, insts, n, indent, bindings).text),
        forall|i: int|
            0 <= i < expr_run(te, tm, insts, n, indent, bindings).results.len() ==> plain(
                (#[trigger] expr_run(te, tm, insts, n, indent, bindings).results[i]).1,
            ),
    decreases n,
{
    lemma_plain_literals();
    lemma_line_ends();
    if n > 0 {
        let before = expr_run(te, tm, insts, (n - 1) as nat, indent, bindings);
        law_expr_run_nesting(te, tm, insts, (n - 1) as nat, indent, bindings);
        law_expr_step_nesting(
            te,
            tm,
            InstId((n - 1) as usize),
            insts[n - 1],
            indent,
            before.bindings,
        );
        law_whole_code_concat(
            before.text,
            expr_step(
                te,
                tm,
                InstId((n - 1) as usize),
                insts[n - 1],
                indent,
                before.bindings,
            ).text,
        );
    }
}

/// Expression instructions with the return of their result are whole code that returns.
pub proof fn law_result_nesting(
    te: TypeEnv,
    tm: TermEnv,
    s: ExprSequence,
    indent: Seq<char>,
    bindings: Bindings,
)
    requires
        plain_syms(te),
        plain(indent),
        result_run(te, tm, s, indent, bindings).valid,
    ensures
        whole_code(result_run(te, tm, s, indent, bindings).text),
        returns_outside(result_run(te, tm, s, indent, bindings).text, indent),
{
    lemma_plain_literals();
    lemma_line_ends();
    let run = expr_run(te, tm, s.insts@, s.insts@.len(), indent, bindings);
    law_expr_run_nesting(te, tm, s.insts@, s.insts@.len(), indent, bindings);
    let result = run.results[0].1;
    let line = indent + "return Some("@ + result + ");\n"@;
    assert(whole_code(line));
    law_whole_code_concat(run.text, line);
    assert(returns_at(line, indent, 0)) by {
        reveal_strlit("return ");
        reveal_strlit("return Some(");
        assert(line.take(0) =~= ""@);
        assert(line.skip(0) =~= line);
    }
    law_returns_after(run.text, line, indent);
}

proof fn lemma_field_binders(te: TypeEnv, fields: Seq<Field>, arg_tys: Seq<TypeId>, id: InstId)
    requires
        plain_syms(te),
        can_bind_fields(te, fields, arg_tys),
    ensures
        all_plain(field_binders(te, fields, arg_tys, id)),
{
    lemma_plain_literals();
    let binders = field_binders(te, fields, arg_tys, id);
    assert forall|i: int| 0 <= i < binders.len() implies plain(#[trigger] binders[i]) by {
        assert(can_bind_field(te, fields[i], arg_tys[i]));
        assert(plain(te.sym_text(fields[i].name)));
        assert(plain(binder_text(te, pattern_value(id, i), true, arg_tys[i])));
    }
}

proof fn lemma_extract_nesting(
    te: TypeEnv,
    tm: TermEnv,
    id: InstId,
    op: PatternInst,
    indent: Seq<char>,
    bindings: Bindings,
)
    requires
        plain_syms(te),
        plain(indent),
        pattern_run(te, tm, id, op, indent, bindings).valid,
        op is Extract,
    ensures
        ends_line(pattern_run(te, tm, id, op, indent, bindings).text),
        op.infallible() ==> balanced(pattern_run(te, tm, id, op, indent, bindings).text),
        !op.infallible() ==> opens_block(pattern_run(te, tm, id, op, indent, bindings).text),
{
    lemma_plain_literals();
    lemma_brace_literals();
    lemma_line_ends();
    match op {
        PatternInst::Extract { inputs, output_tys, .. } => {
            let arguments = borrowed_texts(te, bindings, inputs@);
            assert forall|i: int| 0 <= i < arguments.len() implies plain(
                #[trigger] arguments[i],
            ) by {
                assert(plain(borrowed_text(te, bindings, inputs@[i])));
            }
            let outputs = output_texts(id, output_tys@.len());
            assert forall|i: int| 0 <= i < outputs.len() implies plain(#[trigger] outputs[i]) by {
                assert(plain(value_text(pattern_value(id, i))));
            }
        },
        _ => {},
    }
}

proof fn lemma_pattern_expr_nesting(
    te: TypeEnv,
    tm: TermEnv,
    id: InstId,
    op: PatternInst,
    indent: Seq<char>,
    bindings: Bindings,
)
    requires
        plain_syms(te),
        plain(indent),
        pattern_run(te, tm, id, op, indent, bindings).valid,
        op is Expr,
    ensures
        ends_line(pattern_run(te, tm, id, op, indent, bindings).text),
        op.infallible() ==> balanced(pattern_run(te, tm, id, op, indent, bindings).text),
        !op.infallible() ==> opens_block(pattern_run(te, tm, id, op, indent, bindings).text),
{
    lemma_plain_literals();
    lemma_brace_literals();
    lemma_line_ends();
    match op {
        PatternInst::Expr { seq, .. } => {
            if seq.const_int() is None {
                law_result_nesting(te, tm, seq, indent + "    "@, bindings);
            }
        },
        _ => {},
    }
}

/// A pattern instruction that always matches is whole code; any other one is whole lines that
/// leave one block open.
#[verifier::spinoff_prover]
#[verifier::rlimit(40)]
pub proof fn law_pattern_nesting(
    te: TypeEnv,
    tm: TermEnv,
    id: InstId,
    op: PatternInst,
    indent: Seq<char>,
    bindings: Bindings,
)
    requires
        plain_syms(te),
        plain(indent),
        pattern_run(te, tm, id, op, indent, bindings).valid,
    ensures
        ends_line(pattern_run(te, tm, id, op, indent, bindings).text),
        op.infallible() ==> balanced(pattern_run(te, tm, id, op, indent, bindings).text),
        !op.infallible() ==> opens_block(pattern_run(te, tm, id, op, indent, bindings).text),
{
    lemma_plain_literals();
    lemma_brace_literals();
    lemma_line_ends();
    match op {
        PatternInst::MatchVariant { input_ty, arg_tys, variant, .. } => {
            let fields = variants_of(te, input_ty)[variant.0 as int].fields@;
            lemma_field_binders(te, fields, arg_tys@, id);
        },
        PatternInst::Extract { .. } => {
            lemma_extract_nesting(te, tm, id, op, indent, bindings);
        },
        PatternInst::Expr { .. } => {
            lemma_pattern_expr_nesting(te, tm, id, op, indent, bindings);
        },
        _ => {},
    }
}

/// The code for a node is whole code, and returns outside all blocks where it is said to.
pub proof fn law_body_nesting(
    te: TypeEnv,
    tm: TermEnv,
    depth: int,
    node: TrieNode,
    indent: Seq<char>,
    bindings: Bindings,
)
    requires
        plain_names(te),
        plain(indent),
        body_run(te, tm, depth, node, indent, bindings).valid,
    ensures
        whole_code(body_run(te, tm, depth, node, indent, bindings).text),
        body_run(te, tm, depth, node, indent, bindings).returned ==> returns_outside(
            body_run(te, tm, depth, node, indent, bindings).text,
            indent,
        ),
    decreases node, 0int, 0int,
{
    lemma_plain_literals();
    lemma_line_ends();
    match node {
        TrieNode::Empty => {},
        TrieNode::Leaf { output, .. } => {
            let run = result_run(te, tm, output, indent, bindings);
            law_result_nesting(te, tm, output, indent, bindings);
            let file = te.filenames@[output.pos.file as int]@;
            assert(plain(file));
            let comment = indent + "// Rule at "@ + output.pos.line_text(te.filenames@) + ".\n"@;
            assert(whole_code(comment));
            law_whole_code_concat(comment, run.text);
            law_returns_after(comment, run.text, indent);
        },
        TrieNode::Decision { edges } => {
            law_edges_nesting(
                te,
                tm,
                depth,
                edges@,
                edge_order(edges@),
                0,
                indent,
                bindings,
                false,
            );
        },
    }
}

/// The code for some edges is whole code, and returns outside all blocks where it is said to and
/// the code before it is not.
#[verifier::spinoff_prover]
#[verifier::rlimit(40)]
pub proof fn law_edges_nesting(
    te: TypeEnv,
    tm: TermEnv,
    depth: int,
    edges: Seq<TrieEdge>,
    order: Seq<int>,
    i: int,
    indent: Seq<char>,
    bindings: Bindings,
    returned: bool,
)
    requires
        plain_names(te),
        plain(indent),
        edges_run(te, tm, depth, edges, order, i, indent, bindings, returned).valid,
    ensures
        whole_code(edges_run(te, tm, depth, edges, order, i, indent, bindings, returned).text),
        edges_run(te, tm, depth, edges, order, i, indent, bindings, returned).returned && !returned
            ==> returns_outside(
            edges_run(te, tm, depth, edges, order, i, indent, bindings, returned).text,
            indent,
        ),
    decreases edges, order.len() - i, 2int,
{
    lemma_plain_literals();
    lemma_line_ends();
    let run = edges_run(te, tm, depth, edges, order, i, indent, bindings, returned);
    if 0 <= i < order.len() {
        let end = group_end(edges, order, i, i);
        let edge = edges[order[i]];
        if end - i > 1 && end <= order.len() {
            let group = group_run(te, tm, depth, edges, order, i, end, indent, bindings);
            let rest = edges_run(
                te,
                tm,
                depth,
                edges,
                order,
                end,
                indent,
                group.bindings,
                returned,
            );
            law_group_nesting(te, tm, depth, edges, order, i, end, indent, bindings);
            law_edges_nesting(te, tm, depth, edges, order, end, indent, group.bindings, returned);
            law_whole_code_concat(group.text, rest.text);
            if rest.returned && !returned {
                law_returns_after(group.text, rest.text, indent);
            }
        } else {
            let one = edge_run(te, tm, depth, edge, indent, bindings);
            assert(one.valid);
            law_edge_nesting(te, tm, depth, edge, indent, bindings);
            if !(always_taken(edge) && one.returned) {
                let known = if edge.symbol is EndOfMatch {
                    one.returned
                } else {
                    returned
                };
                let rest = edges_run(
                    te,
                    tm,
                    depth,
                    edges,
                    order,
                    i + 1,
                    indent,
                    one.bindings,
                    known,
                );
                law_edges_nesting(te, tm, depth, edges, order, i + 1, indent, one.bindings, known);
                law_whole_code_concat(one.text, rest.text);
                assert(run.text == one.text + rest.text);
                if run.returned && !returned {
                    if known {
                        law_returns_before(one.text, rest.text, indent);
                    } else {
                        law_returns_after(one.text, rest.text, indent);
                    }
                }
            }
        }
    }
}

proof fn lemma_block(head: Seq<char>, body: Seq<char>, indent: Seq<char>)
    requires
        opens_block(head),
        whole_code(body),
        plain(indent),
    ensures
        whole_code(head + body + indent + "}\n"@),
{
    lemma_brace_literals();
    lemma_line_ends();
}

/// The code for an edge on its own is whole code. Where its instruction opens no block, the code
/// returns outside all blocks where that for its node is said to.
#[verifier::spinoff_prover]
#[verifier::rlimit(40)]
pub proof fn law_edge_nesting(
    te: TypeEnv,
    tm: TermEnv,
    depth: int,
    edge: TrieEdge,
    indent: Seq<char>,
    bindings: Bindings,
)
    requires
        plain_names(te),
        plain(indent),
        edge_run(te, tm, depth, edge, indent, bindings).valid,
    ensures
        whole_code(edge_run(te, tm, depth, edge, indent, bindings).text),
        edge_run(te, tm, depth, edge, indent, bindings).returned && (edge.symbol is EndOfMatch
            || always_taken(edge)) ==> returns_outside(
            edge_run(te, tm, depth, edge, indent, bindings).text,
            indent,
        ),
    decreases edge, 0int, 0int,
{
    lemma_plain_literals();
    match edge.symbol {
        TrieSymbol::EndOfMatch => {
            law_body_nesting(te, tm, depth + 1, edge.node, indent, bindings);
        },
        TrieSymbol::Match { op } => {
            let id = InstId(depth as usize);
            let head = pattern_run(te, tm, id, op, indent, bindings);
            law_pattern_nesting(te, tm, id, op, indent, bindings);
            if op.infallible() {
                let sub = body_run(te, tm, depth + 1, edge.node, indent, head.bindings);
                law_body_nesting(te, tm, depth + 1, edge.node, indent, head.bindings);
                law_whole_code_concat(head.text, sub.text);
                if sub.returned {
                    law_returns_after(head.text, sub.text, indent);
                }
            } else {
                let inner = indent + "    "@;
                let sub = body_run(te, tm, depth + 1, edge.node, inner, head.bindings);
                law_body_nesting(te, tm, depth + 1, edge.node, inner, head.bindings);
                lemma_block(head.text, sub.text, indent);
            }
        },
    }
}

/// The `match` for a group is whole code.
#[verifier::spinoff_prover]
#[verifier::rlimit(40)]
pub proof fn law_group_nesting(
    te: TypeEnv,
    tm: TermEnv,
    depth: int,
    edges: Seq<TrieEdge>,
    order: Seq<int>,
    i: int,
    end: int,
    indent: Seq<char>,
    bindings: Bindings,
)
    requires
        plain_names(te),
        plain(indent),
        group_run(te, tm, depth, edges, order, i, end, indent, bindings).valid,
    ensures
        whole_code(group_run(te, tm, depth, edges, order, i, end, indent, bindings).text),
    decreases edges, end - i, 1int,
{
    lemma_plain_literals();
    lemma_brace_literals();
    lemma_line_ends();
    let (input, input_ty) = compared_input(edge_at(edges, order, i).symbol);
    law_cases_nesting(te, tm, depth, edges, order, i, end, input_ty, indent, bindings);
}

/// The cases of a `match` are whole code.
#[verifier::spinoff_prover]
#[verifier::rlimit(40)]
pub proof fn law_cases_nesting(
    te: TypeEnv,
    tm: TermEnv,
    depth: int,
    edges: Seq<TrieEdge>,
    order: Seq<int>,
    i: int,
    end: int,
    input_ty: TypeId,
    indent: Seq<char>,
    bindings: Bindings,
)
    requires
        plain_names(te),
        plain(indent),
        te.has_named_type(input_ty),
        cases_run(te, tm, depth, edges, order, i, end, input_ty, indent, bindings).valid,
    ensures
        whole_code(cases_run(te, tm, depth, edges, order, i, end, input_ty, indent, bindings).text),
    decreases edges, end - i, 0int,
{
    lemma_plain_literals();
    lemma_brace_literals();
    lemma_line_ends();
    if i < end && 0 <= i < order.len() && 0 <= order[i] < edges.len() {
        let edge = edges[order[i]];
        match edge.symbol {
            TrieSymbol::Match { op: PatternInst::MatchVariant { arg_tys, variant, .. } } => {
                let id = InstId(depth as usize);
                let info = variants_of(te, input_ty)[variant.0 as int];
                let fields = info.fields@;
                let bound = bind_fields(
                    te,
                    bindings,
                    fields,
                    id,
                    min_len(arg_tys@.len(), fields.len()),
                );
                let sub = body_run(te, tm, depth + 1, edge.node, indent + "        "@, bound);
                law_body_nesting(te, tm, depth + 1, edge.node, indent + "        "@, bound);
                law_cases_nesting(
                    te,
                    tm,
                    depth,
                    edges,
                    order,
                    i + 1,
                    end,
                    input_ty,
                    indent,
                    sub.bindings,
                );
                lemma_field_binders(te, fields, arg_tys@, id);
                assert(plain(te.sym_text(te.type_at(input_ty).name_sym())));
                assert(plain(te.sym_text(info.name)));
            },
            _ => {},
        }
    }
}

} // verus!
