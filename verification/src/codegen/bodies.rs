//! The code for the nodes of a trie.

use crate::codegen::Codegen;
use crate::context::BodyContext;
use crate::group::adjacent_variants;
use crate::ir::{InstId, PatternInst};
use crate::order::{law_stable_order, positions};
use crate::output::{body_run, cases_run, edge_run, edges_run, group_run, is_order_of, variants_of};
use crate::trie::{edge_keys, order_edges, TrieEdge, TrieNode, TrieSymbol};
use vstd::prelude::*;
use vstd::string::StringExecFns;

verus! {

impl<'a> Codegen<'a> {
    /// Writes the code for a node of a trie, and returns whether the code is known to return.
    #[verifier::spinoff_prover]
    #[verifier::rlimit(40)]
    pub fn generate_body(
        &self,
        code: &mut String,
        depth: usize,
        trie: &TrieNode,
        indent: &str,
        ctx: &mut BodyContext,
    ) -> (returned: bool)
        requires
            body_run(
                *self.typeenv,
                *self.termenv,
                depth as int,
                *trie,
                indent@,
                old(ctx)@,
            ).valid,
        ensures
            ({
                let run = body_run(
                    *self.typeenv,
                    *self.termenv,
                    depth as int,
                    *trie,
                    indent@,
                    old(ctx)@,
                );
                &&& final(code)@ == old(code)@ + run.text
                &&& final(ctx)@ == run.bindings
                &&& returned == run.returned
            }),
        decreases *trie, 0int, 0int,
    {
        let ghost te = *self.typeenv;
        let ghost tm = *self.termenv;
        let ghost before = ctx@;
        let ghost start = code@;
        let ghost d = depth as int;
        match trie {
            TrieNode::Empty => {
                proof {
                    reveal_strlit("");
                    assert(code@ =~= code@ + ""@);
                }
                false
            },
            TrieNode::Leaf { output, .. } => {
                let mut line = indent.to_string();
                line.append("// Rule at ");
                line.append(output.pos.pretty_print_line(&self.typeenv.filenames).as_str());
                line.append(".\n");
                self.generate_result(&mut line, output, indent, ctx);
                code.append(line.as_str());
                true
            },
            TrieNode::Decision { edges } => {
                let order = order_edges(edges);
                let ghost o = positions(order@);
                let ghost whole = edges_run(te, tm, d, edges@, o, 0, indent@, before, false);
                let mut returned = false;
                let mut i: usize = 0;
                proof {
                    law_stable_order(edge_keys(edges@), edges@.len());
                    reveal_strlit("");
                    assert(code@ + ""@ =~= code@);
                }
                while i < order.len()
                    invariant_except_break
                        te == *self.typeenv,
                        tm == *self.termenv,
                        d == depth as int,
                        *trie matches TrieNode::Decision { edges: es } && es == edges,
                        o == positions(order@),
                        is_order_of(o, edges@),
                        i <= order@.len(),
                        ({
                            let rest = edges_run(
                                te,
                                tm,
                                d,
                                edges@,
                                o,
                                i as int,
                                indent@,
                                ctx@,
                                returned,
                            );
                            &&& rest.valid
                            &&& start + whole.text == code@ + rest.text
                            &&& whole.bindings == rest.bindings
                            &&& whole.returned == rest.returned
                        }),
                        i == order@.len() ==> code@ == start + whole.text,
                    ensures
                        code@ == start + whole.text,
                        ctx@ == whole.bindings,
                        returned == whole.returned,
                    decreases order@.len() - i,
                {
                    let ghost rest = edges_run(
                        te,
                        tm,
                        d,
                        edges@,
                        o,
                        i as int,
                        indent@,
                        ctx@,
                        returned,
                    );
                    let ghost written = code@;
                    assert(o[i as int] == order@[i as int]);
                    let last = adjacent_variants(edges, &order, i);
                    if last - i > 1 {
                        self.generate_body_matches(
                            code,
                            depth,
                            edges,
                            &order,
                            i,
                            last,
                            indent,
                            ctx,
                        );
                        i = last;
                        proof {
                            let next = edges_run(
                                te,
                                tm,
                                d,
                                edges@,
                                o,
                                i as int,
                                indent@,
                                ctx@,
                                returned,
                            );
                            assert(written + rest.text =~= code@ + next.text);
                        }
                    } else {
                        let edge = &edges[order[i]];
                        i += 1;
                        let sub_returned = self.generate_edge(code, depth, edge, indent, ctx);
                        match &edge.symbol {
                            TrieSymbol::EndOfMatch => {
                                returned = sub_returned;
                            },
                            TrieSymbol::Match { op } => {
                                if sub_returned && op.is_infallible() {
                                    returned = true;
                                    assert(code@ == start + whole.text);
                                    break;
                                }
                            },
                        }
                        proof {
                            let next = edges_run(
                                te,
                                tm,
                                d,
                                edges@,
                                o,
                                i as int,
                                indent@,
                                ctx@,
                                returned,
                            );
                            assert(written + rest.text =~= code@ + next.text);
                        }
                    }
                    if i >= order.len() {
                        proof {
                            reveal_strlit("");
                            assert(code@ + ""@ =~= code@);
                        }
                    }
                }
                returned
            },
        }
    }

    /// Writes the code for an edge on its own, and returns whether the code for its node is known
    /// to return.
    #[verifier::spinoff_prover]
    #[verifier::rlimit(40)]
    pub(crate) fn generate_edge(
        &self,
        code: &mut String,
        depth: usize,
        edge: &TrieEdge,
        indent: &str,
        ctx: &mut BodyContext,
    ) -> (returned: bool)
        requires
            edge_run(
                *self.typeenv,
                *self.termenv,
                depth as int,
                *edge,
                indent@,
                old(ctx)@,
            ).valid,
        ensures
            ({
                let run = edge_run(
                    *self.typeenv,
                    *self.termenv,
                    depth as int,
                    *edge,
                    indent@,
                    old(ctx)@,
                );
                &&& final(code)@ == old(code)@ + run.text
                &&& final(ctx)@ == run.bindings
                &&& returned == run.returned
            }),
        decreases *edge, 0int, 0int,
    {
        match &edge.symbol {
            TrieSymbol::EndOfMatch => self.generate_body(code, depth + 1, &edge.node, indent, ctx),
            TrieSymbol::Match { op } => {
                let ghost run = edge_run(
                    *self.typeenv,
                    *self.termenv,
                    depth as int,
                    *edge,
                    indent@,
                    ctx@,
                );
                let ghost start = code@;
                let infallible = self.generate_pattern_inst(
                    code,
                    InstId(depth),
                    op,
                    indent,
                    ctx,
                );
                if infallible {
                    let returned = self.generate_body(code, depth + 1, &edge.node, indent, ctx);
                    assert(code@ =~= start + run.text);
                    returned
                } else {
                    let mut subindent = indent.to_string();
                    subindent.append("    ");
                    let returned = self.generate_body(
                        code,
                        depth + 1,
                        &edge.node,
                        subindent.as_str(),
                        ctx,
                    );
                    code.append(indent);
                    code.append("}\n");
                    assert(code@ =~= start + run.text);
                    returned
                }
            },
        }
    }

    /// Writes a `match` for the edges from place `from` to place `to` of the order, which compare
    /// one value to variants of an enum.
    #[verifier::spinoff_prover]
    #[verifier::rlimit(40)]
    pub fn generate_body_matches(
        &self,
        code: &mut String,
        depth: usize,
        edges: &Vec<TrieEdge>,
        order: &Vec<usize>,
        from: usize,
        to: usize,
        indent: &str,
        ctx: &mut BodyContext,
    )
        requires
            from < to <= order@.len(),
            is_order_of(positions(order@), edges@),
            group_run(
                *self.typeenv,
                *self.termenv,
                depth as int,
                edges@,
                positions(order@),
                from as int,
                to as int,
                indent@,
                old(ctx)@,
            ).valid,
        ensures
            ({
                let run = group_run(
                    *self.typeenv,
                    *self.termenv,
                    depth as int,
                    edges@,
                    positions(order@),
                    from as int,
                    to as int,
                    indent@,
                    old(ctx)@,
                );
                &&& final(code)@ == old(code)@ + run.text
                &&& final(ctx)@ == run.bindings
            }),
        decreases *edges, 0int, 0int,
    {
        let ghost te = *self.typeenv;
        let ghost tm = *self.termenv;
        let ghost before = ctx@;
        let ghost d = depth as int;
        let ghost o = positions(order@);
        let ghost run = group_run(
            te,
            tm,
            d,
            edges@,
            o,
            from as int,
            to as int,
            indent@,
            before,
        );
        assert(o[from as int] == order@[from as int]);
        match &edges[order[from]].symbol {
            TrieSymbol::Match { op: PatternInst::MatchVariant { input, input_ty, .. } } => {
                let ty = &self.typeenv.types[input_ty.index()];
                let variants = ty.variants().unwrap();
                let input_ty_name = ty.name(self.typeenv);
                let ghost cases = cases_run(
                    te,
                    tm,
                    d,
                    edges@,
                    o,
                    from as int,
                    to as int,
                    *input_ty,
                    indent@,
                    before,
                );
                let mut line = indent.to_string();
                line.append("match ");
                line.append(self.value_by_ref(input, ctx).as_str());
                line.append(" {\n");
                let ghost head = line@;
                let mut subindent = indent.to_string();
                subindent.append("        ");
                let mut j: usize = from;
                while j < to
                    invariant
                        te == *self.typeenv,
                        tm == *self.termenv,
                        d == depth as int,
                        o == positions(order@),
                        is_order_of(o, edges@),
                        from <= j <= to <= order@.len(),
                        subindent@ == indent@ + "        "@,
                        te.has_type(*input_ty),
                        te.type_at(*input_ty) is Enum,
                        variants@ == variants_of(te, *input_ty),
                        input_ty_name@ == te.sym_text(te.type_at(*input_ty).name_sym()),
                        ({
                            let rest = cases_run(
                                te,
                                tm,
                                d,
                                edges@,
                                o,
                                j as int,
                                to as int,
                                *input_ty,
                                indent@,
                                ctx@,
                            );
                            &&& rest.valid
                            &&& head + cases.text == line@ + rest.text
                            &&& cases.bindings == rest.bindings
                        }),
                    decreases to - j,
                {
                    let ghost rest = cases_run(
                        te,
                        tm,
                        d,
                        edges@,
                        o,
                        j as int,
                        to as int,
                        *input_ty,
                        indent@,
                        ctx@,
                    );
                    let ghost written = line@;
                    assert(o[j as int] == order@[j as int]);
                    let edge = &edges[order[j]];
                    match &edge.symbol {
                        TrieSymbol::Match {
                            op: PatternInst::MatchVariant { variant, arg_tys, .. },
                        } => {
                            let info = &variants[variant.index()];
                            let fields = self.match_variant_binders(
                                info,
                                arg_tys,
                                InstId(depth),
                                ctx,
                            );
                            let mut case = indent.to_string();
                            case.append("    &");
                            case.append(input_ty_name.as_str());
                            case.append("::");
                            case.append(self.typeenv.syms[info.name.index()].as_str());
                            case.append(" ");
                            case.append(self.brace_binders(&fields).as_str());
                            case.append(" => {\n");
                            self.generate_body(
                                &mut case,
                                depth + 1,
                                &edge.node,
                                subindent.as_str(),
                                ctx,
                            );
                            case.append(indent);
                            case.append("    }\n");
                            line.append(case.as_str());
                            proof {
                                let next = cases_run(
                                    te,
                                    tm,
                                    d,
                                    edges@,
                                    o,
                                    j + 1,
                                    to as int,
                                    *input_ty,
                                    indent@,
                                    ctx@,
                                );
                                assert(rest.text == case@ + next.text);
                                assert(written + rest.text =~= line@ + next.text);
                            }
                        },
                        _ => {
                            assert(false);
                        },
                    }
                    j += 1;
                }
                proof {
                    reveal_strlit("");
                    assert(head + cases.text =~= line@);
                }
                line.append(indent);
                line.append("    _ => {}\n");
                line.append(indent);
                line.append("}\n");
                code.append(line.as_str());
            },
            _ => {
                assert(false);
            },
        }
    }
}

} // verus!
