//! Expression instructions.

use crate::codegen::Codegen;
use crate::context::BodyContext;
use crate::ir::{ExprInst, ExprSequence, InstId, Value};
use crate::output::{
    argument_text, argument_texts, can_init, can_pass, expr_run, expr_step, field_inits, init_lines,
    min_len, owned_text, result_run, result_texts, variants_of, Bindings,
};
use crate::sema::{Field, TermEnv, TypeEnv, TypeId};
use crate::text::{join_comma, texts};
use vstd::prelude::*;
use vstd::string::StringExecFns;

verus! {

/// The first instructions of a valid sequence are valid.
proof fn lemma_expr_run_valid(
    te: TypeEnv,
    tm: TermEnv,
    insts: Seq<ExprInst>,
    m: nat,
    n: nat,
    indent: Seq<char>,
    bindings: Bindings,
)
    requires
        m <= n,
        expr_run(te, tm, insts, n, indent, bindings).valid,
    ensures
        expr_run(te, tm, insts, m, indent, bindings).valid,
    decreases n,
{
    if m < n {
        lemma_expr_run_valid(te, tm, insts, m, (n - 1) as nat, indent, bindings);
    }
}

impl<'a> Codegen<'a> {
    /// Returns the fields of a variant that is built, each with the expression for its value.
    pub(crate) fn field_initializers(
        &self,
        fields: &Vec<Field>,
        inputs: &Vec<(Value, TypeId)>,
        ctx: &BodyContext,
    ) -> (inits: Vec<String>)
        requires
            forall|i: int|
                0 <= i < min_len(inputs@.len(), fields@.len()) ==> #[trigger] can_init(
                    *self.typeenv,
                    ctx@,
                    fields@[i],
                    inputs@[i],
                ),
        ensures
            texts(inits@) == field_inits(*self.typeenv, fields@, inputs@, ctx@),
    {
        let mut inits: Vec<String> = Vec::new();
        let mut i: usize = 0;
        while i < inputs.len() && i < fields.len()
            invariant
                i <= inputs@.len(),
                i <= fields@.len(),
                inits@.len() == i,
                forall|j: int|
                    0 <= j < min_len(inputs@.len(), fields@.len()) ==> #[trigger] can_init(
                        *self.typeenv,
                        ctx@,
                        fields@[j],
                        inputs@[j],
                    ),
                forall|j: int|
                    0 <= j < i ==> (#[trigger] inits@[j])@ == self.typeenv.sym_text(fields@[j].name)
                        + ": "@ + owned_text(ctx@, inputs@[j].0),
            decreases inputs@.len() - i,
        {
            assert(can_init(*self.typeenv, ctx@, fields@[i as int], inputs@[i as int]));
            let mut init = self.typeenv.syms[fields[i].name.index()].clone();
            init.append(": ");
            init.append(self.value_by_val(&inputs[i].0, ctx).as_str());
            inits.push(init);
            i += 1;
        }
        assert(texts(inits@) =~= field_inits(*self.typeenv, fields@, inputs@, ctx@));
        inits
    }

    /// Writes the fields of a variant that is built, one on a line.
    pub(crate) fn append_fields(&self, line: &mut String, indent: &str, inits: &Vec<String>)
        ensures
            final(line)@ == old(line)@ + init_lines(indent@, texts(inits@), inits@.len()),
    {
        let ghost start = line@;
        proof {
            reveal_strlit("");
            assert(start =~= start + init_lines(indent@, texts(inits@), 0));
        }
        for i in 0..inits.len()
            invariant
                line@ == start + init_lines(indent@, texts(inits@), i as nat),
        {
            let mut field = indent.to_string();
            field.append("    ");
            field.append(inits[i].as_str());
            field.append(",\n");
            line.append(field.as_str());
            assert(line@ =~= start + init_lines(indent@, texts(inits@), (i + 1) as nat));
        }
    }

    /// Returns the arguments of a constructor.
    pub(crate) fn constructor_arguments(
        &self,
        inputs: &Vec<(Value, TypeId)>,
        ctx: &BodyContext,
    ) -> (args: Vec<String>)
        requires
            forall|i: int|
                0 <= i < inputs@.len() ==> can_pass(*self.typeenv, ctx@, #[trigger] inputs@[i]),
        ensures
            texts(args@) == argument_texts(*self.typeenv, ctx@, inputs@),
    {
        let mut args: Vec<String> = Vec::new();
        for i in 0..inputs.len()
            invariant
                args@.len() == i,
                forall|j: int|
                    0 <= j < inputs@.len() ==> can_pass(*self.typeenv, ctx@, #[trigger] inputs@[j]),
                forall|j: int|
                    0 <= j < i ==> (#[trigger] args@[j])@ == argument_text(
                        *self.typeenv,
                        ctx@,
                        inputs@[j],
                    ),
        {
            let (value, ty) = &inputs[i];
            assert(can_pass(*self.typeenv, ctx@, inputs@[i as int]));
            let arg = if self.ty_prim(*ty) {
                self.value_by_val(value, ctx)
            } else {
                self.value_by_ref(value, ctx)
            };
            args.push(arg);
        }
        assert(texts(args@) =~= argument_texts(*self.typeenv, ctx@, inputs@));
        args
    }

    /// Writes an expression instruction, and binds its output. A result that it names is put
    /// behind the others.
    pub fn generate_expr_inst(
        &self,
        code: &mut String,
        id: InstId,
        inst: &ExprInst,
        indent: &str,
        ctx: &mut BodyContext,
        results: &mut Vec<(usize, String)>,
    )
        requires
            expr_step(*self.typeenv, *self.termenv, id, *inst, indent@, old(ctx)@).valid,
        ensures
            ({
                let run = expr_step(*self.typeenv, *self.termenv, id, *inst, indent@, old(ctx)@);
                &&& final(code)@ == old(code)@ + run.text
                &&& final(ctx)@ == run.bindings
                &&& result_texts(final(results)@) == result_texts(old(results)@) + run.results
            }),
    {
        let ghost run = expr_step(*self.typeenv, *self.termenv, id, *inst, indent@, ctx@);
        let ghost named = result_texts(results@);
        let output = Value::Expr { inst: id, output: 0 };
        let mut line = indent.to_string();
        line.append("let ");
        line.append(self.value_name(&output).as_str());
        match inst {
            ExprInst::ConstInt { ty, val } => {
                self.define_val(&output, ctx, false, *ty);
                line.append(": ");
                line.append(self.ty_name(*ty, false).as_str());
                line.append(" = ");
                line.append(self.const_int(*val, *ty).as_str());
                line.append(";\n");
                code.append(line.as_str());
            },
            ExprInst::ConstPrim { ty, val } => {
                self.define_val(&output, ctx, false, *ty);
                line.append(": ");
                line.append(self.ty_name(*ty, false).as_str());
                line.append(" = ");
                line.append(self.typeenv.syms[val.index()].as_str());
                line.append(";\n");
                code.append(line.as_str());
            },
            ExprInst::CreateVariant { inputs, ty, variant } => {
                let variants = self.typeenv.types[ty.index()].variants().unwrap();
                let info = &variants[variant.index()];
                proof {
                    let inits = field_inits(*self.typeenv, info.fields@, inputs@, ctx@);
                    assert(inits.len() == min_len(inputs@.len(), info.fields@.len()));
                    assert(variants_of(*self.typeenv, *ty)[variant.0 as int] == info);
                }
                let input_fields = self.field_initializers(&info.fields, inputs, ctx);
                line.append(" = ");
                line.append(self.ty_name(*ty, false).as_str());
                line.append("::");
                line.append(self.typeenv.syms[info.name.index()].as_str());
                if input_fields.len() == 0 {
                    line.append(";\n");
                } else {
                    line.append(" {\n");
                    self.append_fields(&mut line, indent, &input_fields);
                    line.append(indent);
                    line.append("};\n");
                }
                code.append(line.as_str());
                self.define_val(&output, ctx, false, *ty);
            },
            ExprInst::Construct { inputs, term, infallible, .. } => {
                let input_exprs = self.constructor_arguments(inputs, ctx);
                let termdata = &self.termenv.terms[term.index()];
                let sig = termdata.constructor_sig(self.typeenv).unwrap();
                line.append(" = ");
                line.append(sig.full_name.as_str());
                line.append("(ctx, ");
                line.append(join_comma(&input_exprs).as_str());
                line.append(")");
                line.append(if *infallible { "" } else { "?" });
                line.append(";\n");
                code.append(line.as_str());
                self.define_val(&output, ctx, false, termdata.ret_ty);
            },
            ExprInst::Return { index, value, .. } => {
                let value_expr = self.value_by_val(value, ctx);
                results.push((*index, value_expr));
                proof {
                    reveal_strlit("");
                    assert(code@ =~= code@ + run.text);
                }
            },
        }
        assert(result_texts(results@) =~= named + run.results);
    }

    /// Writes the instructions of a sequence, and the return of the one result that they name.
    #[verifier::spinoff_prover]
    #[verifier::rlimit(40)]
    pub(crate) fn generate_result(
        &self,
        code: &mut String,
        seq: &ExprSequence,
        indent: &str,
        ctx: &mut BodyContext,
    )
        requires
            result_run(*self.typeenv, *self.termenv, *seq, indent@, old(ctx)@).valid,
        ensures
            ({
                let run = result_run(*self.typeenv, *self.termenv, *seq, indent@, old(ctx)@);
                &&& final(code)@ == old(code)@ + run.text
                &&& final(ctx)@ == run.bindings
            }),
    {
        let ghost te = *self.typeenv;
        let ghost tm = *self.termenv;
        let ghost before = ctx@;
        let ghost start = code@;
        let ghost insts = seq.insts@;
        let mut results: Vec<(usize, String)> = Vec::new();
        proof {
            reveal_strlit("");
            assert(start =~= start + expr_run(te, tm, insts, 0, indent@, before).text);
            assert(result_texts(results@) =~= expr_run(te, tm, insts, 0, indent@, before).results);
        }
        for i in 0..seq.insts.len()
            invariant
                te == *self.typeenv,
                tm == *self.termenv,
                insts == seq.insts@,
                expr_run(te, tm, insts, insts.len(), indent@, before).valid,
                code@ == start + expr_run(te, tm, insts, i as nat, indent@, before).text,
                ctx@ == expr_run(te, tm, insts, i as nat, indent@, before).bindings,
                result_texts(results@) == expr_run(
                    te,
                    tm,
                    insts,
                    i as nat,
                    indent@,
                    before,
                ).results,
        {
            proof {
                lemma_expr_run_valid(te, tm, insts, (i + 1) as nat, insts.len(), indent@, before);
            }
            self.generate_expr_inst(code, InstId(i), &seq.insts[i], indent, ctx, &mut results);
            proof {
                let next = expr_run(te, tm, insts, (i + 1) as nat, indent@, before);
                assert(code@ =~= start + next.text);
            }
        }
        let mut line = indent.to_string();
        line.append("return Some(");
        assert(result_texts(results@).len() == 1);
        line.append(results[0].1.as_str());
        line.append(");\n");
        code.append(line.as_str());
        proof {
            let run = expr_run(te, tm, insts, insts.len(), indent@, before);
            assert(result_texts(results@)[0].1 == results@[0].1@);
            assert(code@ =~= start + result_run(te, tm, *seq, indent@, before).text);
        }
    }
}

} // verus!
