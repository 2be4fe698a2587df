//! Pattern instructions.

use crate::codegen::Codegen;
use crate::context::BodyContext;
use crate::ir::{InstId, PatternInst, Value};
use crate::output::{
    bind_fields, bind_outputs, binder_text, borrowed_text, borrowed_texts, can_bind_field,
    can_bind_fields, can_borrow, field_binders, min_len, output_texts, pattern_run, pattern_value,
    value_text, variants_of,
};
use crate::sema::{TypeId, Variant};
use crate::text::{decimal_string, join_comma, signed_decimal_string, texts};
use vstd::prelude::*;
use vstd::string::StringExecFns;

verus! {

impl<'a> Codegen<'a> {
    /// Binds the fields of a variant that is matched, and returns the patterns for them.
    pub fn match_variant_binders(
        &self,
        variant: &Variant,
        arg_tys: &Vec<TypeId>,
        id: InstId,
        ctx: &mut BodyContext,
    ) -> (binders: Vec<String>)
        requires
            can_bind_fields(*self.typeenv, variant.fields@, arg_tys@),
        ensures
            texts(binders@) == field_binders(*self.typeenv, variant.fields@, arg_tys@, id),
            final(ctx)@ == bind_fields(
                *self.typeenv,
                old(ctx)@,
                variant.fields@,
                id,
                min_len(arg_tys@.len(), variant.fields@.len()),
            ),
    {
        let ghost te = *self.typeenv;
        let ghost before = ctx@;
        let ghost fields = variant.fields@;
        let mut binders: Vec<String> = Vec::new();
        let mut i: usize = 0;
        while i < arg_tys.len() && i < variant.fields.len()
            invariant
                te == *self.typeenv,
                fields == variant.fields@,
                i <= arg_tys@.len(),
                i <= fields.len(),
                binders@.len() == i,
                can_bind_fields(te, fields, arg_tys@),
                forall|j: int|
                    0 <= j < i ==> (#[trigger] binders@[j])@ == te.sym_text(fields[j].name) + ": "@
                        + binder_text(te, pattern_value(id, j), true, arg_tys@[j]),
                ctx@ == bind_fields(te, before, fields, id, i as nat),
            decreases arg_tys@.len() - i,
        {
            let value = Value::Pattern { inst: id, output: i };
            let field = &variant.fields[i];
            assert(can_bind_field(te, fields[i as int], arg_tys@[i as int]));
            let valuename = self.value_binder(&value, true, arg_tys[i]);
            let mut binder = self.typeenv.syms[field.name.index()].clone();
            self.define_val(&value, ctx, false, field.ty);
            binder.append(": ");
            binder.append(valuename.as_str());
            binders.push(binder);
            i += 1;
        }
        assert(texts(binders@) =~= field_binders(te, fields, arg_tys@, id));
        binders
    }

    /// Returns the arguments of an extractor.
    pub(crate) fn extractor_arguments(
        &self,
        inputs: &Vec<Value>,
        ctx: &BodyContext,
    ) -> (args: Vec<String>)
        requires
            forall|i: int|
                0 <= i < inputs@.len() ==> can_borrow(*self.typeenv, ctx@, #[trigger] inputs@[i]),
        ensures
            texts(args@) == borrowed_texts(*self.typeenv, ctx@, inputs@),
    {
        let mut args: Vec<String> = Vec::new();
        for i in 0..inputs.len()
            invariant
                args@.len() == i,
                forall|j: int|
                    0 <= j < inputs@.len() ==> can_borrow(
                        *self.typeenv,
                        ctx@,
                        #[trigger] inputs@[j],
                    ),
                forall|j: int|
                    0 <= j < i ==> (#[trigger] args@[j])@ == borrowed_text(
                        *self.typeenv,
                        ctx@,
                        inputs@[j],
                    ),
        {
            args.push(self.value_by_ref(&inputs[i], ctx));
        }
        assert(texts(args@) =~= borrowed_texts(*self.typeenv, ctx@, inputs@));
        args
    }

    /// Binds what an extractor gives, and returns the variables for it.
    pub(crate) fn extractor_binders(
        &self,
        output_tys: &Vec<TypeId>,
        id: InstId,
        ctx: &mut BodyContext,
    ) -> (binders: Vec<String>)
        requires
            forall|i: int|
                0 <= i < output_tys@.len() ==> self.typeenv.has_type(#[trigger] output_tys@[i]),
        ensures
            texts(binders@) == output_texts(id, output_tys@.len()),
            final(ctx)@ == bind_outputs(
                *self.typeenv,
                old(ctx)@,
                output_tys@,
                id,
                output_tys@.len(),
            ),
    {
        let ghost te = *self.typeenv;
        let ghost before = ctx@;
        let mut binders: Vec<String> = Vec::new();
        for i in 0..output_tys.len()
            invariant
                te == *self.typeenv,
                binders@.len() == i,
                forall|j: int|
                    0 <= j < output_tys@.len() ==> te.has_type(#[trigger] output_tys@[j]),
                forall|j: int|
                    0 <= j < i ==> (#[trigger] binders@[j])@ == value_text(pattern_value(id, j)),
                ctx@ == bind_outputs(te, before, output_tys@, id, i as nat),
        {
            let value = Value::Pattern { inst: id, output: i };
            self.define_val(&value, ctx, false, output_tys[i]);
            binders.push(self.value_binder(&value, false, output_tys[i]));
        }
        assert(texts(binders@) =~= output_texts(id, output_tys@.len()));
        binders
    }

    /// Writes a pattern instruction, and binds its outputs. Returns whether the instruction is
    /// infallible; one that is not opens a block.
    pub fn generate_pattern_inst(
        &self,
        code: &mut String,
        id: InstId,
        inst: &PatternInst,
        indent: &str,
        ctx: &mut BodyContext,
    ) -> (infallible: bool)
        requires
            pattern_run(*self.typeenv, *self.termenv, id, *inst, indent@, old(ctx)@).valid,
        ensures
            ({
                let run = pattern_run(*self.typeenv, *self.termenv, id, *inst, indent@, old(ctx)@);
                &&& final(code)@ == old(code)@ + run.text
                &&& final(ctx)@ == run.bindings
            }),
            infallible == inst.infallible(),
    {
        let ghost te = *self.typeenv;
        let ghost tm = *self.termenv;
        let ghost run = pattern_run(te, tm, id, *inst, indent@, ctx@);
        let output = Value::Pattern { inst: id, output: 0 };
        let mut line = indent.to_string();
        match inst {
            PatternInst::Arg { index, ty } => {
                line.append("let ");
                line.append(self.value_name(&output).as_str());
                line.append(" = arg");
                line.append(decimal_string(*index as u64).as_str());
                line.append(";\n");
                code.append(line.as_str());
                let is_ref = !self.ty_prim(*ty);
                self.define_val(&output, ctx, is_ref, *ty);
                true
            },
            PatternInst::MatchEqual { a, b, .. } => {
                line.append("if ");
                line.append(self.value_by_ref(a, ctx).as_str());
                line.append(" == ");
                line.append(self.value_by_ref(b, ctx).as_str());
                line.append(" {\n");
                code.append(line.as_str());
                false
            },
            PatternInst::MatchInt { input, int_val, .. } => {
                line.append("if ");
                line.append(self.value_by_val(input, ctx).as_str());
                line.append(" == ");
                line.append(signed_decimal_string(*int_val).as_str());
                line.append(" {\n");
                code.append(line.as_str());
                false
            },
            PatternInst::MatchPrim { input, val, .. } => {
                line.append("if ");
                line.append(self.value_by_val(input, ctx).as_str());
                line.append(" == ");
                line.append(self.typeenv.syms[val.index()].as_str());
                line.append(" {\n");
                code.append(line.as_str());
                false
            },
            PatternInst::MatchVariant { input, input_ty, arg_tys, variant } => {
                let input_expr = self.value_by_ref(input, ctx);
                let variants = self.typeenv.types[input_ty.index()].variants().unwrap();
                let info = &variants[variant.index()];
                assert(variants_of(te, *input_ty)[variant.0 as int] == info);
                let args = self.match_variant_binders(info, arg_tys, id, ctx);
                line.append("if let ");
                line.append(self.ty_name(*input_ty, true).as_str());
                line.append("::");
                line.append(self.typeenv.syms[info.name.index()].as_str());
                line.append(" ");
                line.append(self.brace_binders(&args).as_str());
                line.append(" = ");
                line.append(input_expr.as_str());
                line.append(" {\n");
                code.append(line.as_str());
                false
            },
            PatternInst::Extract { inputs, output_tys, term, infallible, .. } => {
                let termdata = &self.termenv.terms[term.index()];
                let sig = termdata.extractor_sig(self.typeenv).unwrap();
                let input_values = self.extractor_arguments(inputs, ctx);
                let output_binders = self.extractor_binders(output_tys, id, ctx);
                let mut call = sig.full_name.clone();
                call.append("(ctx, ");
                call.append(join_comma(&input_values).as_str());
                call.append(")");
                if *infallible {
                    line.append("let ");
                    line.append(self.tuple(&output_binders).as_str());
                    line.append(" = ");
                    line.append(call.as_str());
                    line.append(";\n");
                    code.append(line.as_str());
                    true
                } else {
                    line.append("if let Some(");
                    line.append(self.tuple(&output_binders).as_str());
                    line.append(") = ");
                    line.append(call.as_str());
                    line.append(" {\n");
                    code.append(line.as_str());
                    false
                }
            },
            PatternInst::Expr { seq, output_ty, .. } => {
                match seq.is_const_int() {
                    Some((ty, val)) => {
                        line.append("let ");
                        line.append(self.value_name(&output).as_str());
                        line.append(" = ");
                        line.append(self.const_int(val, ty).as_str());
                        line.append(";\n");
                        code.append(line.as_str());
                        self.define_val(&output, ctx, false, ty);
                        true
                    },
                    None => {
                        let mut closure_name = "closure".to_string();
                        closure_name.append(decimal_string(id.index() as u64).as_str());
                        let mut subindent = indent.to_string();
                        subindent.append("    ");
                        let mut subctx = ctx.duplicate();
                        line.append("let ");
                        line.append(closure_name.as_str());
                        line.append(" = || {\n");
                        self.generate_result(&mut line, seq, subindent.as_str(), &mut subctx);
                        line.append(indent);
                        line.append("};\n");
                        line.append(indent);
                        line.append("if let Some(");
                        line.append(self.value_binder(&output, false, *output_ty).as_str());
                        line.append(") = ");
                        line.append(closure_name.as_str());
                        line.append("() {\n");
                        code.append(line.as_str());
                        self.define_val(&output, ctx, false, *output_ty);
                        false
                    },
                }
            },
        }
    }
}

} // verus!
