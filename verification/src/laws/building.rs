//! What the lines that build a result say, and how the lines for two instructions relate.

use crate::ir::{ExprInst, ExprSequence, InstId, Value};
use crate::laws::declared::{holds, law_holds_itself, law_holds_within};
use crate::output::{
    argument_texts, borrowed_text, const_text, expr_run, expr_step, field_inits, init_lines,
    owned_text, result_run, type_text, value_text, Bindings,
};
use crate::sema::{Field, Sym, TermEnv, TermId, Type, TypeEnv, TypeId, VariantId};
use crate::text::comma_list;
use vstd::prelude::*;

verus! {

/// The type of what an expression instruction gives.
pub open spec fn output_ty(tm: TermEnv, inst: ExprInst) -> TypeId {
    match inst {
        ExprInst::ConstInt { ty, .. } => ty,
        ExprInst::ConstPrim { ty, .. } => ty,
        ExprInst::CreateVariant { ty, .. } => ty,
        ExprInst::Construct { term, .. } => tm.terms@[term.0 as int].ret_ty,
        ExprInst::Return { ty, .. } => ty,
    }
}

/// An instruction that gives a value starts a `let` of its variable and binds it, by value and at
/// the type of what it gives; it leaves all other bindings and names no result. An instruction
/// that names a result does that alone.
pub proof fn law_let_by_value(
    te: TypeEnv,
    tm: TermEnv,
    id: InstId,
    inst: ExprInst,
    indent: Seq<char>,
    bindings: Bindings,
)
    ensures
        ({
            let step = expr_step(te, tm, id, inst, indent, bindings);
            let output = Value::Expr { inst: id, output: 0 };
            if inst is Return {
                &&& step.text.len() == 0
                &&& step.bindings == bindings
                &&& inst matches ExprInst::Return { index, value, .. } && step.results == seq![
                    (index, owned_text(bindings, value)),
                ]
            } else {
                &&& (indent + "let "@ + value_text(output)).is_prefix_of(step.text)
                &&& step.bindings.contains_key(output)
                &&& !step.bindings[output].0
                &&& match inst {
                    ExprInst::ConstInt { ty, .. } => step.bindings[output].1 == ty,
                    ExprInst::ConstPrim { ty, .. } => step.bindings[output].1 == ty,
                    ExprInst::CreateVariant { ty, .. } => step.bindings[output].1 == ty,
                    ExprInst::Construct { term, .. } => step.bindings[output].1
                        == tm.terms@[term.0 as int].ret_ty,
                    ExprInst::Return { .. } => false,
                }
                &&& step.bindings.remove(output) =~= bindings.remove(output)
                &&& step.results.len() == 0
            }
        }),
{
    reveal_strlit("");
    let step = expr_step(te, tm, id, inst, indent, bindings);
    let head = indent + "let "@ + value_text(Value::Expr { inst: id, output: 0 });
    if !(inst is Return) {
        assert(head =~= step.text.take(head.len() as int));
    }
}

/// A constant is declared with its type, and with the text of the integer or the name of the
/// constant.
pub proof fn law_constant_lines(
    te: TypeEnv,
    tm: TermEnv,
    id: InstId,
    ty: TypeId,
    val: i64,
    name: Sym,
    indent: Seq<char>,
    bindings: Bindings,
)
    ensures
        ({
            let variable = value_text(Value::Expr { inst: id, output: 0 });
            let start = indent + "let "@ + variable + ": "@ + type_text(te, ty, false) + " = "@;
            let integer = ExprInst::ConstInt { ty, val };
            let prim = ExprInst::ConstPrim { ty, val: name };
            &&& expr_step(te, tm, id, integer, indent, bindings).text == start + const_text(
                te,
                val,
                ty,
            ) + ";\n"@
            &&& expr_step(te, tm, id, prim, indent, bindings).text == start
                + te.syms@[name.0 as int]@ + ";\n"@
        }),
{
}

/// The fields of a variant that is built are paired with the values in order, as far as both go:
/// each is set to its value, which is cloned where its variable is a reference.
pub proof fn law_fields_set(
    te: TypeEnv,
    fields: Seq<Field>,
    inputs: Seq<(Value, TypeId)>,
    bindings: Bindings,
    i: int,
)
    requires
        0 <= i < fields.len(),
        i < inputs.len(),
    ensures
        ({
            let inits = field_inits(te, fields, inputs, bindings);
            &&& inits.len() == fields.len() || inits.len() == inputs.len()
            &&& i < inits.len()
            &&& inits[i] == te.syms@[fields[i].name.0 as int]@ + ": "@ + owned_text(
                bindings,
                inputs[i].0,
            )
        }),
{
}

/// Each field stands on a line of its own, indented by four more spaces.
pub proof fn law_field_lines(indent: Seq<char>, inits: Seq<Seq<char>>, n: nat, i: int)
    requires
        0 <= i < n,
    ensures
        holds(init_lines(indent, inits, n), indent + "    "@ + inits[i] + ",\n"@),
        init_lines(indent, inits, n) == init_lines(indent, inits, (n - 1) as nat) + (indent
            + "    "@ + inits[n - 1] + ",\n"@),
        init_lines(indent, inits, 0).len() == 0,
    decreases n,
{
    reveal_strlit("");
    let none = Seq::<char>::empty();
    let before = init_lines(indent, inits, (n - 1) as nat);
    let last = indent + "    "@ + inits[n - 1] + ",\n"@;
    if i == n - 1 {
        law_holds_itself(last);
        law_holds_within(before, last, none, last);
        assert(before + last + none =~= before + last);
    } else {
        law_field_lines(indent, inits, (n - 1) as nat, i);
        law_holds_within(none, before, last, indent + "    "@ + inits[i] + ",\n"@);
        assert(none + before + last =~= before + last);
    }
}

/// A variant is built under its full name: without braces where no field is set, else with the
/// lines for its fields between braces.
#[verifier::spinoff_prover]
#[verifier::rlimit(40)]
pub proof fn law_variant_lines(
    te: TypeEnv,
    tm: TermEnv,
    id: InstId,
    inputs: Vec<(Value, TypeId)>,
    ty: TypeId,
    variant: VariantId,
    indent: Seq<char>,
    bindings: Bindings,
)
    ensures
        te.types@[ty.0 as int] matches Type::Enum { name, variants, .. } ==> {
            let info = variants@[variant.0 as int];
            let variable = value_text(Value::Expr { inst: id, output: 0 });
            let inits = field_inits(te, info.fields@, inputs@, bindings);
            let inst = ExprInst::CreateVariant { inputs, ty, variant };
            let start = indent + "let "@ + variable + " = "@ + te.syms@[name.0 as int]@ + "::"@
                + te.syms@[info.name.0 as int]@;
            expr_step(te, tm, id, inst, indent, bindings).text == if inits.len() > 0 {
                start + " {\n"@ + init_lines(indent, inits, inits.len()) + indent + "};\n"@
            } else {
                start + ";\n"@
            }
        },
{
}

/// An argument of a constructor is taken by value where it is passed at a primitive type, and
/// borrowed where it is passed at an enum.
pub proof fn law_argument(
    te: TypeEnv,
    bindings: Bindings,
    inputs: Seq<(Value, TypeId)>,
    i: int,
)
    requires
        0 <= i < inputs.len(),
    ensures
        argument_texts(te, bindings, inputs).len() == inputs.len(),
        te.types@[inputs[i].1.0 as int] is Enum ==> argument_texts(te, bindings, inputs)[i]
            == borrowed_text(te, bindings, inputs[i].0),
        te.types@[inputs[i].1.0 as int] is Primitive ==> argument_texts(te, bindings, inputs)[i]
            == owned_text(bindings, inputs[i].0),
{
}

/// A constructor is called by the name of its signature, with the context and then the arguments.
/// The lines for a call that may give nothing and for one that may not differ in a question mark
/// behind the call alone.
pub proof fn law_call_line(
    te: TypeEnv,
    tm: TermEnv,
    id: InstId,
    inputs: Vec<(Value, TypeId)>,
    ty: TypeId,
    term: TermId,
    indent: Seq<char>,
    bindings: Bindings,
)
    requires
        tm.terms@[term.0 as int].constructor_signature(te) is Some,
    ensures
        ({
            let sig = tm.terms@[term.0 as int].constructor_signature(te)->0;
            let variable = value_text(Value::Expr { inst: id, output: 0 });
            let call = indent + "let "@ + variable + " = "@ + sig.full_name + "(ctx, "@
                + comma_list(argument_texts(te, bindings, inputs@)) + ")"@;
            let sure = ExprInst::Construct { inputs, ty, term, infallible: true };
            let unsure = ExprInst::Construct { inputs, ty, term, infallible: false };
            &&& expr_step(te, tm, id, sure, indent, bindings).text == call + ";\n"@
            &&& expr_step(te, tm, id, unsure, indent, bindings).text == call + "?"@ + ";\n"@
            &&& expr_step(te, tm, id, sure, indent, bindings).bindings == expr_step(
                te,
                tm,
                id,
                unsure,
                indent,
                bindings,
            ).bindings
        }),
{
    reveal_strlit("");
    let sig = tm.terms@[term.0 as int].constructor_signature(te)->0;
    let call = indent + "let "@ + value_text(Value::Expr { inst: id, output: 0 }) + " = "@
        + sig.full_name + "(ctx, "@ + comma_list(argument_texts(te, bindings, inputs@)) + ")"@;
    assert(call + ""@ =~= call);
}

proof fn lemma_list_holds(parts: Seq<Seq<char>>, k: int)
    requires
        0 <= k < parts.len(),
    ensures
        holds(comma_list(parts), parts[k]),
    decreases parts.len(),
{
    let none = Seq::<char>::empty();
    if parts.len() == 1 {
        law_holds_itself(parts[0]);
    } else if k == parts.len() - 1 {
        let before = comma_list(parts.drop_last()) + ", "@;
        law_holds_itself(parts[k]);
        law_holds_within(before, parts[k], none, parts[k]);
        assert(before + parts[k] + none =~= comma_list(parts));
    } else {
        let before = comma_list(parts.drop_last());
        lemma_list_holds(parts.drop_last(), k);
        law_holds_within(none, before, ", "@ + parts.last(), parts[k]);
        assert(none + before + (", "@ + parts.last()) =~= comma_list(parts));
    }
}

/// What one instruction gives at an enum type a later constructor call gets by reference: with `&`
/// in front of the variable. What it gives at a primitive type the call gets as the variable.
#[verifier::spinoff_prover]
#[verifier::rlimit(40)]
pub proof fn law_output_passed_on(
    te: TypeEnv,
    tm: TermEnv,
    first: InstId,
    inst: ExprInst,
    second: InstId,
    inputs: Vec<(Value, TypeId)>,
    ty: TypeId,
    term: TermId,
    infallible: bool,
    k: int,
    indent: Seq<char>,
    bindings: Bindings,
)
    requires
        !(inst is Return),
        0 <= k < inputs@.len(),
        inputs@[k] == (Value::Expr { inst: first, output: 0 }, output_ty(tm, inst)),
    ensures
        ({
            let between = expr_step(te, tm, first, inst, indent, bindings).bindings;
            let call = ExprInst::Construct { inputs, ty, term, infallible };
            let line = expr_step(te, tm, second, call, indent, between).text;
            let variable = value_text(Value::Expr { inst: first, output: 0 });
            let passed = if te.types@[output_ty(tm, inst).0 as int] is Enum {
                "&"@ + variable
            } else {
                variable
            };
            &&& argument_texts(te, between, inputs@)[k] == passed
            &&& holds(line, passed)
        }),
{
    reveal_strlit("");
    let between = expr_step(te, tm, first, inst, indent, bindings).bindings;
    let call = ExprInst::Construct { inputs, ty, term, infallible };
    let line = expr_step(te, tm, second, call, indent, between).text;
    law_let_by_value(te, tm, first, inst, indent, bindings);
    law_argument(te, between, inputs@, k);
    let arguments = argument_texts(te, between, inputs@);
    lemma_list_holds(arguments, k);
    let sig = tm.terms@[term.0 as int].constructor_signature(te)->0;
    let head = indent + "let "@ + value_text(Value::Expr { inst: second, output: 0 }) + " = "@
        + sig.full_name + "(ctx, "@;
    let tail = ")"@ + (if infallible {
        ""@
    } else {
        "?"@
    }) + ";\n"@;
    law_holds_within(head, comma_list(arguments), tail, arguments[k]);
    assert(head + comma_list(arguments) + tail =~= line);
}

/// What an instruction gives is set as a field, and returned, as its variable: never cloned, never
/// borrowed.
pub proof fn law_output_taken(
    te: TypeEnv,
    tm: TermEnv,
    id: InstId,
    inst: ExprInst,
    indent: Seq<char>,
    bindings: Bindings,
)
    requires
        !(inst is Return),
    ensures
        owned_text(
            expr_step(te, tm, id, inst, indent, bindings).bindings,
            Value::Expr { inst: id, output: 0 },
        ) == value_text(Value::Expr { inst: id, output: 0 }),
{
    law_let_by_value(te, tm, id, inst, indent, bindings);
}

/// Instructions are written one after the other: each is numbered by its place, finds bound what
/// those before it have bound, and adds its line and its result behind theirs.
pub proof fn law_one_after_the_other(
    te: TypeEnv,
    tm: TermEnv,
    insts: Seq<ExprInst>,
    n: nat,
    indent: Seq<char>,
    bindings: Bindings,
)
    requires
        n < usize::MAX,
    ensures
        ({
            let before = expr_run(te, tm, insts, n, indent, bindings);
            let after = expr_run(te, tm, insts, n + 1, indent, bindings);
            let own = expr_step(
                te,
                tm,
                InstId(n as usize),
                insts[n as int],
                indent,
                before.bindings,
            );
            &&& after.text == before.text + own.text
            &&& after.bindings == own.bindings
            &&& after.results == before.results + own.results
            &&& after.valid == (before.valid && own.valid)
        }),
        expr_run(te, tm, insts, 0, indent, bindings).text.len() == 0,
        expr_run(te, tm, insts, 0, indent, bindings).bindings == bindings,
        expr_run(te, tm, insts, 0, indent, bindings).results.len() == 0,
{
    reveal_strlit("");
}

proof fn lemma_result_named(
    te: TypeEnv,
    tm: TermEnv,
    insts: Seq<ExprInst>,
    n: nat,
    k: int,
    indent: Seq<char>,
    bindings: Bindings,
) -> (j: int)
    requires
        0 <= k < n,
        insts[k] is Return,
    ensures
        0 <= j < expr_run(te, tm, insts, n, indent, bindings).results.len(),
        insts[k] matches ExprInst::Return { index, value, .. } && expr_run(
            te,
            tm,
            insts,
            n,
            indent,
            bindings,
        ).results[j] == (
            index,
            owned_text(expr_run(te, tm, insts, k as nat, indent, bindings).bindings, value),
        ),
    decreases n,
{
    let before = expr_run(te, tm, insts, (n - 1) as nat, indent, bindings);
    if k == n - 1 {
        before.results.len() as int
    } else {
        lemma_result_named(te, tm, insts, (n - 1) as nat, k, indent, bindings)
    }
}

/// What a sequence returns is the value that its one `Return` names, as it is bound there. The
/// return is the last line, behind the lines of all instructions.
pub proof fn law_returns_named_value(
    te: TypeEnv,
    tm: TermEnv,
    s: ExprSequence,
    k: int,
    indent: Seq<char>,
    bindings: Bindings,
)
    requires
        0 <= k < s.insts@.len(),
        result_run(te, tm, s, indent, bindings).valid,
    ensures
        s.insts@[k] matches ExprInst::Return { value, .. } ==> {
            let bound = expr_run(te, tm, s.insts@, k as nat, indent, bindings).bindings;
            let all = expr_run(te, tm, s.insts@, s.insts@.len(), indent, bindings);
            let run = result_run(te, tm, s, indent, bindings);
            &&& run.text == all.text + indent + "return Some("@ + owned_text(bound, value)
                + ");\n"@
            &&& run.bindings == all.bindings
        },
{
    if s.insts@[k] is Return {
        let j = lemma_result_named(te, tm, s.insts@, s.insts@.len(), k, indent, bindings);
        assert(j == 0);
        let all = expr_run(te, tm, s.insts@, s.insts@.len(), indent, bindings);
        let value = all.results[0].1;
        assert(all.text + (indent + "return Some("@ + value + ");\n"@) =~= all.text + indent
            + "return Some("@ + value + ");\n"@);
    }
}

/// A sequence names one result exactly.
pub proof fn law_one_result(
    te: TypeEnv,
    tm: TermEnv,
    s: ExprSequence,
    i: int,
    j: int,
    indent: Seq<char>,
    bindings: Bindings,
)
    requires
        result_run(te, tm, s, indent, bindings).valid,
        0 <= i < j < s.insts@.len(),
        s.insts@[i] is Return,
    ensures
        !(s.insts@[j] is Return),
{
    if s.insts@[j] is Return {
        lemma_result_count(te, tm, s.insts@, s.insts@.len(), i, j, indent, bindings);
    }
}

proof fn lemma_result_count(
    te: TypeEnv,
    tm: TermEnv,
    insts: Seq<ExprInst>,
    n: nat,
    i: int,
    j: int,
    indent: Seq<char>,
    bindings: Bindings,
)
    requires
        0 <= i < j < n,
        insts[i] is Return,
        insts[j] is Return,
    ensures
        expr_run(te, tm, insts, n, indent, bindings).results.len() >= 2,
    decreases n,
{
    if j < n - 1 {
        lemma_result_count(te, tm, insts, (n - 1) as nat, i, j, indent, bindings);
    } else {
        let k = lemma_result_named(te, tm, insts, (n - 1) as nat, i, indent, bindings);
        assert(k >= 0);
    }
}

} // verus!
