//! What the lines that take a term apart say and bind, and how the lines for two instructions
//! relate.

use crate::ir::{ExprInst, ExprSequence, InstId, PatternInst, Value};
use crate::laws::names::is_digit;
use crate::laws::values::{law_constant, law_constants_distinct, read};
use crate::output::{
    bind_fields, bind_outputs, borrowed_text, borrowed_texts, braced, const_text, expr_step,
    field_binders, has_const_type, output_texts, owned_text, pattern_run, result_run, tuple_text,
    type_text, value_text, Bindings,
};
use crate::sema::{Field, Sym, TermEnv, TermId, Type, TypeEnv, TypeId, VariantId};
use crate::text::{comma_list, decimal, signed_decimal};
use vstd::prelude::*;

verus! {

/// Which instructions always match: those that give an argument, extractors that are said to, and
/// expressions that only return an integer.
pub proof fn law_always_matches(op: PatternInst)
    ensures
        op.infallible() <==> match op {
            PatternInst::Arg { .. } => true,
            PatternInst::MatchEqual { .. } => false,
            PatternInst::MatchInt { .. } => false,
            PatternInst::MatchPrim { .. } => false,
            PatternInst::MatchVariant { .. } => false,
            PatternInst::Extract { infallible, .. } => infallible,
            PatternInst::Expr { seq, .. } => {
                &&& seq.insts@.len() == 2
                &&& seq.insts@[0] is ConstInt
                &&& seq.insts@[1] is Return
            },
        },
{
}

/// The integer of a sequence that only returns one is that of its first instruction.
pub proof fn law_integer_of_sequence(seq: ExprSequence)
    ensures
        match seq.const_int() {
            Some((ty, val)) => {
                &&& seq.insts@.len() == 2
                &&& seq.insts@[0] == (ExprInst::ConstInt { ty, val })
                &&& seq.insts@[1] is Return
            },
            None => {
                ||| seq.insts@.len() != 2
                ||| !(seq.insts@[0] is ConstInt)
                ||| !(seq.insts@[1] is Return)
            },
        },
{
}

/// An argument of the function gets a variable of its own, which is a reference exactly where the
/// argument's type is an enum.
pub proof fn law_argument_variable(
    te: TypeEnv,
    tm: TermEnv,
    id: InstId,
    index: usize,
    ty: TypeId,
    indent: Seq<char>,
    bindings: Bindings,
)
    ensures
        ({
            let run = pattern_run(te, tm, id, PatternInst::Arg { index, ty }, indent, bindings);
            let output = Value::Pattern { inst: id, output: 0 };
            &&& run.text == indent + "let "@ + value_text(output) + " = arg"@ + decimal(
                index as nat,
            ) + ";\n"@
            &&& run.bindings.contains_key(output)
            &&& run.bindings[output] == (te.types@[ty.0 as int] is Enum, ty)
            &&& run.bindings.remove(output) =~= bindings.remove(output)
        }),
{
}

/// Two values are compared in their borrowed forms, and nothing is bound.
pub proof fn law_equality(
    te: TypeEnv,
    tm: TermEnv,
    id: InstId,
    a: Value,
    b: Value,
    ty: TypeId,
    indent: Seq<char>,
    bindings: Bindings,
)
    ensures
        ({
            let run = pattern_run(
                te,
                tm,
                id,
                PatternInst::MatchEqual { a, b, ty },
                indent,
                bindings,
            );
            &&& run.text == indent + "if "@ + borrowed_text(te, bindings, a) + " == "@
                + borrowed_text(te, bindings, b) + " {\n"@
            &&& run.bindings == bindings
        }),
{
}

/// A value is taken to be compared to an integer, which is always written as a number, or to a
/// named constant. Nothing is bound.
pub proof fn law_comparison(
    te: TypeEnv,
    tm: TermEnv,
    id: InstId,
    input: Value,
    ty: TypeId,
    int_val: i64,
    val: Sym,
    indent: Seq<char>,
    bindings: Bindings,
)
    ensures
        ({
            let int_op = PatternInst::MatchInt { input, ty, int_val };
            let prim_op = PatternInst::MatchPrim { input, ty, val };
            let int_run = pattern_run(te, tm, id, int_op, indent, bindings);
            let prim_run = pattern_run(te, tm, id, prim_op, indent, bindings);
            let start = indent + "if "@ + owned_text(bindings, input) + " == "@;
            &&& int_run.text == start + signed_decimal(int_val as int) + " {\n"@
            &&& int_run.bindings == bindings
            &&& prim_run.text == start + te.syms@[val.0 as int]@ + " {\n"@
            &&& prim_run.bindings == bindings
        }),
{
}

/// The pattern for a variant behind a reference: the name of the enum with `&` in front of it, the
/// name of the variant, and the patterns for its fields between braces, where it has any.
pub open spec fn variant_pattern(
    te: TypeEnv,
    ty: TypeId,
    variant: VariantId,
    arg_tys: Seq<TypeId>,
    id: InstId,
) -> Seq<char> {
    match te.types@[ty.0 as int] {
        Type::Enum { name, variants, .. } => {
            let info = variants@[variant.0 as int];
            let fields = field_binders(te, info.fields@, arg_tys, id);
            "&"@ + te.syms@[name.0 as int]@ + "::"@ + te.syms@[info.name.0 as int]@ + " "@ + braced(
                fields,
            )
        },
        Type::Primitive(..) => arbitrary(),
    }
}

/// A value is matched to one variant by an `if let`, on the borrowed form of the value.
pub proof fn law_if_let(
    te: TypeEnv,
    tm: TermEnv,
    id: InstId,
    input: Value,
    input_ty: TypeId,
    arg_tys: Vec<TypeId>,
    variant: VariantId,
    indent: Seq<char>,
    bindings: Bindings,
)
    requires
        te.types@[input_ty.0 as int] is Enum,
    ensures
        ({
            let op = PatternInst::MatchVariant { input, input_ty, arg_tys, variant };
            pattern_run(te, tm, id, op, indent, bindings).text == indent + "if let "@
                + variant_pattern(te, input_ty, variant, arg_tys@, id) + " = "@ + borrowed_text(
                te,
                bindings,
                input,
            ) + " {\n"@
        }),
        te.types@[input_ty.0 as int] matches Type::Enum { name, variants, .. } ==> {
            let info = variants@[variant.0 as int];
            variant_pattern(te, input_ty, variant, arg_tys@, id) == "&"@ + te.syms@[name.0 as int]@
                + "::"@ + te.syms@[info.name.0 as int]@ + " "@ + braced(
                field_binders(te, info.fields@, arg_tys@, id),
            )
        },
{
    if let Type::Enum { name, variants, .. } = te.types@[input_ty.0 as int] {
        let info = variants@[variant.0 as int];
        lemma_if_let_text(
            indent + "if let "@,
            "&"@ + te.syms@[name.0 as int]@,
            te.syms@[info.name.0 as int]@,
            braced(field_binders(te, info.fields@, arg_tys@, id)),
        );
    }
}

proof fn lemma_if_let_text(
    start: Seq<char>,
    name: Seq<char>,
    variant: Seq<char>,
    fields: Seq<char>,
)
    ensures
        start + name + "::"@ + variant + " "@ + fields == start + (name + "::"@ + variant + " "@
            + fields),
{
    assert(start + name + "::"@ + variant + " "@ + fields =~= start + (name + "::"@ + variant + " "@
        + fields));
}

/// The fields of a variant are matched in order, as far as their types are given: each by its
/// name, and to a variable that is bound by reference exactly where the type is an enum.
pub proof fn law_field_patterns(
    te: TypeEnv,
    fields: Seq<Field>,
    arg_tys: Seq<TypeId>,
    id: InstId,
    i: int,
)
    requires
        0 <= i < fields.len(),
        i < arg_tys.len(),
        i <= usize::MAX,
    ensures
        ({
            let binders = field_binders(te, fields, arg_tys, id);
            let variable = value_text(Value::Pattern { inst: id, output: i as usize });
            let name = te.syms@[fields[i].name.0 as int]@;
            &&& binders.len() == fields.len() || binders.len() == arg_tys.len()
            &&& i < binders.len()
            &&& binders[i] == if te.types@[arg_tys[i].0 as int] is Enum {
                name + ": "@ + ("ref "@ + variable)
            } else {
                name + ": "@ + variable
            }
        }),
{
}

/// Patterns for fields stand between braces, and there are no braces where there is no field.
pub proof fn law_braces(binders: Seq<Seq<char>>)
    ensures
        binders.len() == 0 ==> braced(binders).len() == 0,
        binders.len() > 0 ==> braced(binders) == "{ "@ + comma_list(binders) + " }"@,
{
    reveal_strlit("");
}

proof fn lemma_fields_bound(
    te: TypeEnv,
    bindings: Bindings,
    fields: Seq<Field>,
    id: InstId,
    n: nat,
    i: int,
)
    requires
        0 <= i < n <= usize::MAX,
    ensures
        ({
            let after = bind_fields(te, bindings, fields, id, n);
            let field = Value::Pattern { inst: id, output: i as usize };
            after.contains_key(field) && after[field] == (false, fields[i].ty)
        }),
    decreases n,
{
    if i < n - 1 {
        lemma_fields_bound(te, bindings, fields, id, (n - 1) as nat, i);
    }
}

/// After a variant is matched each field that is matched is bound at the field's own type, and not
/// as a reference.
pub proof fn law_fields_bound(
    te: TypeEnv,
    tm: TermEnv,
    id: InstId,
    input: Value,
    input_ty: TypeId,
    arg_tys: Vec<TypeId>,
    variant: VariantId,
    i: int,
    indent: Seq<char>,
    bindings: Bindings,
)
    requires
        0 <= i < arg_tys@.len(),
    ensures
        te.types@[input_ty.0 as int] matches Type::Enum { variants, .. } ==> {
            let op = PatternInst::MatchVariant { input, input_ty, arg_tys, variant };
            let after = pattern_run(te, tm, id, op, indent, bindings).bindings;
            let fields = variants@[variant.0 as int].fields@;
            let field = Value::Pattern { inst: id, output: i as usize };
            i < fields.len() ==> after.contains_key(field) && after[field] == (false, fields[i].ty)
        },
{
    if let Type::Enum { variants, .. } = te.types@[input_ty.0 as int] {
        let fields = variants@[variant.0 as int].fields@;
        assert(arg_tys.len() == arg_tys@.len());
        let n = if arg_tys@.len() < fields.len() {
            arg_tys@.len()
        } else {
            fields.len()
        };
        if i < fields.len() {
            lemma_fields_bound(te, bindings, fields, id, n, i);
        }
    }
}

/// The variables for what an extractor gives, and the values handed to it.
pub proof fn law_extractor_parts(
    te: TypeEnv,
    bindings: Bindings,
    id: InstId,
    inputs: Seq<Value>,
    n: nat,
    i: int,
)
    ensures
        output_texts(id, n).len() == n,
        0 <= i < n ==> output_texts(id, n)[i] == value_text(
            Value::Pattern { inst: id, output: i as usize },
        ),
        borrowed_texts(te, bindings, inputs).len() == inputs.len(),
        0 <= i < inputs.len() ==> borrowed_texts(te, bindings, inputs)[i] == borrowed_text(
            te,
            bindings,
            inputs[i],
        ),
{
}

/// An extractor is called by the name of its signature, with the context and then its inputs in
/// their borrowed forms. What it gives is bound by a `let` where it always matches, and inside
/// `Some` by an `if let` where it may fail: the call and the variables are the same.
pub proof fn law_extractor_lines(
    te: TypeEnv,
    tm: TermEnv,
    id: InstId,
    inputs: Vec<Value>,
    input_tys: Vec<TypeId>,
    output_tys: Vec<TypeId>,
    term: TermId,
    indent: Seq<char>,
    bindings: Bindings,
)
    requires
        tm.terms@[term.0 as int].extractor_signature(te) is Some,
    ensures
        ({
            let sig = tm.terms@[term.0 as int].extractor_signature(te)->0;
            let sure = pattern_run(
                te,
                tm,
                id,
                PatternInst::Extract { inputs, input_tys, output_tys, term, infallible: true },
                indent,
                bindings,
            );
            let unsure = pattern_run(
                te,
                tm,
                id,
                PatternInst::Extract { inputs, input_tys, output_tys, term, infallible: false },
                indent,
                bindings,
            );
            let variables = tuple_text(output_texts(id, output_tys@.len()));
            let call = sig.full_name + "(ctx, "@ + comma_list(
                borrowed_texts(te, bindings, inputs@),
            ) + ")"@;
            &&& sure.text == indent + "let "@ + variables + " = "@ + call + ";\n"@
            &&& unsure.text == indent + "if let Some("@ + variables + ") = "@ + call + " {\n"@
            &&& sure.bindings == unsure.bindings
        }),
{
}

proof fn lemma_outputs_bound(
    te: TypeEnv,
    bindings: Bindings,
    tys: Seq<TypeId>,
    id: InstId,
    n: nat,
    i: int,
)
    requires
        0 <= i < n <= usize::MAX,
    ensures
        ({
            let after = bind_outputs(te, bindings, tys, id, n);
            let output = Value::Pattern { inst: id, output: i as usize };
            after.contains_key(output) && after[output] == (false, tys[i])
        }),
    decreases n,
{
    if i < n - 1 {
        lemma_outputs_bound(te, bindings, tys, id, (n - 1) as nat, i);
    }
}

/// After an extractor each thing that it gives is bound by value, at its type.
pub proof fn law_outputs_bound(
    te: TypeEnv,
    tm: TermEnv,
    id: InstId,
    inputs: Vec<Value>,
    input_tys: Vec<TypeId>,
    output_tys: Vec<TypeId>,
    term: TermId,
    infallible: bool,
    i: int,
    indent: Seq<char>,
    bindings: Bindings,
)
    requires
        0 <= i < output_tys@.len(),
    ensures
        ({
            let op = PatternInst::Extract { inputs, input_tys, output_tys, term, infallible };
            let after = pattern_run(te, tm, id, op, indent, bindings).bindings;
            let output = Value::Pattern { inst: id, output: i as usize };
            after.contains_key(output) && after[output] == (false, output_tys@[i])
        }),
{
    assert(output_tys.len() == output_tys@.len());
    lemma_outputs_bound(te, bindings, output_tys@, id, output_tys@.len(), i);
}

/// An integer in a pattern is written as it is written in an expression: the line ends in the text
/// that the line for the same integer as an expression instruction ends in. It reads as the
/// integer unless its type is named `bool`. It is bound by value, at its type.
#[verifier::spinoff_prover]
#[verifier::rlimit(40)]
pub proof fn law_integer_line(
    te: TypeEnv,
    tm: TermEnv,
    id: InstId,
    seq: ExprSequence,
    output: Value,
    ty: TypeId,
    val: i64,
    other: InstId,
    indent: Seq<char>,
    bindings: Bindings,
)
    requires
        seq.insts@.len() == 2,
        seq.insts@[0] == (ExprInst::ConstInt { ty, val }),
        seq.insts@[1] is Return,
    ensures
        ({
            let op = PatternInst::Expr { seq, output, output_ty: ty };
            let run = pattern_run(te, tm, id, op, indent, bindings);
            let step = expr_step(te, tm, other, ExprInst::ConstInt { ty, val }, indent, bindings);
            let own = Value::Pattern { inst: id, output: 0 };
            let expr = Value::Expr { inst: other, output: 0 };
            &&& has_const_type(te, ty) ==> run.valid
            &&& exists|text: Seq<char>|
                {
                    &&& run.text == indent + "let "@ + value_text(own) + " = "@ + text + ";\n"@
                    &&& #[trigger] is_expression(step.text, indent, expr, te, ty, text)
                    &&& type_text(te, ty, false) == "bool"@ ==> text == if val == 0 {
                        "false"@
                    } else {
                        "true"@
                    }
                    &&& type_text(te, ty, false) != "bool"@ && val >= 0 ==> is_digit(text[0])
                        && read(text) == val
                    &&& type_text(te, ty, false) != "bool"@ && val < 0 ==> text[0] == '-' && read(
                        text.skip(1),
                    ) == -val
                }
            &&& run.bindings.contains_key(own)
            &&& run.bindings[own] == (false, ty)
            &&& run.bindings.remove(own) =~= bindings.remove(own)
        }),
{
    law_constant(te, val, ty);
    let step = expr_step(te, tm, other, ExprInst::ConstInt { ty, val }, indent, bindings);
    let expr = Value::Expr { inst: other, output: 0 };
    assert(is_expression(step.text, indent, expr, te, ty, const_text(te, val, ty)));
}

/// Whether a line declares a variable of a type with the given expression.
pub open spec fn is_expression(
    line: Seq<char>,
    indent: Seq<char>,
    variable: Value,
    te: TypeEnv,
    ty: TypeId,
    expression: Seq<char>,
) -> bool {
    line == indent + "let "@ + value_text(variable) + ": "@ + type_text(te, ty, false) + " = "@
        + expression + ";\n"@
}

/// The lines for two different integers in a pattern, at one place and of one type other than
/// `bool`, are different.
pub proof fn law_integer_lines_distinct(
    te: TypeEnv,
    tm: TermEnv,
    id: InstId,
    a: ExprSequence,
    b: ExprSequence,
    output: Value,
    ty: TypeId,
    m: i64,
    n: i64,
    indent: Seq<char>,
    bindings: Bindings,
)
    requires
        a.insts@.len() == 2,
        a.insts@[0] == (ExprInst::ConstInt { ty, val: m }),
        a.insts@[1] is Return,
        b.insts@.len() == 2,
        b.insts@[0] == (ExprInst::ConstInt { ty, val: n }),
        b.insts@[1] is Return,
        type_text(te, ty, false) != "bool"@,
        m != n,
    ensures
        pattern_run(
            te,
            tm,
            id,
            PatternInst::Expr { seq: a, output, output_ty: ty },
            indent,
            bindings,
        ).text != pattern_run(
            te,
            tm,
            id,
            PatternInst::Expr { seq: b, output, output_ty: ty },
            indent,
            bindings,
        ).text,
{
    let op_a = PatternInst::Expr { seq: a, output, output_ty: ty };
    let op_b = PatternInst::Expr { seq: b, output, output_ty: ty };
    let text_a = pattern_run(te, tm, id, op_a, indent, bindings).text;
    let text_b = pattern_run(te, tm, id, op_b, indent, bindings).text;
    if text_a == text_b {
        let start = indent + "let "@ + value_text(Value::Pattern { inst: id, output: 0 }) + " = "@;
        let x = const_text(te, m, ty);
        let y = const_text(te, n, ty);
        let k = start.len() as int;
        assert(text_a == start + x + ";\n"@);
        assert(text_b == start + y + ";\n"@);
        assert(text_a.len() == k + x.len() + ";\n"@.len());
        assert(text_b.len() == k + y.len() + ";\n"@.len());
        assert(x.len() == y.len());
        assert(text_a.subrange(k, k + x.len()) =~= x);
        assert(text_b.subrange(k, k + y.len()) =~= y);
        law_constants_distinct(te, m, n, ty);
    }
}

/// Any other expression in a pattern is written into a closure, exactly as it would be written
/// and returned in a function with four more spaces of indentation; the closure is called, and
/// what it gives is bound by value. Nothing that the expression binds is bound behind it.
#[verifier::spinoff_prover]
#[verifier::rlimit(40)]
pub proof fn law_closure_lines(
    te: TypeEnv,
    tm: TermEnv,
    id: InstId,
    seq: ExprSequence,
    output: Value,
    ty: TypeId,
    indent: Seq<char>,
    bindings: Bindings,
)
    requires
        !(seq.insts@.len() == 2 && seq.insts@[0] is ConstInt && seq.insts@[1] is Return),
    ensures
        ({
            let op = PatternInst::Expr { seq, output, output_ty: ty };
            let run = pattern_run(te, tm, id, op, indent, bindings);
            let inner = result_run(te, tm, seq, indent + "    "@, bindings);
            let own = Value::Pattern { inst: id, output: 0 };
            let closure = "closure"@ + decimal(id.0 as nat);
            &&& run.text == indent + "let "@ + closure + " = || {\n"@ + inner.text + indent
                + "};\n"@ + indent + "if let Some("@ + value_text(own) + ") = "@ + closure
                + "() {\n"@
            &&& run.bindings.contains_key(own)
            &&& run.bindings[own] == (false, ty)
            &&& run.bindings.remove(own) =~= bindings.remove(own)
        }),
{
}

} // verus!
