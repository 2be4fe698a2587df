//! The text that each part of the input stands for.
//!
//! A part is valid where all that it refers to is there: names, types, terms, files, and the
//! values that earlier instructions have bound. Of parts that are not valid nothing is claimed.

use crate::ir::{ExprInst, ExprSequence, InstId, PatternInst, Value};

use crate::sema::{
    ConstructorKind, Field, Signature, Term, TermEnv, Type, TypeEnv, TypeId, Variant, VariantId,
};
use crate::text::{comma_list, decimal, signed_decimal, truth_text};
use crate::trie::{edge_order, TrieEdge, TrieNode, TrieSymbol};
use vstd::prelude::*;

verus! {

/// For each bound value, whether its variable is a reference, and its type.
pub type Bindings = Map<Value, (bool, TypeId)>;

/// What some instructions write, and what is bound after them.
pub struct Run {
    /// Whether all that the instructions refer to is there.
    pub valid: bool,
    /// What they write.
    pub text: Seq<char>,
    /// What is bound after them.
    pub bindings: Bindings,
}

/// What some expression instructions write and return, and what is bound after them.
pub struct ExprRun {
    /// Whether all that the instructions refer to is there.
    pub valid: bool,
    /// What they write.
    pub text: Seq<char>,
    /// What is bound after them.
    pub bindings: Bindings,
    /// The results that they name, each with its index and the expression for it.
    pub results: Seq<(usize, Seq<char>)>,
}

/// What the code for a node of a trie is, and what is bound after it.
pub struct BodyRun {
    /// Whether all that the node refers to is there.
    pub valid: bool,
    /// The code.
    pub text: Seq<char>,
    /// What is bound after it.
    pub bindings: Bindings,
    /// Whether the code is known to return.
    pub returned: bool,
}

/// The smaller of two lengths.
pub open spec fn min_len(a: nat, b: nat) -> nat {
    if a < b {
        a
    } else {
        b
    }
}

/// The name of a type, as a parameter or a pattern has it (`by_ref`) or on its own.
pub open spec fn type_text(te: TypeEnv, ty: TypeId, by_ref: bool) -> Seq<char> {
    match te.type_at(ty) {
        Type::Primitive(_, sym, _) => te.sym_text(sym),
        Type::Enum { name, .. } => if by_ref {
            "&"@ + te.sym_text(name)
        } else {
            te.sym_text(name)
        },
    }
}

/// The variable that holds a value.
pub open spec fn value_text(value: Value) -> Seq<char> {
    match value {
        Value::Pattern { inst, output } => "pattern"@ + decimal(inst.0 as nat) + "_"@ + decimal(
            output as nat,
        ),
        Value::Expr { inst, output } => "expr"@ + decimal(inst.0 as nat) + "_"@ + decimal(
            output as nat,
        ),
    }
}

/// The pattern that binds a value's variable: by reference only where that is asked for and the
/// type is not primitive.
pub open spec fn binder_text(te: TypeEnv, value: Value, is_ref: bool, ty: TypeId) -> Seq<char> {
    if te.is_prim(ty) || !is_ref {
        value_text(value)
    } else {
        "ref "@ + value_text(value)
    }
}

/// Whether a value is bound, at a type that is there.
pub open spec fn can_borrow(te: TypeEnv, bindings: Bindings, value: Value) -> bool {
    bindings.contains_key(value) && te.has_type(bindings[value].1)
}

/// The expression for a reference to a bound value, or for the value itself where its type is
/// primitive.
pub open spec fn borrowed_text(te: TypeEnv, bindings: Bindings, value: Value) -> Seq<char> {
    if bindings[value].0 || te.is_prim(bindings[value].1) {
        value_text(value)
    } else {
        "&"@ + value_text(value)
    }
}

/// The expression for a bound value itself.
pub open spec fn owned_text(bindings: Bindings, value: Value) -> Seq<char> {
    if bindings[value].0 {
        value_text(value) + ".clone()"@
    } else {
        value_text(value)
    }
}

/// What is bound once `value` is too. A value of a primitive type is never a reference.
pub open spec fn bind(
    te: TypeEnv,
    bindings: Bindings,
    value: Value,
    is_ref: bool,
    ty: TypeId,
) -> Bindings {
    bindings.insert(value, (!te.is_prim(ty) && is_ref, ty))
}

/// Whether `ty` is a primitive type with its name there.
pub open spec fn has_const_type(te: TypeEnv, ty: TypeId) -> bool {
    te.has_named_type(ty) && te.is_prim(ty)
}

/// An integer as a constant of a primitive type; a `bool` is true where it is not zero.
pub open spec fn const_text(te: TypeEnv, val: i64, ty: TypeId) -> Seq<char> {
    if te.sym_text(te.type_at(ty).name_sym()) == "bool"@ {
        truth_text(val != 0)
    } else {
        signed_decimal(val as int)
    }
}

/// The `output`-th output of the pattern instruction `id`.
pub open spec fn pattern_value(id: InstId, output: int) -> Value {
    Value::Pattern { inst: id, output: output as usize }
}

/// The output of the expression instruction `id`.
pub open spec fn expr_value(id: InstId) -> Value {
    Value::Expr { inst: id, output: 0 }
}

/// The variants of an enum.
pub open spec fn variants_of(te: TypeEnv, ty: TypeId) -> Seq<Variant> {
    te.type_at(ty)->variants@
}

/// The fields of a variant that is built, each with the expression for its value.
pub open spec fn field_inits(
    te: TypeEnv,
    fields: Seq<Field>,
    inputs: Seq<(Value, TypeId)>,
    bindings: Bindings,
) -> Seq<Seq<char>> {
    Seq::new(
        min_len(inputs.len(), fields.len()),
        |i: int| te.sym_text(fields[i].name) + ": "@ + owned_text(bindings, inputs[i].0),
    )
}

/// Whether a field's name is there, and the value for it bound.
pub open spec fn can_init(
    te: TypeEnv,
    bindings: Bindings,
    field: Field,
    input: (Value, TypeId),
) -> bool {
    te.has_sym(field.name) && bindings.contains_key(input.0)
}

/// The first `n` of the given fields, one on a line.
pub open spec fn init_lines(indent: Seq<char>, inits: Seq<Seq<char>>, n: nat) -> Seq<char>
    decreases n,
{
    if n == 0 {
        ""@
    } else {
        init_lines(indent, inits, (n - 1) as nat) + (indent + "    "@ + inits[n - 1] + ",\n"@)
    }
}

/// Whether a constructor's argument is bound.
pub open spec fn can_pass(te: TypeEnv, bindings: Bindings, input: (Value, TypeId)) -> bool {
    &&& te.has_type(input.1)
    &&& bindings.contains_key(input.0)
    &&& te.is_prim(input.1) || can_borrow(te, bindings, input.0)
}

/// A constructor's argument: itself where its type is primitive, else a reference to it.
pub open spec fn argument_text(te: TypeEnv, bindings: Bindings, input: (Value, TypeId)) -> Seq<
    char,
> {
    if te.is_prim(input.1) {
        owned_text(bindings, input.0)
    } else {
        borrowed_text(te, bindings, input.0)
    }
}

/// The arguments of a constructor.
pub open spec fn argument_texts(
    te: TypeEnv,
    bindings: Bindings,
    inputs: Seq<(Value, TypeId)>,
) -> Seq<Seq<char>> {
    Seq::new(inputs.len(), |i: int| argument_text(te, bindings, inputs[i]))
}

/// An expression instruction.
pub open spec fn expr_step(
    te: TypeEnv,
    tm: TermEnv,
    id: InstId,
    inst: ExprInst,
    indent: Seq<char>,
    bindings: Bindings,
) -> ExprRun {
    let output = expr_value(id);
    let head = indent + "let "@ + value_text(output);
    match inst {
        ExprInst::ConstInt { ty, val } => ExprRun {
            valid: has_const_type(te, ty),
            text: head + ": "@ + type_text(te, ty, false) + " = "@ + const_text(te, val, ty)
                + ";\n"@,
            bindings: bind(te, bindings, output, false, ty),
            results: Seq::empty(),
        },
        ExprInst::ConstPrim { ty, val } => ExprRun {
            valid: te.has_named_type(ty) && te.has_sym(val),
            text: head + ": "@ + type_text(te, ty, false) + " = "@ + te.sym_text(val) + ";\n"@,
            bindings: bind(te, bindings, output, false, ty),
            results: Seq::empty(),
        },
        ExprInst::CreateVariant { inputs, ty, variant } => {
            let info = variants_of(te, ty)[variant.0 as int];
            let fields = info.fields@;
            let inits = field_inits(te, fields, inputs@, bindings);
            let start = head + " = "@ + type_text(te, ty, false) + "::"@ + te.sym_text(info.name);
            ExprRun {
                valid: {
                    &&& te.has_named_type(ty)
                    &&& te.type_at(ty) is Enum
                    &&& variant.0 < variants_of(te, ty).len()
                    &&& te.has_sym(info.name)
                    &&& forall|i: int|
                        0 <= i < inits.len() ==> #[trigger] can_init(
                            te,
                            bindings,
                            fields[i],
                            inputs@[i],
                        )
                },
                text: if inits.len() == 0 {
                    start + ";\n"@
                } else {
                    start + " {\n"@ + init_lines(indent, inits, inits.len()) + indent + "};\n"@
                },
                bindings: bind(te, bindings, output, false, ty),
                results: Seq::empty(),
            }
        },
        ExprInst::Construct { inputs, term, infallible, .. } => {
            let data = tm.terms@[term.0 as int];
            let sig = data.constructor_signature(te);
            ExprRun {
                valid: {
                    &&& term.0 < tm.terms@.len()
                    &&& data.constructor_named(te)
                    &&& sig is Some
                    &&& inputs@.len() == sig->0.param_tys.len()
                    &&& te.has_type(data.ret_ty)
                    &&& forall|i: int|
                        0 <= i < inputs@.len() ==> can_pass(te, bindings, #[trigger] inputs@[i])
                },
                text: head + " = "@ + sig->0.full_name + "(ctx, "@ + comma_list(
                    argument_texts(te, bindings, inputs@),
                ) + ")"@ + (if infallible {
                    ""@
                } else {
                    "?"@
                }) + ";\n"@,
                bindings: bind(te, bindings, output, false, data.ret_ty),
                results: Seq::empty(),
            }
        },
        ExprInst::Return { index, value, .. } => ExprRun {
            valid: bindings.contains_key(value),
            text: ""@,
            bindings,
            results: seq![(index, owned_text(bindings, value))],
        },
    }
}

/// The results that are named so far, each with its index and the expression for it.
pub open spec fn result_texts(results: Seq<(usize, String)>) -> Seq<(usize, Seq<char>)> {
    Seq::new(results.len(), |i: int| (results[i].0, results[i].1@))
}

/// The first `n` of the given expression instructions, one after the other.
pub open spec fn expr_run(
    te: TypeEnv,
    tm: TermEnv,
    insts: Seq<ExprInst>,
    n: nat,
    indent: Seq<char>,
    bindings: Bindings,
) -> ExprRun
    decreases n,
{
    if n == 0 {
        ExprRun { valid: true, text: ""@, bindings, results: Seq::empty() }
    } else {
        let before = expr_run(te, tm, insts, (n - 1) as nat, indent, bindings);
        let last = expr_step(
            te,
            tm,
            InstId((n - 1) as usize),
            insts[n - 1],
            indent,
            before.bindings,
        );
        ExprRun {
            valid: before.valid && last.valid,
            text: before.text + last.text,
            bindings: last.bindings,
            results: before.results + last.results,
        }
    }
}

/// The given expression instructions, and the return of the one result that they name.
pub open spec fn result_run(
    te: TypeEnv,
    tm: TermEnv,
    s: ExprSequence,
    indent: Seq<char>,
    bindings: Bindings,
) -> Run {
    let run = expr_run(te, tm, s.insts@, s.insts@.len(), indent, bindings);
    Run {
        valid: run.valid && run.results.len() == 1,
        text: run.text + (indent + "return Some("@ + run.results[0].1 + ");\n"@),
        bindings: run.bindings,
    }
}

/// The patterns for the fields of a variant that is matched.
pub open spec fn field_binders(
    te: TypeEnv,
    fields: Seq<Field>,
    arg_tys: Seq<TypeId>,
    id: InstId,
) -> Seq<Seq<char>> {
    Seq::new(
        min_len(arg_tys.len(), fields.len()),
        |i: int|
            te.sym_text(fields[i].name) + ": "@ + binder_text(
                te,
                pattern_value(id, i),
                true,
                arg_tys[i],
            ),
    )
}

/// Whether the fields of a variant that is matched have their names and types there.
pub open spec fn can_bind_fields(te: TypeEnv, fields: Seq<Field>, arg_tys: Seq<TypeId>) -> bool {
    forall|i: int|
        0 <= i < min_len(arg_tys.len(), fields.len()) ==> #[trigger] can_bind_field(
            te,
            fields[i],
            arg_tys[i],
        )
}

/// Whether a field of a variant that is matched has its name and types there.
pub open spec fn can_bind_field(te: TypeEnv, field: Field, arg_ty: TypeId) -> bool {
    te.has_sym(field.name) && te.has_type(field.ty) && te.has_type(arg_ty)
}

/// What is bound once the first `n` fields of a variant are.
pub open spec fn bind_fields(
    te: TypeEnv,
    bindings: Bindings,
    fields: Seq<Field>,
    id: InstId,
    n: nat,
) -> Bindings
    decreases n,
{
    if n == 0 {
        bindings
    } else {
        bind(
            te,
            bind_fields(te, bindings, fields, id, (n - 1) as nat),
            pattern_value(id, n - 1),
            false,
            fields[n - 1].ty,
        )
    }
}

/// The patterns for the fields between braces, or nothing where there is no field.
pub open spec fn braced(binders: Seq<Seq<char>>) -> Seq<char> {
    if binders.len() == 0 {
        ""@
    } else {
        "{ "@ + comma_list(binders) + " }"@
    }
}

/// The arguments of an extractor.
pub open spec fn borrowed_texts(te: TypeEnv, bindings: Bindings, inputs: Seq<Value>) -> Seq<
    Seq<char>,
> {
    Seq::new(inputs.len(), |i: int| borrowed_text(te, bindings, inputs[i]))
}

/// The variables for `n` outputs of a pattern instruction.
pub open spec fn output_texts(id: InstId, n: nat) -> Seq<Seq<char>> {
    Seq::new(n, |i: int| value_text(pattern_value(id, i)))
}

/// What is bound once the first `n` outputs of an extractor are.
pub open spec fn bind_outputs(
    te: TypeEnv,
    bindings: Bindings,
    tys: Seq<TypeId>,
    id: InstId,
    n: nat,
) -> Bindings
    decreases n,
{
    if n == 0 {
        bindings
    } else {
        bind(
            te,
            bind_outputs(te, bindings, tys, id, (n - 1) as nat),
            pattern_value(id, n - 1),
            false,
            tys[n - 1],
        )
    }
}

/// A list in parentheses, but for one of a single part.
pub open spec fn tuple_text(parts: Seq<Seq<char>>) -> Seq<char> {
    if parts.len() == 1 {
        comma_list(parts)
    } else {
        "("@ + comma_list(parts) + ")"@
    }
}

/// A pattern instruction. One that may fail opens a block for what follows when it matches.
pub open spec fn pattern_run(
    te: TypeEnv,
    tm: TermEnv,
    id: InstId,
    op: PatternInst,
    indent: Seq<char>,
    bindings: Bindings,
) -> Run {
    match op {
        PatternInst::Arg { index, ty } => Run {
            valid: te.has_type(ty),
            text: indent + "let "@ + value_text(pattern_value(id, 0)) + " = arg"@ + decimal(
                index as nat,
            ) + ";\n"@,
            bindings: bind(te, bindings, pattern_value(id, 0), true, ty),
        },
        PatternInst::MatchEqual { a, b, .. } => Run {
            valid: can_borrow(te, bindings, a) && can_borrow(te, bindings, b),
            text: indent + "if "@ + borrowed_text(te, bindings, a) + " == "@ + borrowed_text(
                te,
                bindings,
                b,
            ) + " {\n"@,
            bindings,
        },
        PatternInst::MatchInt { input, int_val, .. } => Run {
            valid: bindings.contains_key(input),
            text: indent + "if "@ + owned_text(bindings, input) + " == "@ + signed_decimal(
                int_val as int,
            ) + " {\n"@,
            bindings,
        },
        PatternInst::MatchPrim { input, val, .. } => Run {
            valid: bindings.contains_key(input) && te.has_sym(val),
            text: indent + "if "@ + owned_text(bindings, input) + " == "@ + te.sym_text(val)
                + " {\n"@,
            bindings,
        },
        PatternInst::MatchVariant { input, input_ty, arg_tys, variant } => {
            let info = variants_of(te, input_ty)[variant.0 as int];
            let fields = info.fields@;
            Run {
                valid: {
                    &&& can_borrow(te, bindings, input)
                    &&& te.has_named_type(input_ty)
                    &&& te.type_at(input_ty) is Enum
                    &&& variant.0 < variants_of(te, input_ty).len()
                    &&& te.has_sym(info.name)
                    &&& can_bind_fields(te, fields, arg_tys@)
                },
                text: indent + "if let "@ + type_text(te, input_ty, true) + "::"@ + te.sym_text(
                    info.name,
                ) + " "@ + braced(field_binders(te, fields, arg_tys@, id)) + " = "@
                    + borrowed_text(te, bindings, input) + " {\n"@,
                bindings: bind_fields(
                    te,
                    bindings,
                    fields,
                    id,
                    min_len(arg_tys@.len(), fields.len()),
                ),
            }
        },
        PatternInst::Extract { inputs, output_tys, term, infallible, .. } => {
            let data = tm.terms@[term.0 as int];
            let sig = data.extractor_signature(te);
            let outputs = tuple_text(output_texts(id, output_tys@.len()));
            let call = sig->0.full_name + "(ctx, "@ + comma_list(
                borrowed_texts(te, bindings, inputs@),
            ) + ")"@;
            Run {
                valid: {
                    &&& term.0 < tm.terms@.len()
                    &&& data.extractor_named(te)
                    &&& sig is Some
                    &&& forall|i: int|
                        0 <= i < inputs@.len() ==> can_borrow(te, bindings, #[trigger] inputs@[i])
                    &&& forall|i: int|
                        0 <= i < output_tys@.len() ==> te.has_type(#[trigger] output_tys@[i])
                },
                text: if infallible {
                    indent + "let "@ + outputs + " = "@ + call + ";\n"@
                } else {
                    indent + "if let Some("@ + outputs + ") = "@ + call + " {\n"@
                },
                bindings: bind_outputs(te, bindings, output_tys@, id, output_tys@.len()),
            }
        },
        PatternInst::Expr { seq, output_ty, .. } => {
            let output = value_text(pattern_value(id, 0));
            let bindings_after = bind(te, bindings, pattern_value(id, 0), false, output_ty);
            match seq.const_int() {
                Some((ty, val)) => Run {
                    valid: ty == output_ty && has_const_type(te, ty),
                    text: indent + "let "@ + output + " = "@ + const_text(te, val, ty) + ";\n"@,
                    bindings: bindings_after,
                },
                None => {
                    let closure = "closure"@ + decimal(id.0 as nat);
                    let inner = result_run(te, tm, seq, indent + "    "@, bindings);
                    Run {
                        valid: inner.valid && te.has_type(output_ty),
                        text: indent + "let "@ + closure + " = || {\n"@ + inner.text + indent
                            + "};\n"@ + indent + "if let Some("@ + output + ") = "@ + closure
                            + "() {\n"@,
                        bindings: bindings_after,
                    }
                },
            }
        },
    }
}

/// The value and the variant that a symbol compares, where it compares a value to a variant.
pub open spec fn compared_variant(symbol: TrieSymbol) -> Option<(Value, VariantId)> {
    match symbol {
        TrieSymbol::Match { op: PatternInst::MatchVariant { input, variant, .. } } => Some(
            (input, variant),
        ),
        _ => None,
    }
}

/// The edge at place `i` of an order.
pub open spec fn edge_at(edges: Seq<TrieEdge>, order: Seq<int>, i: int) -> TrieEdge {
    edges[order[i]]
}

/// Whether the edge at place `j` compares the same value as that at place `i`, to a variant that
/// none of those from `i` to `j` compares it to.
pub open spec fn joins_group(edges: Seq<TrieEdge>, order: Seq<int>, i: int, j: int) -> bool {
    match (
        compared_variant(edge_at(edges, order, i).symbol),
        compared_variant(edge_at(edges, order, j).symbol),
    ) {
        (Some((first_input, _)), Some((input, variant))) => {
            &&& input == first_input
            &&& forall|k: int|
                i <= k < j ==> !compares_to(#[trigger] edge_at(edges, order, k), variant)
        },
        _ => false,
    }
}

/// Whether an edge compares a value to the given variant.
pub open spec fn compares_to(edge: TrieEdge, variant: VariantId) -> bool {
    match compared_variant(edge.symbol) {
        Some((_, v)) => v == variant,
        None => false,
    }
}

/// The end of the group of adjacent edges that starts at place `i` and reaches to `j` at least.
pub open spec fn group_end(edges: Seq<TrieEdge>, order: Seq<int>, i: int, j: int) -> int
    decreases order.len() - j,
{
    if j < order.len() && joins_group(edges, order, i, j) {
        group_end(edges, order, i, j + 1)
    } else {
        j
    }
}

/// Whether the edges have priorities that can be ordered. A single edge needs no order.
pub open spec fn can_order(edges: Seq<TrieEdge>) -> bool {
    edges.len() <= 1 || forall|i: int|
        0 <= i < edges.len() ==> (#[trigger] edges[i]).range.min != i64::MIN
}

/// Whether `order` names edges.
pub open spec fn is_order_of(order: Seq<int>, edges: Seq<TrieEdge>) -> bool {
    forall|i: int| 0 <= i < order.len() ==> 0 <= #[trigger] order[i] < edges.len()
}

/// The code for a node of a trie. Nothing is written where nothing is left to try; where a rule
/// applies its result is returned; else the edges are tried in order.
pub open spec fn body_run(
    te: TypeEnv,
    tm: TermEnv,
    depth: int,
    node: TrieNode,
    indent: Seq<char>,
    bindings: Bindings,
) -> BodyRun
    decreases node, 0int, 0int,
{
    match node {
        TrieNode::Empty => BodyRun { valid: true, text: ""@, bindings, returned: false },
        TrieNode::Leaf { output, .. } => {
            let run = result_run(te, tm, output, indent, bindings);
            BodyRun {
                valid: output.pos.file < te.filenames@.len() && run.valid,
                text: indent + "// Rule at "@ + output.pos.line_text(te.filenames@) + ".\n"@
                    + run.text,
                bindings: run.bindings,
                returned: true,
            }
        },
        TrieNode::Decision { edges } => {
            let run = edges_run(
                te,
                tm,
                depth,
                edges@,
                edge_order(edges@),
                0,
                indent,
                bindings,
                false,
            );
            BodyRun { valid: can_order(edges@) && run.valid, ..run }
        },
    }
}

/// The code for the edges from place `i` of the order on, where `returned` says whether the code
/// before them is known to return. A group of two or more becomes a `match`, any other edge is
/// tried on its own. Nothing is written behind an edge that always matches and whose code is
/// known to return.
pub open spec fn edges_run(
    te: TypeEnv,
    tm: TermEnv,
    depth: int,
    edges: Seq<TrieEdge>,
    order: Seq<int>,
    i: int,
    indent: Seq<char>,
    bindings: Bindings,
    returned: bool,
) -> BodyRun
    decreases edges, order.len() - i, 2int,
{
    if i < 0 || i >= order.len() || !is_order_of(order, edges) {
        BodyRun { valid: is_order_of(order, edges), text: ""@, bindings, returned }
    } else {
        let end = group_end(edges, order, i, i);
        let edge = edges[order[i]];
        if end - i > 1 && end <= order.len() {
            let group = group_run(te, tm, depth, edges, order, i, end, indent, bindings);
            let rest = edges_run(
                te,
                tm,
                depth,
                edges,
                order,
                end,
                indent,
                group.bindings,
                returned,
            );
            BodyRun { valid: group.valid && rest.valid, text: group.text + rest.text, ..rest }
        } else {
            let one = edge_run(te, tm, depth, edge, indent, bindings);
            if always_taken(edge) && one.returned {
                one
            } else {
                let rest = edges_run(
                    te,
                    tm,
                    depth,
                    edges,
                    order,
                    i + 1,
                    indent,
                    one.bindings,
                    if edge.symbol is EndOfMatch {
                        one.returned
                    } else {
                        returned
                    },
                );
                BodyRun { valid: one.valid && rest.valid, text: one.text + rest.text, ..rest }
            }
        }
    }
}

/// Whether an edge holds an instruction that always matches.
pub open spec fn always_taken(edge: TrieEdge) -> bool {
    match edge.symbol {
        TrieSymbol::Match { op } => op.infallible(),
        TrieSymbol::EndOfMatch => false,
    }
}

/// The code for an edge on its own: its instruction, where it has one, then the code for its node,
/// and the end of the block that an instruction that may fail has opened. The code is said to
/// return where that for the node is.
pub open spec fn edge_run(
    te: TypeEnv,
    tm: TermEnv,
    depth: int,
    edge: TrieEdge,
    indent: Seq<char>,
    bindings: Bindings,
) -> BodyRun
    decreases edge, 0int, 0int,
{
    match edge.symbol {
        TrieSymbol::EndOfMatch => {
            let sub = body_run(te, tm, depth + 1, edge.node, indent, bindings);
            BodyRun { valid: depth < usize::MAX && sub.valid, ..sub }
        },
        TrieSymbol::Match { op } => {
            let head = pattern_run(te, tm, InstId(depth as usize), op, indent, bindings);
            if op.infallible() {
                let sub = body_run(te, tm, depth + 1, edge.node, indent, head.bindings);
                BodyRun {
                    valid: depth < usize::MAX && head.valid && sub.valid,
                    text: head.text + sub.text,
                    ..sub
                }
            } else {
                let sub = body_run(te, tm, depth + 1, edge.node, indent + "    "@, head.bindings);
                BodyRun {
                    valid: depth < usize::MAX && head.valid && sub.valid,
                    text: head.text + sub.text + indent + "}\n"@,
                    ..sub
                }
            }
        },
    }
}

/// The value that the edge at place `i` compares, and its type.
pub open spec fn compared_input(symbol: TrieSymbol) -> (Value, TypeId) {
    match symbol {
        TrieSymbol::Match { op: PatternInst::MatchVariant { input, input_ty, .. } } => (
            input,
            input_ty,
        ),
        _ => arbitrary(),
    }
}

/// The `match` for the edges from place `i` to place `end`, with a last case for all that they do
/// not cover.
pub open spec fn group_run(
    te: TypeEnv,
    tm: TermEnv,
    depth: int,
    edges: Seq<TrieEdge>,
    order: Seq<int>,
    i: int,
    end: int,
    indent: Seq<char>,
    bindings: Bindings,
) -> BodyRun
    decreases edges, end - i, 1int,
{
    let (input, input_ty) = compared_input(edge_at(edges, order, i).symbol);
    let cases = cases_run(te, tm, depth, edges, order, i, end, input_ty, indent, bindings);
    BodyRun {
        valid: {
            &&& compared_variant(edge_at(edges, order, i).symbol) is Some
            &&& te.has_named_type(input_ty)
            &&& te.type_at(input_ty) is Enum
            &&& can_borrow(te, bindings, input)
            &&& cases.valid
        },
        text: indent + "match "@ + borrowed_text(te, bindings, input) + " {\n"@ + cases.text
            + indent + "    _ => {}\n"@ + indent + "}\n"@,
        bindings: cases.bindings,
        returned: false,
    }
}

/// The cases of a `match` for the edges from place `i` to place `end`, on a value of the type
/// `input_ty`.
pub open spec fn cases_run(
    te: TypeEnv,
    tm: TermEnv,
    depth: int,
    edges: Seq<TrieEdge>,
    order: Seq<int>,
    i: int,
    end: int,
    input_ty: TypeId,
    indent: Seq<char>,
    bindings: Bindings,
) -> Run
    decreases edges, end - i, 0int,
{
    if i >= end || !(0 <= i < order.len()) || !(0 <= order[i] < edges.len()) {
        Run { valid: i >= end, text: ""@, bindings }
    } else {
        let edge = edges[order[i]];
        match edge.symbol {
            TrieSymbol::Match { op: PatternInst::MatchVariant { arg_tys, variant, .. } } => {
                let id = InstId(depth as usize);
                let info = variants_of(te, input_ty)[variant.0 as int];
                let fields = info.fields@;
                let sub = body_run(
                    te,
                    tm,
                    depth + 1,
                    edge.node,
                    indent + "        "@,
                    bind_fields(te, bindings, fields, id, min_len(arg_tys@.len(), fields.len())),
                );
                let rest = cases_run(
                    te,
                    tm,
                    depth,
                    edges,
                    order,
                    i + 1,
                    end,
                    input_ty,
                    indent,
                    sub.bindings,
                );
                Run {
                    valid: {
                        &&& depth < usize::MAX
                        &&& variant.0 < variants_of(te, input_ty).len()
                        &&& te.has_sym(info.name)
                        &&& can_bind_fields(te, fields, arg_tys@)
                        &&& sub.valid
                        &&& rest.valid
                    },
                    text: indent + "    &"@ + te.sym_text(te.type_at(input_ty).name_sym()) + "::"@
                        + te.sym_text(info.name) + " "@ + braced(
                        field_binders(te, fields, arg_tys@, id),
                    ) + " => {\n"@ + sub.text + indent + "    }\n"@ + rest.text,
                    bindings: rest.bindings,
                }
            },
            _ => Run { valid: false, text: ""@, bindings },
        }
    }
}

/// The first `n` of the given file names, one on a line.
pub open spec fn file_lines(filenames: Seq<String>, n: nat) -> Seq<char>
    decreases n,
{
    if n == 0 {
        ""@
    } else {
        file_lines(filenames, (n - 1) as nat) + ("// - "@ + filenames[n - 1]@ + "\n"@)
    }
}

/// The lines at the top of the generated file.
pub open spec fn header_text(te: TypeEnv) -> Seq<char> {
    "// GENERATED BY ISLE. DO NOT EDIT!\n"@ + "//\n"@
        + "// Generated automatically from the instruction-selection DSL code in:\n"@ + file_lines(
        te.filenames@,
        te.filenames@.len(),
    ) + "\n#![allow(dead_code, unreachable_code, unreachable_patterns)]\n"@
        + "#![allow(unused_imports, unused_variables, non_snake_case)]\n"@
        + "#![allow(irrefutable_let_patterns)]\n"@
        + "\nuse super::*;  // Pulls in all external types.\n"@
}

/// Whether the given types and their names are there.
pub open spec fn has_named_types(te: TypeEnv, tys: Seq<TypeId>) -> bool {
    forall|i: int| 0 <= i < tys.len() ==> te.has_named_type(#[trigger] tys[i])
}

/// The parameters of a function, named by their places.
pub open spec fn param_texts(te: TypeEnv, tys: Seq<TypeId>) -> Seq<Seq<char>> {
    Seq::new(
        tys.len(),
        |i: int| "arg"@ + decimal(i as nat) + ": "@ + type_text(te, tys[i], true),
    )
}

/// The types of a function's results.
pub open spec fn ret_texts(te: TypeEnv, tys: Seq<TypeId>) -> Seq<Seq<char>> {
    Seq::new(tys.len(), |i: int| type_text(te, tys[i], false))
}

/// Whether the types that a signature names are there.
pub open spec fn can_declare(te: TypeEnv, sig: Signature) -> bool {
    has_named_types(te, sig.param_tys) && has_named_types(te, sig.ret_tys)
}

/// The declaration of a method of the context. The result is an `Option` where the function may
/// give none.
pub open spec fn method_text(te: TypeEnv, indent: Seq<char>, sig: Signature) -> Seq<char> {
    let rets = tuple_text(ret_texts(te, sig.ret_tys));
    indent + "fn "@ + sig.func_name + "(&mut self, "@ + comma_list(param_texts(te, sig.param_tys))
        + ") -> "@ + (if sig.infallible {
        rets
    } else {
        "Option<"@ + rets + ">"@
    }) + ";\n"@
}

/// The signature of the context's extractor for a term, where it has one.
pub open spec fn context_extractor(te: TypeEnv, term: Term) -> Option<Signature> {
    term.extractor_signature(te)
}

/// The signature of the context's constructor for a term, where it has one.
pub open spec fn context_constructor(te: TypeEnv, term: Term) -> Option<Signature> {
    if term.constructor() matches Some(ConstructorKind::ExternalConstructor { .. }) {
        term.constructor_signature(te)
    } else {
        None
    }
}

/// Whether all that the context's methods for a term refer to is there.
pub open spec fn can_declare_methods(te: TypeEnv, term: Term) -> bool {
    &&& term.extractor_named(te)
    &&& context_constructor(te, term) is Some ==> term.constructor_named(te)
    &&& context_extractor(te, term) matches Some(sig) ==> can_declare(te, sig)
    &&& context_constructor(te, term) matches Some(sig) ==> can_declare(te, sig)
}

/// The context's methods for a term: its external extractor, and then its external constructor.
pub open spec fn term_methods(te: TypeEnv, term: Term) -> Seq<char> {
    (match context_extractor(te, term) {
        Some(sig) => method_text(te, "    "@, sig),
        None => ""@,
    }) + (match context_constructor(te, term) {
        Some(sig) => method_text(te, "    "@, sig),
        None => ""@,
    })
}

/// The context's methods for the first `n` terms.
pub open spec fn methods_text(te: TypeEnv, terms: Seq<Term>, n: nat) -> Seq<char>
    decreases n,
{
    if n == 0 {
        ""@
    } else {
        methods_text(te, terms, (n - 1) as nat) + term_methods(te, terms[n - 1])
    }
}

/// Whether all that the context's methods refer to is there.
pub open spec fn can_declare_context(te: TypeEnv, tm: TermEnv) -> bool {
    forall|i: int| 0 <= i < tm.terms@.len() ==> can_declare_methods(te, #[trigger] tm.terms@[i])
}

/// The trait that holds all external constructors and extractors.
pub open spec fn context_text(te: TypeEnv, tm: TermEnv) -> Seq<char> {
    "\n"@ + "/// Context during lowering: an implementation of this trait\n"@
        + "/// must be provided with all external constructors and extractors.\n"@
        + "/// A mutable borrow is passed along through all lowering logic.\n"@
        + "pub trait Context {\n"@ + methods_text(te, tm.terms@, tm.terms@.len()) + "}\n"@
}

/// The first `n` fields of a variant, one on a line.
pub open spec fn fields_text(te: TypeEnv, fields: Seq<Field>, n: nat) -> Seq<char>
    decreases n,
{
    if n == 0 {
        ""@
    } else {
        let field = fields[n - 1];
        fields_text(te, fields, (n - 1) as nat) + ("        "@ + te.sym_text(field.name) + ": "@
            + te.sym_text(te.type_at(field.ty).name_sym()) + ",\n"@)
    }
}

/// The declaration of a variant.
pub open spec fn variant_text(te: TypeEnv, variant: Variant) -> Seq<char> {
    if variant.fields@.len() == 0 {
        "    "@ + te.sym_text(variant.name) + ",\n"@
    } else {
        "    "@ + te.sym_text(variant.name) + " {\n"@ + fields_text(
            te,
            variant.fields@,
            variant.fields@.len(),
        ) + "    },\n"@
    }
}

/// The declarations of the first `n` variants.
pub open spec fn variants_text(te: TypeEnv, variants: Seq<Variant>, n: nat) -> Seq<char>
    decreases n,
{
    if n == 0 {
        ""@
    } else {
        variants_text(te, variants, (n - 1) as nat) + variant_text(te, variants[n - 1])
    }
}

/// Whether all that a variant's declaration refers to is there.
pub open spec fn can_declare_variant(te: TypeEnv, variant: Variant) -> bool {
    &&& te.has_sym(variant.name)
    &&& forall|i: int|
        0 <= i < variant.fields@.len() ==> can_declare_field(te, #[trigger] variant.fields@[i])
}

/// Whether a field's name is there, and its type with its name.
pub open spec fn can_declare_field(te: TypeEnv, field: Field) -> bool {
    te.has_sym(field.name) && te.has_named_type(field.ty)
}

/// Whether all that a type's declaration refers to is there.
pub open spec fn can_declare_type(te: TypeEnv, ty: Type) -> bool {
    match ty {
        Type::Enum { name, is_extern: false, variants, pos, .. } => {
            &&& te.has_sym(name)
            &&& pos.file < te.filenames@.len()
            &&& forall|i: int|
                0 <= i < variants@.len() ==> can_declare_variant(te, #[trigger] variants@[i])
        },
        _ => true,
    }
}

/// The declaration of a type. Primitive types and external enums are declared elsewhere.
pub open spec fn declaration_text(te: TypeEnv, ty: Type) -> Seq<char> {
    match ty {
        Type::Enum { name, is_extern: false, variants, pos, .. } => "\n/// Internal type "@
            + te.sym_text(name) + ": defined at "@ + pos.line_text(te.filenames@) + ".\n"@
            + "#[derive(Clone, Debug)]\n"@ + "pub enum "@ + te.sym_text(name) + " {\n"@
            + variants_text(te, variants@, variants@.len()) + "}\n"@,
        _ => ""@,
    }
}

/// The declarations of the first `n` types.
pub open spec fn declarations_text(te: TypeEnv, n: nat) -> Seq<char>
    decreases n,
{
    if n == 0 {
        ""@
    } else {
        declarations_text(te, (n - 1) as nat) + declaration_text(te, te.types@[n - 1])
    }
}

/// Whether all that the types' declarations refer to is there.
pub open spec fn can_declare_types(te: TypeEnv) -> bool {
    forall|i: int| 0 <= i < te.types@.len() ==> can_declare_type(te, #[trigger] te.types@[i])
}

/// The code for a trie, as the body of a function.
pub open spec fn root_run(te: TypeEnv, tm: TermEnv, trie: TrieNode) -> BodyRun {
    body_run(te, tm, 0, trie, "    "@, Map::empty())
}

/// Whether all that the function for a term refers to is there.
pub open spec fn can_generate(te: TypeEnv, tm: TermEnv, term: Term, trie: TrieNode) -> bool {
    term.is_generated() ==> {
        &&& te.has_sym(term.name)
        &&& has_named_types(te, term.arg_tys@)
        &&& te.has_named_type(term.ret_ty)
        &&& root_run(te, tm, trie).valid
    }
}

/// The first lines of the function for a term.
pub open spec fn function_head(te: TypeEnv, term: Term) -> Seq<char> {
    "\n// Generated as internal constructor for term "@ + te.sym_text(term.name) + ".\n"@
        + "pub fn "@ + ("constructor_"@ + te.sym_text(term.name))
        + "<C: Context>(ctx: &mut C, "@ + comma_list(param_texts(te, term.arg_tys@))
        + ") -> Option<"@ + type_text(te, term.ret_ty, false) + "> {\n"@
}

/// The body of the function for a trie. Code that is not known to return is followed by the
/// return of nothing.
pub open spec fn function_body(te: TypeEnv, tm: TermEnv, trie: TrieNode) -> Seq<char> {
    let run = root_run(te, tm, trie);
    run.text + (if run.returned {
        ""@
    } else {
        "    return None;\n"@
    })
}

/// The function for a term, where its constructor is to be generated.
pub open spec fn function_text(te: TypeEnv, tm: TermEnv, term: Term, trie: TrieNode) -> Seq<char> {
    if term.is_generated() {
        function_head(te, term) + function_body(te, tm, trie) + "}\n"@
    } else {
        ""@
    }
}

/// The functions for those of the first `n` terms that have a trie.
pub open spec fn functions_text(
    te: TypeEnv,
    tm: TermEnv,
    tries: Map<usize, TrieNode>,
    n: nat,
) -> Seq<char>
    decreases n,
{
    if n == 0 {
        ""@
    } else {
        let t = (n - 1) as usize;
        functions_text(te, tm, tries, (n - 1) as nat) + (if tries.contains_key(t) {
            function_text(te, tm, tm.terms@[n - 1], tries[t])
        } else {
            ""@
        })
    }
}

/// Whether each trie belongs to a term, and all that its function refers to is there.
pub open spec fn can_generate_all(te: TypeEnv, tm: TermEnv, tries: Map<usize, TrieNode>) -> bool {
    forall|t: usize| #[trigger]
        tries.contains_key(t) ==> t < tm.terms@.len() && can_generate(
            te,
            tm,
            tm.terms@[t as int],
            tries[t],
        )
}

/// Whether all that the generated file refers to is there.
pub open spec fn can_codegen(te: TypeEnv, tm: TermEnv, tries: Map<usize, TrieNode>) -> bool {
    &&& can_declare_context(te, tm)
    &&& can_declare_types(te)
    &&& can_generate_all(te, tm, tries)
}

/// The generated file: its header, the context, the types, and the functions in the order of
/// their terms.
pub open spec fn codegen_text(te: TypeEnv, tm: TermEnv, tries: Map<usize, TrieNode>) -> Seq<char> {
    header_text(te) + context_text(te, tm) + declarations_text(te, te.types@.len())
        + functions_text(te, tm, tries, tm.terms@.len())
}

} // verus!
