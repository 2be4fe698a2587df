//! The lines for single instructions.

use isle::codegen::Codegen;
use isle::context::BodyContext;
use isle::ir::{ExprInst, ExprSequence, InstId, PatternInst, Value};
use isle::pos::Pos;
use isle::sema::{
    ArgPolarity, ConstructorKind, ExtractorKind, Field, FieldId, Sym, Term, TermEnv, TermId,
    TermKind, Type, TypeEnv, TypeId, Variant, VariantId,
};
use std::collections::BTreeMap;

fn pos(line: usize) -> Pos {
    Pos { file: 0, offset: 0, line, col: 0 }
}

/// `u32` is type 0, `bool` type 1, and the enum `Op` type 2, with the variants `Nop` and
/// `Add { x: u32, y: Op }`.
fn types() -> TypeEnv {
    let names = [
        "u32", "bool", "Op", "Nop", "Op.Nop", "Add", "Op.Add", "x", "y", "lower", "build", "split",
        "LIMIT",
    ];
    TypeEnv {
        filenames: vec!["a.isle".to_string(), "b.isle".to_string()],
        syms: names.iter().map(|s| s.to_string()).collect(),
        types: vec![
            Type::Primitive(TypeId(0), Sym(0), pos(1)),
            Type::Primitive(TypeId(1), Sym(1), pos(2)),
            Type::Enum {
                name: Sym(2),
                id: TypeId(2),
                is_extern: false,
                variants: vec![
                    Variant { name: Sym(3), fullname: Sym(4), id: VariantId(0), fields: vec![] },
                    Variant {
                        name: Sym(5),
                        fullname: Sym(6),
                        id: VariantId(1),
                        fields: vec![
                            Field { name: Sym(7), id: FieldId(0), ty: TypeId(0) },
                            Field { name: Sym(8), id: FieldId(1), ty: TypeId(2) },
                        ],
                    },
                ],
                pos: pos(3),
            },
        ],
    }
}

/// The term `lower` has a generated constructor, `build` an external one, and `split` an external
/// extractor that gives both its arguments.
fn terms() -> TermEnv {
    TermEnv {
        terms: vec![
            Term {
                id: TermId(0),
                name: Sym(9),
                arg_tys: vec![TypeId(2), TypeId(0)],
                ret_ty: TypeId(2),
                kind: TermKind::Decl {
                    constructor_kind: Some(ConstructorKind::InternalConstructor),
                    extractor_kind: None,
                },
            },
            Term {
                id: TermId(1),
                name: Sym(10),
                arg_tys: vec![TypeId(0), TypeId(2)],
                ret_ty: TypeId(2),
                kind: TermKind::Decl {
                    constructor_kind: Some(ConstructorKind::ExternalConstructor { name: Sym(10) }),
                    extractor_kind: None,
                },
            },
            Term {
                id: TermId(2),
                name: Sym(11),
                arg_tys: vec![TypeId(0), TypeId(2)],
                ret_ty: TypeId(2),
                kind: TermKind::Decl {
                    constructor_kind: None,
                    extractor_kind: Some(ExtractorKind::ExternalExtractor {
                        name: Sym(11),
                        arg_polarity: vec![ArgPolarity::Output, ArgPolarity::Output],
                        infallible: false,
                    }),
                },
            },
        ],
    }
}

fn pattern(inst: usize, output: usize) -> Value {
    Value::Pattern { inst: InstId(inst), output }
}

fn expr(inst: usize) -> Value {
    Value::Expr { inst: InstId(inst), output: 0 }
}

/// Bindings for an `Op` by reference, an `Op` by value, and a `u32`.
fn bound() -> BodyContext {
    let mut ctx = BodyContext::default();
    ctx.insert(pattern(0, 0), true, TypeId(2));
    ctx.insert(pattern(1, 0), false, TypeId(2));
    ctx.insert(pattern(2, 0), false, TypeId(0));
    ctx
}

fn expr_line(id: usize, inst: &ExprInst) -> (String, BodyContext, Vec<(usize, String)>) {
    let te = types();
    let tm = terms();
    let tries = BTreeMap::new();
    let c = Codegen::compile(&te, &tm, &tries);
    let mut code = String::new();
    let mut ctx = bound();
    let mut results = vec![];
    c.generate_expr_inst(&mut code, InstId(id), inst, "  ", &mut ctx, &mut results);
    (code, ctx, results)
}

fn pattern_line(id: usize, inst: &PatternInst) -> (String, BodyContext, bool) {
    let te = types();
    let tm = terms();
    let tries = BTreeMap::new();
    let c = Codegen::compile(&te, &tm, &tries);
    let mut code = "before\n".to_string();
    let mut ctx = bound();
    let infallible = c.generate_pattern_inst(&mut code, InstId(id), inst, "  ", &mut ctx);
    (code, ctx, infallible)
}

#[test]
fn integer_constant() {
    let (code, ctx, results) = expr_line(4, &ExprInst::ConstInt { ty: TypeId(0), val: -3 });
    assert_eq!(code, "  let expr4_0: u32 = -3;\n");
    assert_eq!(ctx.get(&expr(4)), Some((false, TypeId(0))));
    assert!(results.is_empty());
    let (code, _, _) = expr_line(4, &ExprInst::ConstInt { ty: TypeId(1), val: 2 });
    assert_eq!(code, "  let expr4_0: bool = true;\n");
}

#[test]
fn named_constant() {
    let (code, ctx, _) = expr_line(0, &ExprInst::ConstPrim { ty: TypeId(0), val: Sym(12) });
    assert_eq!(code, "  let expr0_0: u32 = LIMIT;\n");
    assert_eq!(ctx.get(&expr(0)), Some((false, TypeId(0))));
}

#[test]
fn variant_without_fields() {
    let inst = ExprInst::CreateVariant { inputs: vec![], ty: TypeId(2), variant: VariantId(0) };
    let (code, ctx, _) = expr_line(1, &inst);
    assert_eq!(code, "  let expr1_0 = Op::Nop;\n");
    assert_eq!(ctx.get(&expr(1)), Some((false, TypeId(2))));
}

#[test]
fn variant_with_fields() {
    let inst = ExprInst::CreateVariant {
        inputs: vec![(pattern(2, 0), TypeId(0)), (pattern(0, 0), TypeId(2))],
        ty: TypeId(2),
        variant: VariantId(1),
    };
    let (code, _, _) = expr_line(1, &inst);
    let want = "  let expr1_0 = Op::Add {\n      x: pattern2_0,\n      y: pattern0_0.clone(),\n  };\n";
    assert_eq!(code, want);
}

#[test]
fn fields_and_values_are_paired() {
    // The shorter of the two lists decides.
    let inst = ExprInst::CreateVariant {
        inputs: vec![(pattern(2, 0), TypeId(0))],
        ty: TypeId(2),
        variant: VariantId(1),
    };
    let (code, _, _) = expr_line(1, &inst);
    assert_eq!(code, "  let expr1_0 = Op::Add {\n      x: pattern2_0,\n  };\n");
    let inst = ExprInst::CreateVariant {
        inputs: vec![(pattern(2, 0), TypeId(0))],
        ty: TypeId(2),
        variant: VariantId(0),
    };
    let (code, _, _) = expr_line(1, &inst);
    assert_eq!(code, "  let expr1_0 = Op::Nop;\n");
}

#[test]
fn constructor_calls() {
    let inputs = vec![(pattern(2, 0), TypeId(0)), (pattern(1, 0), TypeId(2))];
    let inst = ExprInst::Construct {
        inputs: inputs.clone(),
        ty: TypeId(2),
        term: TermId(1),
        infallible: true,
    };
    let (code, ctx, _) = expr_line(2, &inst);
    assert_eq!(code, "  let expr2_0 = C::build(ctx, pattern2_0, &pattern1_0);\n");
    assert_eq!(ctx.get(&expr(2)), Some((false, TypeId(2))));
    let inst = ExprInst::Construct {
        inputs: vec![(pattern(0, 0), TypeId(2)), (pattern(2, 0), TypeId(0))],
        ty: TypeId(2),
        term: TermId(0),
        infallible: false,
    };
    let (code, _, _) = expr_line(2, &inst);
    assert_eq!(code, "  let expr2_0 = constructor_lower(ctx, pattern0_0, pattern2_0)?;\n");
}

#[test]
fn arguments_by_the_type_that_is_passed() {
    // A primitive type is passed by value, even where the variable is a reference.
    let inst = ExprInst::Construct {
        inputs: vec![(pattern(0, 0), TypeId(0)), (pattern(2, 0), TypeId(2))],
        ty: TypeId(2),
        term: TermId(1),
        infallible: true,
    };
    let (code, _, _) = expr_line(2, &inst);
    assert_eq!(code, "  let expr2_0 = C::build(ctx, pattern0_0.clone(), pattern2_0);\n");
}

#[test]
fn results_are_named() {
    let inst = ExprInst::Return { index: 3, ty: TypeId(2), value: pattern(0, 0) };
    let (code, _, results) = expr_line(2, &inst);
    assert_eq!(code, "");
    assert_eq!(results, vec![(3, "pattern0_0.clone()".to_string())]);
}

#[test]
fn arguments_of_the_function() {
    let (code, ctx, infallible) = pattern_line(5, &PatternInst::Arg { index: 1, ty: TypeId(2) });
    assert_eq!(code, "before\n  let pattern5_0 = arg1;\n");
    assert_eq!(ctx.get(&pattern(5, 0)), Some((true, TypeId(2))));
    assert!(infallible);
    let (_, ctx, _) = pattern_line(5, &PatternInst::Arg { index: 1, ty: TypeId(0) });
    assert_eq!(ctx.get(&pattern(5, 0)), Some((false, TypeId(0))));
}

#[test]
fn equal_values() {
    let inst = PatternInst::MatchEqual { a: pattern(0, 0), b: pattern(1, 0), ty: TypeId(2) };
    let (code, _, infallible) = pattern_line(5, &inst);
    assert_eq!(code, "before\n  if pattern0_0 == &pattern1_0 {\n");
    assert!(!infallible);
}

#[test]
fn equal_integers_and_constants() {
    let inst = PatternInst::MatchInt { input: pattern(2, 0), ty: TypeId(0), int_val: -9 };
    let (code, _, infallible) = pattern_line(5, &inst);
    assert_eq!(code, "before\n  if pattern2_0 == -9 {\n");
    assert!(!infallible);
    // The integer is written as it is, whatever its type.
    let inst = PatternInst::MatchInt { input: pattern(2, 0), ty: TypeId(1), int_val: 1 };
    let (code, _, _) = pattern_line(5, &inst);
    assert_eq!(code, "before\n  if pattern2_0 == 1 {\n");
    let inst = PatternInst::MatchPrim { input: pattern(0, 0), ty: TypeId(0), val: Sym(12) };
    let (code, _, infallible) = pattern_line(5, &inst);
    assert_eq!(code, "before\n  if pattern0_0.clone() == LIMIT {\n");
    assert!(!infallible);
}

#[test]
fn matched_variants() {
    let inst = PatternInst::MatchVariant {
        input: pattern(1, 0),
        input_ty: TypeId(2),
        arg_tys: vec![TypeId(0), TypeId(2)],
        variant: VariantId(1),
    };
    let (code, ctx, infallible) = pattern_line(5, &inst);
    let want = "before\n  if let &Op::Add { x: pattern5_0, y: ref pattern5_1 } = &pattern1_0 {\n";
    assert_eq!(code, want);
    assert_eq!(ctx.get(&pattern(5, 0)), Some((false, TypeId(0))));
    assert_eq!(ctx.get(&pattern(5, 1)), Some((false, TypeId(2))));
    assert!(!infallible);
    // Without fields two spaces are left.
    let inst = PatternInst::MatchVariant {
        input: pattern(0, 0),
        input_ty: TypeId(2),
        arg_tys: vec![],
        variant: VariantId(0),
    };
    let (code, _, _) = pattern_line(5, &inst);
    assert_eq!(code, "before\n  if let &Op::Nop  = pattern0_0 {\n");
}

#[test]
fn extractors() {
    let inst = PatternInst::Extract {
        inputs: vec![pattern(0, 0)],
        input_tys: vec![TypeId(2)],
        output_tys: vec![TypeId(0), TypeId(2)],
        term: TermId(2),
        infallible: false,
    };
    let (code, ctx, infallible) = pattern_line(5, &inst);
    let want = "before\n  if let Some((pattern5_0, pattern5_1)) = C::split(ctx, pattern0_0) {\n";
    assert_eq!(code, want);
    assert_eq!(ctx.get(&pattern(5, 0)), Some((false, TypeId(0))));
    assert_eq!(ctx.get(&pattern(5, 1)), Some((false, TypeId(2))));
    assert!(!infallible);
    let inst = PatternInst::Extract {
        inputs: vec![pattern(1, 0), pattern(2, 0)],
        input_tys: vec![TypeId(2), TypeId(0)],
        output_tys: vec![TypeId(0)],
        term: TermId(2),
        infallible: true,
    };
    let (code, _, infallible) = pattern_line(5, &inst);
    assert_eq!(code, "before\n  let pattern5_0 = C::split(ctx, &pattern1_0, pattern2_0);\n");
    assert!(infallible);
    let inst = PatternInst::Extract {
        inputs: vec![],
        input_tys: vec![],
        output_tys: vec![],
        term: TermId(2),
        infallible: true,
    };
    let (code, _, _) = pattern_line(5, &inst);
    assert_eq!(code, "before\n  let () = C::split(ctx, );\n");
}

#[test]
fn integer_expressions() {
    let inst = PatternInst::Expr {
        seq: ExprSequence {
            insts: vec![
                ExprInst::ConstInt { ty: TypeId(1), val: 1 },
                ExprInst::Return { index: 0, ty: TypeId(1), value: expr(0) },
            ],
            pos: pos(7),
        },
        output: expr(0),
        output_ty: TypeId(1),
    };
    let (code, ctx, infallible) = pattern_line(5, &inst);
    assert_eq!(code, "before\n  let pattern5_0 = true;\n");
    assert_eq!(ctx.get(&pattern(5, 0)), Some((false, TypeId(1))));
    assert!(infallible);
}

#[test]
fn expressions_in_closures() {
    let inst = PatternInst::Expr {
        seq: ExprSequence {
            insts: vec![
                ExprInst::ConstInt { ty: TypeId(0), val: 8 },
                ExprInst::Construct {
                    inputs: vec![(expr(0), TypeId(0)), (pattern(0, 0), TypeId(2))],
                    ty: TypeId(2),
                    term: TermId(1),
                    infallible: true,
                },
                ExprInst::Return { index: 0, ty: TypeId(2), value: expr(1) },
            ],
            pos: pos(7),
        },
        output: expr(1),
        output_ty: TypeId(2),
    };
    let (code, ctx, infallible) = pattern_line(5, &inst);
    let want = vec![
        "before",
        "  let closure5 = || {",
        "      let expr0_0: u32 = 8;",
        "      let expr1_0 = C::build(ctx, expr0_0, pattern0_0);",
        "      return Some(expr1_0);",
        "  };",
        "  if let Some(pattern5_0) = closure5() {",
        "",
    ];
    assert_eq!(code, want.join("\n"));
    // What the closure binds is not bound outside.
    assert_eq!(ctx.get(&expr(0)), None);
    assert_eq!(ctx.get(&expr(1)), None);
    assert_eq!(ctx.get(&pattern(5, 0)), Some((false, TypeId(2))));
    assert!(!infallible);
}

#[test]
fn file_names_do_not_open_blocks() {
    let mut te = types();
    te.filenames[0] = "a{.isle".to_string();
    let tm = terms();
    let tries = BTreeMap::new();
    let c = Codegen::compile(&te, &tm, &tries);
    let inst = PatternInst::Expr {
        seq: ExprSequence {
            insts: vec![
                ExprInst::CreateVariant {
                    inputs: vec![(pattern(2, 0), TypeId(0)), (pattern(1, 0), TypeId(2))],
                    ty: TypeId(2),
                    variant: VariantId(1),
                },
                ExprInst::Return { index: 0, ty: TypeId(2), value: expr(0) },
            ],
            pos: pos(7),
        },
        output: expr(0),
        output_ty: TypeId(2),
    };
    let mut code = String::new();
    let mut ctx = bound();
    assert!(!c.generate_pattern_inst(&mut code, InstId(5), &inst, "  ", &mut ctx));
    // The instruction leaves one block open, for what follows when it matches.
    assert_eq!(code.matches('{').count(), code.matches('}').count() + 1);
    assert!(code.ends_with("  if let Some(pattern5_0) = closure5() {\n"));
}
