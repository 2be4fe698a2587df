//! Names, constants and bindings.

use isle::codegen::Codegen;
use isle::context::BodyContext;
use isle::ir::{ExprInst, ExprSequence, InstId, PatternInst, Value};
use isle::pos::Pos;
use isle::sema::{
    ArgPolarity, ConstructorKind, ExtractorKind, Field, FieldId, Sym, Term, TermEnv, TermId,
    TermKind, Type, TypeEnv, TypeId, Variant, VariantId,
};
use isle::text::{decimal_string, join_comma, signed_decimal_string, truth_str};
use std::collections::BTreeMap;

fn pos(line: usize) -> Pos {
    Pos { file: 0, offset: 0, line, col: 0 }
}

/// `u32` is type 0, `bool` type 1, and the enum `Op` type 2, with the variants `Nop` and
/// `Add { x: u32, y: Op }`.
fn types() -> TypeEnv {
    let names = ["u32", "bool", "Op", "Nop", "Op.Nop", "Add", "Op.Add", "x", "y"];
    TypeEnv {
        filenames: vec!["a.isle".to_string()],
        syms: names.iter().map(|s| s.to_string()).collect(),
        types: vec![
            Type::Primitive(TypeId(0), Sym(0), pos(1)),
            Type::Primitive(TypeId(1), Sym(1), pos(2)),
            Type::Enum {
                name: Sym(2),
                id: TypeId(2),
                is_extern: false,
                variants: vec![
                    Variant { name: Sym(3), fullname: Sym(4), id: VariantId(0), fields: vec![] },
                    Variant {
                        name: Sym(5),
                        fullname: Sym(6),
                        id: VariantId(1),
                        fields: vec![
                            Field { name: Sym(7), id: FieldId(0), ty: TypeId(0) },
                            Field { name: Sym(8), id: FieldId(1), ty: TypeId(2) },
                        ],
                    },
                ],
                pos: pos(3),
            },
        ],
    }
}

fn pattern(inst: usize, output: usize) -> Value {
    Value::Pattern { inst: InstId(inst), output }
}

fn expr(inst: usize) -> Value {
    Value::Expr { inst: InstId(inst), output: 0 }
}

#[test]
fn decimals() {
    assert_eq!(decimal_string(0), "0");
    assert_eq!(decimal_string(9), "9");
    assert_eq!(decimal_string(10), "10");
    assert_eq!(decimal_string(1234567890), "1234567890");
    assert_eq!(decimal_string(u64::MAX), "18446744073709551615");
}

#[test]
fn signed_decimals() {
    assert_eq!(signed_decimal_string(0), "0");
    assert_eq!(signed_decimal_string(-1), "-1");
    assert_eq!(signed_decimal_string(42), "42");
    assert_eq!(signed_decimal_string(i64::MIN), "-9223372036854775808");
    assert_eq!(signed_decimal_string(i64::MAX), "9223372036854775807");
}

#[test]
fn truth_words() {
    assert_eq!(truth_str(true), "true");
    assert_eq!(truth_str(false), "false");
}

#[test]
fn comma_lists() {
    assert_eq!(join_comma(&vec![]), "");
    assert_eq!(join_comma(&vec!["a".to_string()]), "a");
    assert_eq!(join_comma(&vec!["a".to_string(), "b".to_string(), "".to_string()]), "a, b, ");
}

#[test]
fn lines_of_positions() {
    let files = vec!["a.isle".to_string(), "b.isle".to_string()];
    let p = Pos { file: 1, offset: 99, line: 12, col: 3 };
    assert_eq!(p.pretty_print_line(&files), "b.isle line 12");
}

#[test]
fn type_names() {
    let te = types();
    let tm = TermEnv { terms: vec![] };
    let tries = BTreeMap::new();
    let c = Codegen::compile(&te, &tm, &tries);
    assert_eq!(c.ty_name(TypeId(0), true), "u32");
    assert_eq!(c.ty_name(TypeId(0), false), "u32");
    assert_eq!(c.ty_name(TypeId(2), true), "&Op");
    assert_eq!(c.ty_name(TypeId(2), false), "Op");
    assert!(c.ty_prim(TypeId(1)));
    assert!(!c.ty_prim(TypeId(2)));
    assert_eq!(te.types[2].name(&te), "Op");
    assert_eq!(te.types[2].variants().unwrap().len(), 2);
    assert!(te.types[0].variants().is_none());
    assert!(te.types[0].is_prim());
}

#[test]
fn value_names() {
    let te = types();
    let tm = TermEnv { terms: vec![] };
    let tries = BTreeMap::new();
    let c = Codegen::compile(&te, &tm, &tries);
    assert_eq!(c.value_name(&pattern(3, 14)), "pattern3_14");
    assert_eq!(c.value_name(&Value::Expr { inst: InstId(20), output: 1 }), "expr20_1");
}

#[test]
fn different_values_have_different_names() {
    let te = types();
    let tm = TermEnv { terms: vec![] };
    let tries = BTreeMap::new();
    let c = Codegen::compile(&te, &tm, &tries);
    let values = vec![pattern(1, 11), pattern(11, 1), pattern(1, 1), pattern(111, 0), expr(1)];
    for i in 0..values.len() {
        for j in 0..values.len() {
            assert_eq!(c.value_name(&values[i]) == c.value_name(&values[j]), i == j);
        }
    }
}

#[test]
fn binders() {
    let te = types();
    let tm = TermEnv { terms: vec![] };
    let tries = BTreeMap::new();
    let c = Codegen::compile(&te, &tm, &tries);
    assert_eq!(c.value_binder(&pattern(1, 0), true, TypeId(2)), "ref pattern1_0");
    assert_eq!(c.value_binder(&pattern(1, 0), false, TypeId(2)), "pattern1_0");
    assert_eq!(c.value_binder(&pattern(1, 0), true, TypeId(0)), "pattern1_0");
}

#[test]
fn bound_values() {
    let te = types();
    let tm = TermEnv { terms: vec![] };
    let tries = BTreeMap::new();
    let c = Codegen::compile(&te, &tm, &tries);
    let mut ctx = BodyContext::default();
    assert_eq!(ctx.get(&pattern(0, 0)), None);
    c.define_val(&pattern(0, 0), &mut ctx, true, TypeId(2));
    c.define_val(&pattern(1, 0), &mut ctx, false, TypeId(2));
    c.define_val(&pattern(2, 0), &mut ctx, true, TypeId(0));
    assert_eq!(ctx.get(&pattern(0, 0)), Some((true, TypeId(2))));
    assert_eq!(ctx.get(&pattern(1, 0)), Some((false, TypeId(2))));
    // A value of a primitive type is never a reference.
    assert_eq!(ctx.get(&pattern(2, 0)), Some((false, TypeId(0))));
    assert_eq!(c.value_by_ref(&pattern(0, 0), &ctx), "pattern0_0");
    assert_eq!(c.value_by_ref(&pattern(1, 0), &ctx), "&pattern1_0");
    assert_eq!(c.value_by_ref(&pattern(2, 0), &ctx), "pattern2_0");
    assert_eq!(c.value_by_val(&pattern(0, 0), &ctx), "pattern0_0.clone()");
    assert_eq!(c.value_by_val(&pattern(1, 0), &ctx), "pattern1_0");
    assert_eq!(c.value_by_val(&pattern(2, 0), &ctx), "pattern2_0");
}

#[test]
fn a_copy_of_the_bindings_is_on_its_own() {
    let mut ctx = BodyContext::default();
    ctx.insert(expr(0), false, TypeId(0));
    let mut copy = ctx.duplicate();
    copy.insert(expr(1), true, TypeId(2));
    copy.insert(expr(0), true, TypeId(2));
    assert_eq!(ctx.get(&expr(0)), Some((false, TypeId(0))));
    assert_eq!(ctx.get(&expr(1)), None);
    assert_eq!(copy.get(&expr(0)), Some((true, TypeId(2))));
    assert_eq!(copy.get(&expr(1)), Some((true, TypeId(2))));
    // Pattern and expression values with the same numbers are different.
    assert_eq!(copy.get(&pattern(0, 0)), None);
}

#[test]
fn constants() {
    let te = types();
    let tm = TermEnv { terms: vec![] };
    let tries = BTreeMap::new();
    let c = Codegen::compile(&te, &tm, &tries);
    assert_eq!(c.const_int(0, TypeId(0)), "0");
    assert_eq!(c.const_int(-7, TypeId(0)), "-7");
    assert_eq!(c.const_int(0, TypeId(1)), "false");
    assert_eq!(c.const_int(1, TypeId(1)), "true");
    assert_eq!(c.const_int(-1, TypeId(1)), "true");
}

#[test]
fn sequences_that_return_an_integer() {
    let int = ExprInst::ConstInt { ty: TypeId(0), val: 5 };
    let ret = ExprInst::Return { index: 0, ty: TypeId(0), value: expr(0) };
    let s = ExprSequence { insts: vec![int.clone(), ret.clone()], pos: pos(1) };
    assert_eq!(s.is_const_int(), Some((TypeId(0), 5)));
    let s = ExprSequence { insts: vec![ret.clone(), int.clone()], pos: pos(1) };
    assert_eq!(s.is_const_int(), None);
    let s = ExprSequence { insts: vec![int.clone(), ret.clone(), ret.clone()], pos: pos(1) };
    assert_eq!(s.is_const_int(), None);
    let s = ExprSequence { insts: vec![], pos: pos(1) };
    assert_eq!(s.is_const_int(), None);
    let one = ExprInst::ConstPrim { ty: TypeId(0), val: Sym(0) };
    let s = ExprSequence { insts: vec![one, ret], pos: pos(1) };
    assert_eq!(s.is_const_int(), None);
}

#[test]
fn instructions_that_always_match() {
    assert!(PatternInst::Arg { index: 0, ty: TypeId(0) }.is_infallible());
    let m = PatternInst::MatchInt { input: expr(0), ty: TypeId(0), int_val: 1 };
    assert!(!m.is_infallible());
    for infallible in vec![true, false] {
        let e = PatternInst::Extract {
            inputs: vec![],
            input_tys: vec![],
            output_tys: vec![],
            term: TermId(0),
            infallible,
        };
        assert_eq!(e.is_infallible(), infallible);
    }
    let int = ExprInst::ConstInt { ty: TypeId(0), val: 5 };
    let ret = ExprInst::Return { index: 0, ty: TypeId(0), value: expr(0) };
    let e = PatternInst::Expr {
        seq: ExprSequence { insts: vec![int.clone(), ret.clone()], pos: pos(1) },
        output: expr(0),
        output_ty: TypeId(0),
    };
    assert!(e.is_infallible());
    let e = PatternInst::Expr {
        seq: ExprSequence { insts: vec![int.clone(), int, ret], pos: pos(1) },
        output: expr(0),
        output_ty: TypeId(0),
    };
    assert!(!e.is_infallible());
}

fn decl(constructor: Option<ConstructorKind>, extractor: Option<ExtractorKind>) -> Term {
    Term {
        id: TermId(0),
        name: Sym(5),
        arg_tys: vec![TypeId(0), TypeId(1), TypeId(2)],
        ret_ty: TypeId(2),
        kind: TermKind::Decl { constructor_kind: constructor, extractor_kind: extractor },
    }
}

#[test]
fn constructor_signatures() {
    let te = types();
    let t = decl(Some(ConstructorKind::InternalConstructor), None);
    assert!(t.has_constructor());
    assert!(!t.has_external_constructor());
    let sig = t.constructor_sig(&te).unwrap();
    assert_eq!(sig.func_name, "constructor_Add");
    assert_eq!(sig.full_name, "constructor_Add");
    assert_eq!(sig.param_tys, vec![TypeId(0), TypeId(1), TypeId(2)]);
    assert_eq!(sig.ret_tys, vec![TypeId(2)]);
    assert!(!sig.infallible);

    let t = decl(Some(ConstructorKind::ExternalConstructor { name: Sym(7) }), None);
    assert!(t.has_constructor());
    assert!(t.has_external_constructor());
    let sig = t.constructor_sig(&te).unwrap();
    assert_eq!(sig.func_name, "x");
    assert_eq!(sig.full_name, "C::x");
    assert_eq!(sig.ret_tys, vec![TypeId(2)]);
    assert!(sig.infallible);

    let t = decl(None, None);
    assert!(!t.has_constructor());
    assert!(t.constructor_sig(&te).is_none());
}

#[test]
fn extractor_signatures() {
    let te = types();
    let kind = ExtractorKind::ExternalExtractor {
        name: Sym(8),
        arg_polarity: vec![ArgPolarity::Output, ArgPolarity::Input, ArgPolarity::Output],
        infallible: false,
    };
    let t = decl(None, Some(kind));
    assert!(t.has_external_extractor());
    let sig = t.extractor_sig(&te).unwrap();
    assert_eq!(sig.func_name, "y");
    assert_eq!(sig.full_name, "C::y");
    assert_eq!(sig.param_tys, vec![TypeId(2), TypeId(1)]);
    assert_eq!(sig.ret_tys, vec![TypeId(0), TypeId(2)]);
    assert!(!sig.infallible);

    let t = decl(None, Some(ExtractorKind::InternalExtractor));
    assert!(!t.has_external_extractor());
    assert!(t.extractor_sig(&te).is_none());
}

#[test]
fn enum_variants_have_no_functions() {
    let te = types();
    let mut t = decl(None, None);
    t.kind = TermKind::EnumVariant { variant: VariantId(0) };
    assert!(!t.has_constructor());
    assert!(!t.has_external_constructor());
    assert!(!t.has_external_extractor());
    assert!(t.constructor_sig(&te).is_none());
    assert!(t.extractor_sig(&te).is_none());
}
