//! The generated file as a whole.

use isle::codegen::{codegen, Codegen};
use isle::ir::{ExprInst, ExprSequence, InstId, PatternInst, Value};
use isle::pos::Pos;
use isle::sema::{
    ArgPolarity, ConstructorKind, ExtractorKind, Field, FieldId, Sym, Term, TermEnv, TermId,
    TermKind, Type, TypeEnv, TypeId, Variant, VariantId,
};
use isle::trie::{PrioRange, TrieEdge, TrieNode, TrieSymbol};
use isle::tries::tries_in_order;
use std::collections::BTreeMap;

fn pos(line: usize) -> Pos {
    Pos { file: 0, offset: 0, line, col: 0 }
}

/// `u32` is type 0, `bool` type 1, and the enum `Op` type 2, with the variants `Nop` and
/// `Add { x: u32, y: Op }`.
fn types() -> TypeEnv {
    let names = [
        "u32", "bool", "Op", "Nop", "Op.Nop", "Add", "Op.Add", "x", "y", "lower", "build", "split",
        "LIMIT",
    ];
    TypeEnv {
        filenames: vec!["a.isle".to_string(), "b.isle".to_string()],
        syms: names.iter().map(|s| s.to_string()).collect(),
        types: vec![
            Type::Primitive(TypeId(0), Sym(0), pos(1)),
            Type::Primitive(TypeId(1), Sym(1), pos(2)),
            Type::Enum {
                name: Sym(2),
                id: TypeId(2),
                is_extern: false,
                variants: vec![
                    Variant { name: Sym(3), fullname: Sym(4), id: VariantId(0), fields: vec![] },
                    Variant {
                        name: Sym(5),
                        fullname: Sym(6),
                        id: VariantId(1),
                        fields: vec![
                            Field { name: Sym(7), id: FieldId(0), ty: TypeId(0) },
                            Field { name: Sym(8), id: FieldId(1), ty: TypeId(2) },
                        ],
                    },
                ],
                pos: pos(3),
            },
        ],
    }
}

/// The term `lower` has a generated constructor, `build` an external one, and `split` an external
/// extractor that gives both its arguments.
fn terms() -> TermEnv {
    TermEnv {
        terms: vec![
            Term {
                id: TermId(0),
                name: Sym(9),
                arg_tys: vec![TypeId(2), TypeId(0)],
                ret_ty: TypeId(2),
                kind: TermKind::Decl {
                    constructor_kind: Some(ConstructorKind::InternalConstructor),
                    extractor_kind: None,
                },
            },
            Term {
                id: TermId(1),
                name: Sym(10),
                arg_tys: vec![TypeId(0), TypeId(2)],
                ret_ty: TypeId(2),
                kind: TermKind::Decl {
                    constructor_kind: Some(ConstructorKind::ExternalConstructor { name: Sym(10) }),
                    extractor_kind: None,
                },
            },
            Term {
                id: TermId(2),
                name: Sym(11),
                arg_tys: vec![TypeId(0), TypeId(2)],
                ret_ty: TypeId(2),
                kind: TermKind::Decl {
                    constructor_kind: None,
                    extractor_kind: Some(ExtractorKind::ExternalExtractor {
                        name: Sym(11),
                        arg_polarity: vec![ArgPolarity::Output, ArgPolarity::Output],
                        infallible: false,
                    }),
                },
            },
        ],
    }
}

fn pattern(inst: usize, output: usize) -> Value {
    Value::Pattern { inst: InstId(inst), output }
}

fn expr(inst: usize) -> Value {
    Value::Expr { inst: InstId(inst), output: 0 }
}

/// Returns its second argument, where the first is `Nop`.
fn trie() -> TrieNode {
    let range = PrioRange { min: 0, max: 0 };
    let leaf = TrieNode::Leaf {
        prio: 0,
        output: ExprSequence {
            insts: vec![
                ExprInst::CreateVariant {
                    inputs: vec![(pattern(2, 0), TypeId(0)), (pattern(0, 0), TypeId(2))],
                    ty: TypeId(2),
                    variant: VariantId(1),
                },
                ExprInst::Return { index: 0, ty: TypeId(2), value: expr(0) },
            ],
            pos: Pos { file: 1, offset: 0, line: 40, col: 2 },
        },
    };
    let second = TrieNode::Decision {
        edges: vec![TrieEdge {
            range,
            symbol: TrieSymbol::Match { op: PatternInst::Arg { index: 1, ty: TypeId(0) } },
            node: TrieNode::Decision {
                edges: vec![TrieEdge { range, symbol: TrieSymbol::EndOfMatch, node: leaf }],
            },
        }],
    };
    let variant = TrieNode::Decision {
        edges: vec![TrieEdge {
            range,
            symbol: TrieSymbol::Match {
                op: PatternInst::MatchVariant {
                    input: pattern(0, 0),
                    input_ty: TypeId(2),
                    arg_tys: vec![],
                    variant: VariantId(0),
                },
            },
            node: second,
        }],
    };
    TrieNode::Decision {
        edges: vec![TrieEdge {
            range,
            symbol: TrieSymbol::Match { op: PatternInst::Arg { index: 0, ty: TypeId(2) } },
            node: variant,
        }],
    }
}

const HEADER: &str = "\
// GENERATED BY ISLE. DO NOT EDIT!
//
// Generated automatically from the instruction-selection DSL code in:
// - a.isle
// - b.isle

#![allow(dead_code, unreachable_code, unreachable_patterns)]
#![allow(unused_imports, unused_variables, non_snake_case)]
#![allow(irrefutable_let_patterns)]

use super::*;  // Pulls in all external types.
";

const CONTEXT: &str = "
/// Context during lowering: an implementation of this trait
/// must be provided with all external constructors and extractors.
/// A mutable borrow is passed along through all lowering logic.
pub trait Context {
    fn build(&mut self, arg0: u32, arg1: &Op) -> Op;
    fn split(&mut self, arg0: &Op) -> Option<(u32, Op)>;
}
";

const TYPES: &str = "
/// Internal type Op: defined at a.isle line 3.
#[derive(Clone, Debug)]
pub enum Op {
    Nop,
    Add {
        x: u32,
        y: Op,
    },
}
";

const FUNCTION: &str = "
// Generated as internal constructor for term lower.
pub fn constructor_lower<C: Context>(ctx: &mut C, arg0: &Op, arg1: u32) -> Option<Op> {
    let pattern0_0 = arg0;
    if let &Op::Nop  = pattern0_0 {
        let pattern2_0 = arg1;
        // Rule at b.isle line 40.
        let expr0_0 = Op::Add {
            x: pattern2_0,
            y: pattern0_0.clone(),
        };
        return Some(expr0_0);
    }
    return None;
}
";

#[test]
fn whole_file() {
    let mut tries = BTreeMap::new();
    tries.insert(0, trie());
    let code = codegen(&types(), &terms(), &tries);
    assert_eq!(code, format!("{}{}{}{}", HEADER, CONTEXT, TYPES, FUNCTION));
    assert_eq!(code.matches('{').count(), code.matches('}').count());
    assert!(code.ends_with('\n'));
}

#[test]
fn parts_of_the_file() {
    let te = types();
    let tm = terms();
    let mut tries = BTreeMap::new();
    tries.insert(0, trie());
    let c = Codegen::compile(&te, &tm, &tries);
    let mut code = "start".to_string();
    c.generate_header(&mut code);
    assert_eq!(code, format!("start{}", HEADER));
    let mut code = String::new();
    c.generate_ctx_trait(&mut code);
    assert_eq!(code, CONTEXT);
    let mut code = String::new();
    c.generate_internal_types(&mut code);
    assert_eq!(code, TYPES);
    let mut code = String::new();
    c.generate_internal_term_constructors(&mut code);
    assert_eq!(code, FUNCTION);
    assert_eq!(c.generate_rust(), format!("{}{}{}{}", HEADER, CONTEXT, TYPES, FUNCTION));
}

#[test]
fn empty_program() {
    let te = TypeEnv { filenames: vec![], syms: vec![], types: vec![] };
    let tm = TermEnv { terms: vec![] };
    let code = codegen(&te, &tm, &BTreeMap::new());
    let mut want = HEADER.replace("// - a.isle\n// - b.isle\n", "");
    want.push_str("\n/// Context during lowering: an implementation of this trait\n");
    want.push_str("/// must be provided with all external constructors and extractors.\n");
    want.push_str("/// A mutable borrow is passed along through all lowering logic.\n");
    want.push_str("pub trait Context {\n}\n");
    assert_eq!(code, want);
}

#[test]
fn no_function_without_a_generated_constructor() {
    // `build` has an external constructor, and `split` none.
    let mut tries = BTreeMap::new();
    tries.insert(1, trie());
    tries.insert(2, trie());
    let code = codegen(&types(), &terms(), &tries);
    assert_eq!(code, format!("{}{}{}", HEADER, CONTEXT, TYPES));
}

#[test]
fn no_function_for_an_enum_variant() {
    let mut tm = terms();
    tm.terms[0].kind = TermKind::EnumVariant { variant: VariantId(0) };
    let mut tries = BTreeMap::new();
    tries.insert(0, trie());
    let code = codegen(&types(), &tm, &tries);
    assert_eq!(code, format!("{}{}{}", HEADER, CONTEXT, TYPES));
}

#[test]
fn no_function_without_a_trie() {
    let code = codegen(&types(), &terms(), &BTreeMap::new());
    assert_eq!(code, format!("{}{}{}", HEADER, CONTEXT, TYPES));
}

#[test]
fn a_term_with_both_kinds_of_function() {
    // The function is generated though the extractor is external.
    let mut tm = terms();
    tm.terms[2].kind = TermKind::Decl {
        constructor_kind: Some(ConstructorKind::InternalConstructor),
        extractor_kind: Some(ExtractorKind::ExternalExtractor {
            name: Sym(11),
            arg_polarity: vec![ArgPolarity::Output, ArgPolarity::Output],
            infallible: false,
        }),
    };
    let mut tries = BTreeMap::new();
    tries.insert(2, TrieNode::Empty);
    let code = codegen(&types(), &tm, &tries);
    let function = "
// Generated as internal constructor for term split.
pub fn constructor_split<C: Context>(ctx: &mut C, arg0: u32, arg1: &Op) -> Option<Op> {
    return None;
}
";
    assert_eq!(code, format!("{}{}{}{}", HEADER, CONTEXT, TYPES, function));
}

#[test]
fn functions_in_the_order_of_their_terms() {
    let mut tm = terms();
    tm.terms[1].kind = TermKind::Decl {
        constructor_kind: Some(ConstructorKind::InternalConstructor),
        extractor_kind: None,
    };
    let mut tries = BTreeMap::new();
    tries.insert(1, TrieNode::Empty);
    tries.insert(0, TrieNode::Empty);
    let indices: Vec<usize> = tries_in_order(&tries).iter().map(|entry| entry.0).collect();
    assert_eq!(indices, vec![0, 1]);
    let code = codegen(&types(), &tm, &tries);
    let first = code.find("constructor_lower").unwrap();
    let second = code.find("constructor_build").unwrap();
    assert!(first < second);
}

#[test]
fn a_function_that_always_returns() {
    let leaf = TrieNode::Leaf {
        prio: 0,
        output: ExprSequence {
            insts: vec![
                ExprInst::CreateVariant {
                    inputs: vec![],
                    ty: TypeId(2),
                    variant: VariantId(0),
                },
                ExprInst::Return { index: 0, ty: TypeId(2), value: expr(0) },
            ],
            pos: pos(5),
        },
    };
    let mut tries = BTreeMap::new();
    tries.insert(0, leaf);
    let code = codegen(&types(), &terms(), &tries);
    let function = "
// Generated as internal constructor for term lower.
pub fn constructor_lower<C: Context>(ctx: &mut C, arg0: &Op, arg1: u32) -> Option<Op> {
    // Rule at a.isle line 5.
    let expr0_0 = Op::Nop;
    return Some(expr0_0);
}
";
    assert_eq!(code, format!("{}{}{}{}", HEADER, CONTEXT, TYPES, function));
}

#[test]
fn external_enums_are_not_declared() {
    let mut te = types();
    if let Type::Enum { is_extern, .. } = &mut te.types[2] {
        *is_extern = true;
    }
    let code = codegen(&te, &terms(), &BTreeMap::new());
    assert_eq!(code, format!("{}{}", HEADER, CONTEXT));
}

#[test]
fn methods_of_the_context() {
    let mut tm = terms();
    tm.terms.truncate(1);
    tm.terms[0].kind = TermKind::Decl {
        constructor_kind: Some(ConstructorKind::ExternalConstructor { name: Sym(10) }),
        extractor_kind: Some(ExtractorKind::ExternalExtractor {
            name: Sym(11),
            arg_polarity: vec![ArgPolarity::Output, ArgPolarity::Input],
            infallible: true,
        }),
    };
    let te = types();
    let tries = BTreeMap::new();
    let c = Codegen::compile(&te, &tm, &tries);
    let mut code = String::new();
    c.generate_ctx_trait(&mut code);
    // The extractor comes first.
    assert!(code.ends_with(
        "pub trait Context {
    fn split(&mut self, arg0: &Op, arg1: u32) -> Op;
    fn build(&mut self, arg0: &Op, arg1: u32) -> Op;
}
"
    ));
    let mut sig = tm.terms[0].extractor_sig(&te).unwrap();
    sig.ret_tys = vec![];
    sig.infallible = false;
    let mut code = String::new();
    c.generate_trait_sig(&mut code, "", &sig);
    assert_eq!(code, "fn split(&mut self, arg0: &Op, arg1: u32) -> Option<()>;\n");
    sig.param_tys = vec![];
    sig.infallible = true;
    let mut code = String::new();
    c.generate_trait_sig(&mut code, "", &sig);
    assert_eq!(code, "fn split(&mut self, ) -> ();\n");
}
