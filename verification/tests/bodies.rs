//! The code for whole tries.

use isle::codegen::Codegen;
use isle::context::BodyContext;
use isle::group::adjacent_variants;
use isle::ir::{ExprInst, ExprSequence, InstId, PatternInst, Value};
use isle::pos::Pos;
use isle::sema::{
    ArgPolarity, ConstructorKind, ExtractorKind, Field, FieldId, Sym, Term, TermEnv, TermId,
    TermKind, Type, TypeEnv, TypeId, Variant, VariantId,
};
use isle::trie::{order_edges, PrioRange, TrieEdge, TrieNode, TrieSymbol};
use std::collections::BTreeMap;

fn pos(line: usize) -> Pos {
    Pos { file: 0, offset: 0, line, col: 0 }
}

/// `u32` is type 0, `bool` type 1, and the enum `Op` type 2, with the variants `Nop` and
/// `Add { x: u32, y: Op }`.
fn types() -> TypeEnv {
    let names = [
        "u32", "bool", "Op", "Nop", "Op.Nop", "Add", "Op.Add", "x", "y", "lower", "build", "split",
        "LIMIT",
    ];
    TypeEnv {
        filenames: vec!["a.isle".to_string(), "b.isle".to_string()],
        syms: names.iter().map(|s| s.to_string()).collect(),
        types: vec![
            Type::Primitive(TypeId(0), Sym(0), pos(1)),
            Type::Primitive(TypeId(1), Sym(1), pos(2)),
            Type::Enum {
                name: Sym(2),
                id: TypeId(2),
                is_extern: false,
                variants: vec![
                    Variant { name: Sym(3), fullname: Sym(4), id: VariantId(0), fields: vec![] },
                    Variant {
                        name: Sym(5),
                        fullname: Sym(6),
                        id: VariantId(1),
                        fields: vec![
                            Field { name: Sym(7), id: FieldId(0), ty: TypeId(0) },
                            Field { name: Sym(8), id: FieldId(1), ty: TypeId(2) },
                        ],
                    },
                ],
                pos: pos(3),
            },
        ],
    }
}

/// The term `lower` has a generated constructor, `build` an external one, and `split` an external
/// extractor that gives both its arguments.
fn terms() -> TermEnv {
    TermEnv {
        terms: vec![
            Term {
                id: TermId(0),
                name: Sym(9),
                arg_tys: vec![TypeId(2), TypeId(0)],
                ret_ty: TypeId(2),
                kind: TermKind::Decl {
                    constructor_kind: Some(ConstructorKind::InternalConstructor),
                    extractor_kind: None,
                },
            },
            Term {
                id: TermId(1),
                name: Sym(10),
                arg_tys: vec![TypeId(0), TypeId(2)],
                ret_ty: TypeId(2),
                kind: TermKind::Decl {
                    constructor_kind: Some(ConstructorKind::ExternalConstructor { name: Sym(10) }),
                    extractor_kind: None,
                },
            },
            Term {
                id: TermId(2),
                name: Sym(11),
                arg_tys: vec![TypeId(0), TypeId(2)],
                ret_ty: TypeId(2),
                kind: TermKind::Decl {
                    constructor_kind: None,
                    extractor_kind: Some(ExtractorKind::ExternalExtractor {
                        name: Sym(11),
                        arg_polarity: vec![ArgPolarity::Output, ArgPolarity::Output],
                        infallible: false,
                    }),
                },
            },
        ],
    }
}

fn pattern(inst: usize, output: usize) -> Value {
    Value::Pattern { inst: InstId(inst), output }
}

fn expr(inst: usize) -> Value {
    Value::Expr { inst: InstId(inst), output: 0 }
}

fn leaf(line: usize, val: i64) -> TrieNode {
    TrieNode::Leaf {
        prio: 0,
        output: ExprSequence {
            insts: vec![
                ExprInst::ConstInt { ty: TypeId(0), val },
                ExprInst::Return { index: 0, ty: TypeId(0), value: expr(0) },
            ],
            pos: Pos { file: 1, offset: 0, line, col: 0 },
        },
    }
}

fn edge(min: i64, symbol: TrieSymbol, node: TrieNode) -> TrieEdge {
    TrieEdge { range: PrioRange { min, max: min }, symbol, node }
}

fn arg(index: usize, ty: usize) -> TrieSymbol {
    TrieSymbol::Match { op: PatternInst::Arg { index, ty: TypeId(ty) } }
}

fn is_int(value: Value, int_val: i64) -> TrieSymbol {
    TrieSymbol::Match { op: PatternInst::MatchInt { input: value, ty: TypeId(0), int_val } }
}

fn is_nop(value: Value) -> TrieSymbol {
    TrieSymbol::Match {
        op: PatternInst::MatchVariant {
            input: value,
            input_ty: TypeId(2),
            arg_tys: vec![],
            variant: VariantId(0),
        },
    }
}

fn is_add(value: Value) -> TrieSymbol {
    TrieSymbol::Match {
        op: PatternInst::MatchVariant {
            input: value,
            input_ty: TypeId(2),
            arg_tys: vec![TypeId(0), TypeId(2)],
            variant: VariantId(1),
        },
    }
}

fn decision(edges: Vec<TrieEdge>) -> TrieNode {
    TrieNode::Decision { edges }
}

fn body(node: &TrieNode) -> (String, bool) {
    let te = types();
    let tm = terms();
    let tries = BTreeMap::new();
    let c = Codegen::compile(&te, &tm, &tries);
    let mut code = String::new();
    let mut ctx = BodyContext::default();
    ctx.insert(pattern(9, 0), true, TypeId(2));
    ctx.insert(pattern(9, 1), false, TypeId(0));
    let returned = c.generate_body(&mut code, 0, node, "    ", &mut ctx);
    (code, returned)
}

fn lines(text: &[&str]) -> String {
    let mut s = String::new();
    for line in text {
        s.push_str(line);
        s.push('\n');
    }
    s
}

#[test]
fn nothing_to_try() {
    assert_eq!(body(&TrieNode::Empty), ("".to_string(), false));
    assert_eq!(body(&decision(vec![])), ("".to_string(), false));
}

#[test]
fn a_rule() {
    let (code, returned) = body(&leaf(12, 7));
    let want = [
        "    // Rule at b.isle line 12.",
        "    let expr0_0: u32 = 7;",
        "    return Some(expr0_0);",
    ];
    assert_eq!(code, lines(&want));
    assert!(returned);
}

#[test]
fn nothing_follows_what_always_returns() {
    let node = decision(vec![
        edge(1, arg(0, 2), leaf(1, 1)),
        edge(0, arg(1, 0), leaf(2, 2)),
    ]);
    let (code, returned) = body(&node);
    let want = [
        "    let pattern0_0 = arg0;",
        "    // Rule at b.isle line 1.",
        "    let expr0_0: u32 = 1;",
        "    return Some(expr0_0);",
    ];
    assert_eq!(code, lines(&want));
    assert!(returned);
}

#[test]
fn what_may_fail_is_a_block() {
    let node = decision(vec![
        edge(0, is_int(pattern(9, 1), 2), leaf(2, 2)),
        edge(5, is_int(pattern(9, 1), 1), leaf(1, 1)),
    ]);
    let (code, returned) = body(&node);
    let want = [
        "    if pattern9_1 == 1 {",
        "        // Rule at b.isle line 1.",
        "        let expr0_0: u32 = 1;",
        "        return Some(expr0_0);",
        "    }",
        "    if pattern9_1 == 2 {",
        "        // Rule at b.isle line 2.",
        "        let expr0_0: u32 = 2;",
        "        return Some(expr0_0);",
        "    }",
    ];
    assert_eq!(code, lines(&want));
    assert!(!returned);
}

#[test]
fn the_end_of_a_match_goes_on() {
    let node = decision(vec![
        edge(0, TrieSymbol::EndOfMatch, leaf(3, 3)),
        edge(0, is_int(pattern(9, 1), 2), leaf(2, 2)),
    ]);
    let (code, returned) = body(&node);
    let want = [
        "    if pattern9_1 == 2 {",
        "        // Rule at b.isle line 2.",
        "        let expr0_0: u32 = 2;",
        "        return Some(expr0_0);",
        "    }",
        "    // Rule at b.isle line 3.",
        "    let expr0_0: u32 = 3;",
        "    return Some(expr0_0);",
    ];
    assert_eq!(code, lines(&want));
    assert!(returned);
}

#[test]
fn the_last_end_of_a_match_decides() {
    // The edges behind the end of a match are still written.
    let node = decision(vec![
        edge(2, TrieSymbol::EndOfMatch, leaf(3, 3)),
        edge(1, is_int(pattern(9, 1), 2), TrieNode::Empty),
    ]);
    let (code, returned) = body(&node);
    let want = [
        "    // Rule at b.isle line 3.",
        "    let expr0_0: u32 = 3;",
        "    return Some(expr0_0);",
        "    if pattern9_1 == 2 {",
        "    }",
    ];
    assert_eq!(code, lines(&want));
    assert!(returned);
    let node = decision(vec![
        edge(2, TrieSymbol::EndOfMatch, leaf(3, 3)),
        edge(1, TrieSymbol::EndOfMatch, TrieNode::Empty),
    ]);
    assert!(!body(&node).1);
}

#[test]
fn different_variants_become_a_match() {
    let node = decision(vec![
        edge(0, is_add(pattern(9, 0)), decision(vec![
            edge(0, TrieSymbol::EndOfMatch, leaf(2, 2)),
        ])),
        edge(0, is_nop(pattern(9, 0)), leaf(1, 1)),
    ]);
    let (code, returned) = body(&node);
    let want = [
        "    match pattern9_0 {",
        "        &Op::Nop  => {",
        "            // Rule at b.isle line 1.",
        "            let expr0_0: u32 = 1;",
        "            return Some(expr0_0);",
        "        }",
        "        &Op::Add { x: pattern0_0, y: ref pattern0_1 } => {",
        "            // Rule at b.isle line 2.",
        "            let expr0_0: u32 = 2;",
        "            return Some(expr0_0);",
        "        }",
        "        _ => {}",
        "    }",
    ];
    assert_eq!(code, lines(&want));
    assert!(!returned);
}

#[test]
fn one_variant_is_no_match() {
    let node = decision(vec![edge(0, is_add(pattern(9, 0)), TrieNode::Empty)]);
    let (code, _) = body(&node);
    let want = [
        "    if let &Op::Add { x: pattern0_0, y: ref pattern0_1 } = pattern9_0 {",
        "    }",
    ];
    assert_eq!(code, lines(&want));
}

#[test]
fn a_variant_that_comes_again_starts_a_group() {
    let edges = vec![
        edge(3, is_nop(pattern(9, 0)), TrieNode::Empty),
        edge(2, is_add(pattern(9, 0)), TrieNode::Empty),
        edge(1, is_nop(pattern(9, 0)), TrieNode::Empty),
        edge(0, is_int(pattern(9, 1), 0), TrieNode::Empty),
    ];
    let order = order_edges(&edges);
    assert_eq!(order, vec![0, 1, 2, 3]);
    assert_eq!(adjacent_variants(&edges, &order, 0), 2);
    assert_eq!(adjacent_variants(&edges, &order, 1), 3);
    assert_eq!(adjacent_variants(&edges, &order, 2), 3);
    assert_eq!(adjacent_variants(&edges, &order, 3), 3);
    let (code, _) = body(&decision(edges));
    let want = [
        "    match pattern9_0 {",
        "        &Op::Nop  => {",
        "        }",
        "        &Op::Add { x: pattern0_0, y: ref pattern0_1 } => {",
        "        }",
        "        _ => {}",
        "    }",
        "    if let &Op::Nop  = pattern9_0 {",
        "    }",
        "    if pattern9_1 == 0 {",
        "    }",
    ];
    assert_eq!(code, lines(&want));
}

#[test]
fn another_value_starts_a_group() {
    let edges = vec![
        edge(3, is_nop(pattern(9, 0)), TrieNode::Empty),
        edge(2, is_add(pattern(8, 0)), TrieNode::Empty),
    ];
    let order = order_edges(&edges);
    assert_eq!(adjacent_variants(&edges, &order, 0), 1);
    assert_eq!(adjacent_variants(&edges, &order, 1), 2);
}

#[test]
fn depth_numbers_the_instructions() {
    let node = decision(vec![edge(
        0,
        arg(0, 0),
        decision(vec![edge(
            0,
            is_int(pattern(0, 0), 4),
            decision(vec![edge(0, arg(1, 2), TrieNode::Empty)]),
        )]),
    )]);
    let (code, returned) = body(&node);
    let want = [
        "    let pattern0_0 = arg0;",
        "    if pattern0_0 == 4 {",
        "        let pattern2_0 = arg1;",
        "    }",
    ];
    assert_eq!(code, lines(&want));
    assert!(!returned);
}

#[test]
fn blocks_are_closed() {
    let node = decision(vec![
        edge(0, is_add(pattern(9, 0)), decision(vec![
            edge(0, is_int(pattern(9, 1), 1), leaf(1, 1)),
            edge(0, is_int(pattern(9, 1), 2), leaf(2, 2)),
        ])),
        edge(0, is_nop(pattern(9, 0)), leaf(1, 1)),
        edge(0, TrieSymbol::EndOfMatch, leaf(3, 3)),
    ]);
    let (code, returned) = body(&node);
    let mut open = 0;
    let mut returns_outside = false;
    for line in code.lines() {
        if open == 0 && line.starts_with("    return ") {
            returns_outside = true;
        }
        for c in line.chars() {
            if c == '{' {
                open += 1;
            }
            if c == '}' {
                open -= 1;
            }
            assert!(open >= 0);
        }
    }
    assert_eq!(open, 0);
    assert!(returned);
    assert!(returns_outside);
}

#[test]
fn outer_bindings_are_kept() {
    let te = types();
    let tm = terms();
    let tries = BTreeMap::new();
    let c = Codegen::compile(&te, &tm, &tries);
    let mut code = String::new();
    let mut ctx = BodyContext::default();
    ctx.insert(pattern(0, 0), true, TypeId(2));
    ctx.insert(pattern(1, 0), false, TypeId(0));
    let node = decision(vec![
        edge(0, is_add(pattern(0, 0)), decision(vec![edge(0, arg(1, 0), leaf(1, 1))])),
        edge(0, is_nop(pattern(0, 0)), leaf(2, 2)),
    ]);
    c.generate_body(&mut code, 2, &node, "", &mut ctx);
    assert_eq!(ctx.get(&pattern(0, 0)), Some((true, TypeId(2))));
    assert_eq!(ctx.get(&pattern(1, 0)), Some((false, TypeId(0))));
    assert_eq!(ctx.get(&pattern(2, 0)), Some((false, TypeId(0))));
    assert_eq!(ctx.get(&pattern(2, 1)), Some((false, TypeId(2))));
    assert_eq!(ctx.get(&pattern(3, 0)), Some((false, TypeId(0))));
    assert_eq!(ctx.get(&expr(0)), Some((false, TypeId(0))));
}
