//! The order in which edges are tried.

use isle::codegen::Codegen;
use isle::context::BodyContext;
use isle::ir::{ExprInst, ExprSequence, InstId, PatternInst, Value};
use isle::order::{arrange, is_lex_less};
use isle::pos::Pos;
use isle::sema::{Sym, TermEnv, TermId, Type, TypeEnv, TypeId, VariantId};
use isle::trie::{order_edges, PrioRange, TrieEdge, TrieNode, TrieSymbol};
use std::collections::BTreeMap;

fn edge(min: i64, symbol: TrieSymbol) -> TrieEdge {
    TrieEdge { range: PrioRange { min, max: min }, symbol, node: TrieNode::Empty }
}

fn edge_up_to(min: i64, max: i64, symbol: TrieSymbol) -> TrieEdge {
    TrieEdge { range: PrioRange { min, max }, symbol, node: TrieNode::Empty }
}

fn op(op: PatternInst) -> TrieSymbol {
    TrieSymbol::Match { op }
}

fn value(inst: usize, output: usize) -> Value {
    Value::Pattern { inst: InstId(inst), output }
}

fn match_int(n: i64) -> TrieSymbol {
    op(PatternInst::MatchInt { input: value(0, 0), ty: TypeId(0), int_val: n })
}

fn extract(inputs: Vec<Value>, term: usize, infallible: bool) -> TrieSymbol {
    op(PatternInst::Extract {
        inputs,
        input_tys: vec![],
        output_tys: vec![],
        term: TermId(term),
        infallible,
    })
}

/// Whether `a` is tried before `b` whichever of them is given first.
fn comes_first(a: fn() -> TrieSymbol, b: fn() -> TrieSymbol) -> bool {
    order_edges(&vec![edge(0, a()), edge(0, b())]) == vec![0, 1]
        && order_edges(&vec![edge(0, b()), edge(0, a())]) == vec![1, 0]
}

#[test]
fn lexicographic() {
    assert!(is_lex_less(&vec![], &vec![0]));
    assert!(!is_lex_less(&vec![], &vec![]));
    assert!(!is_lex_less(&vec![0], &vec![]));
    assert!(is_lex_less(&vec![1, 2], &vec![1, 3]));
    assert!(is_lex_less(&vec![1, 2, 9], &vec![1, 3]));
    assert!(is_lex_less(&vec![1], &vec![1, -5]));
    assert!(!is_lex_less(&vec![1, 2], &vec![1, 2]));
    assert!(is_lex_less(&vec![-1], &vec![0]));
}

#[test]
fn equal_keys_stay_as_they_came() {
    let keys = vec![vec![2], vec![1], vec![2], vec![1], vec![0]];
    assert_eq!(arrange(&keys), vec![4, 1, 3, 0, 2]);
    assert_eq!(arrange(&vec![]), Vec::<usize>::new());
}

#[test]
fn higher_priorities_first() {
    let edges = vec![edge(-1, match_int(0)), edge(7, match_int(9)), edge(0, match_int(5))];
    assert_eq!(order_edges(&edges), vec![1, 2, 0]);
    let edges = vec![edge(i64::MAX, match_int(1)), edge(i64::MIN + 1, match_int(0))];
    assert_eq!(order_edges(&edges), vec![0, 1]);
}

#[test]
fn the_lowest_priority_counts() {
    let edges = vec![edge_up_to(1, 100, match_int(0)), edge_up_to(2, 2, match_int(1))];
    assert_eq!(order_edges(&edges), vec![1, 0]);
}

#[test]
fn a_single_edge() {
    assert_eq!(order_edges(&vec![edge(i64::MIN, match_int(0))]), vec![0]);
    assert_eq!(order_edges(&vec![]), Vec::<usize>::new());
}

#[test]
fn symbols_within_a_priority() {
    let edges = vec![edge(0, match_int(3)), edge(0, match_int(-4)), edge(0, match_int(0)), edge(0, match_int(3))];
    assert_eq!(order_edges(&edges), vec![1, 2, 0, 3]);
}

#[test]
fn kinds_of_symbols() {
    let kinds: Vec<fn() -> TrieSymbol> = vec![
        || op(PatternInst::Arg { index: 9, ty: TypeId(9) }),
        || op(PatternInst::MatchEqual { a: value(8, 0), b: value(8, 0), ty: TypeId(8) }),
        || op(PatternInst::MatchInt { input: value(7, 0), ty: TypeId(7), int_val: 7 }),
        || op(PatternInst::MatchPrim { input: value(6, 0), ty: TypeId(6), val: Sym(6) }),
        || {
            op(PatternInst::MatchVariant {
                input: value(5, 0),
                input_ty: TypeId(5),
                arg_tys: vec![],
                variant: VariantId(5),
            })
        },
        || extract(vec![value(4, 0)], 4, false),
        || {
            op(PatternInst::Expr {
                seq: ExprSequence {
                    insts: vec![],
                    pos: Pos { file: 0, offset: 0, line: 0, col: 0 },
                },
                output: value(0, 0),
                output_ty: TypeId(0),
            })
        },
        || TrieSymbol::EndOfMatch,
    ];
    for i in 0..kinds.len() {
        for j in i + 1..kinds.len() {
            assert!(comes_first(kinds[i], kinds[j]));
        }
    }
}

#[test]
fn fields_in_turn() {
    // The input comes before the integer.
    assert!(comes_first(
        || op(PatternInst::MatchInt { input: value(0, 1), ty: TypeId(0), int_val: 9 }),
        || op(PatternInst::MatchInt { input: value(1, 0), ty: TypeId(0), int_val: 0 }),
    ));
    // A pattern's value comes before an expression's.
    assert!(comes_first(
        || op(PatternInst::MatchInt { input: value(5, 5), ty: TypeId(0), int_val: 0 }),
        || op(PatternInst::MatchInt {
            input: Value::Expr { inst: InstId(0), output: 0 },
            ty: TypeId(0),
            int_val: 0,
        }),
    ));
    // The term comes before the flag, and false before true.
    assert!(comes_first(|| extract(vec![], 0, true), || extract(vec![], 1, false)));
    assert!(comes_first(|| extract(vec![], 1, false), || extract(vec![], 1, true)));
}

#[test]
fn lists_by_their_first_difference() {
    assert!(comes_first(|| extract(vec![], 9, true), || extract(vec![value(0, 0)], 0, false)));
    assert!(comes_first(
        || extract(vec![value(0, 0)], 9, true),
        || extract(vec![value(0, 0), value(0, 0)], 0, false),
    ));
    assert!(comes_first(
        || extract(vec![value(0, 0), value(9, 9)], 9, true),
        || extract(vec![value(0, 1)], 0, false),
    ));
}

fn sequence(insts: Vec<ExprInst>, line: usize) -> TrieSymbol {
    op(PatternInst::Expr {
        seq: ExprSequence { insts, pos: Pos { file: 0, offset: 0, line, col: 0 } },
        output: value(0, 0),
        output_ty: TypeId(0),
    })
}

#[test]
fn expressions_by_their_instructions() {
    assert!(comes_first(
        || sequence(vec![ExprInst::ConstInt { ty: TypeId(0), val: -1 }], 9),
        || sequence(vec![ExprInst::ConstInt { ty: TypeId(0), val: 0 }], 0),
    ));
    assert!(comes_first(
        || sequence(vec![ExprInst::ConstInt { ty: TypeId(9), val: 9 }], 9),
        || sequence(vec![ExprInst::ConstPrim { ty: TypeId(0), val: Sym(0) }], 0),
    ));
    assert!(comes_first(
        || sequence(
            vec![ExprInst::CreateVariant {
                inputs: vec![],
                ty: TypeId(9),
                variant: VariantId(9),
            }],
            9,
        ),
        || sequence(
            vec![ExprInst::CreateVariant {
                inputs: vec![(value(0, 0), TypeId(0))],
                ty: TypeId(0),
                variant: VariantId(0),
            }],
            0,
        ),
    ));
    assert!(comes_first(
        || sequence(
            vec![ExprInst::Construct {
                inputs: vec![],
                ty: TypeId(0),
                term: TermId(0),
                infallible: true,
            }],
            9,
        ),
        || sequence(vec![ExprInst::Return { index: 0, ty: TypeId(0), value: value(0, 0) }], 0),
    ));
    // Where the instructions are the same the position decides.
    assert!(comes_first(|| sequence(vec![], 1), || sequence(vec![], 2)));
}

#[test]
fn the_order_given_does_not_matter() {
    let te = TypeEnv {
        filenames: vec![],
        syms: vec!["u32".to_string()],
        types: vec![Type::Primitive(
            TypeId(0),
            Sym(0),
            Pos { file: 0, offset: 0, line: 0, col: 0 },
        )],
    };
    let tm = TermEnv { terms: vec![] };
    let tries = BTreeMap::new();
    let c = Codegen::compile(&te, &tm, &tries);
    let mut texts = vec![];
    for places in vec![[0, 1, 2], [0, 2, 1], [1, 0, 2], [1, 2, 0], [2, 0, 1], [2, 1, 0]] {
        let mut edges = vec![];
        for place in places {
            let all = vec![(1, match_int(4)), (1, match_int(2)), (3, match_int(4))];
            let (min, symbol) = all[place].clone();
            edges.push(edge(min, symbol));
        }
        let mut code = String::new();
        let mut ctx = BodyContext::default();
        ctx.insert(value(0, 0), false, TypeId(0));
        c.generate_body(&mut code, 1, &TrieNode::Decision { edges }, "", &mut ctx);
        texts.push(code);
    }
    let want = "if pattern0_0 == 4 {\n}\nif pattern0_0 == 2 {\n}\nif pattern0_0 == 4 {\n}\n";
    for text in texts {
        assert_eq!(text, want);
    }
}
