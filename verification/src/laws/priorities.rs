//! Which of two edges is tried first, by what the edges hold.

use crate::ir::{ExprInst, ExprSequence, PatternInst, Value};
use crate::laws::edges::{law_edge_order, tried_before};
use crate::laws::symbols::{
    expr_inst_rank, expr_insts_rank, expr_sequence_rank, law_rank_irreflexive, law_symbol_order,
    number, parts_less, pattern_rank, pos_rank, rank_less, symbol_rank, typed_values_rank,
    types_rank, value_rank, values_rank, Rank,
};
use crate::order::{law_lex_irreflexive, law_lex_transitive, lex_less};
use crate::sema::{TermId, TypeId, VariantId};
use crate::trie::{edge_order, symbol_key, TrieEdge, TrieSymbol};
use vstd::prelude::*;

verus! {

/// Edges are tried by falling priority, of which the lowest of an edge's range counts.
pub proof fn law_falling_priority(edges: Seq<TrieEdge>, i: int, j: int)
    requires
        0 <= i < j < edges.len(),
    ensures
        edges[edge_order(edges)[i]].range.min >= edges[edge_order(edges)[j]].range.min,
{
    law_edge_order(edges);
    assert(tried_before(edges, edge_order(edges)[i], edge_order(edges)[j]));
}

/// Within a priority edges are tried in the order of their symbols.
pub proof fn law_symbols_in_turn(edges: Seq<TrieEdge>, i: int, j: int)
    requires
        0 <= i < j < edges.len(),
        edges[edge_order(edges)[i]].range.min == edges[edge_order(edges)[j]].range.min,
    ensures
        !lex_less(
            symbol_key(edges[edge_order(edges)[j]].symbol),
            symbol_key(edges[edge_order(edges)[i]].symbol),
        ),
{
    law_edge_order(edges);
    let a = edges[edge_order(edges)[i]].symbol;
    let b = edges[edge_order(edges)[j]].symbol;
    assert(tried_before(edges, edge_order(edges)[i], edge_order(edges)[j]));
    law_symbol_order(a, b);
    law_symbol_order(b, a);
    law_lex_irreflexive(symbol_key(a));
    if lex_less(symbol_key(a), symbol_key(b)) && lex_less(symbol_key(b), symbol_key(a)) {
        law_lex_transitive(symbol_key(a), symbol_key(b), symbol_key(a));
    }
}

/// Edges of one priority and one symbol are tried as they were given.
pub proof fn law_as_given(edges: Seq<TrieEdge>, i: int, j: int)
    requires
        0 <= i < j < edges.len(),
        edges[edge_order(edges)[i]].range.min == edges[edge_order(edges)[j]].range.min,
        edges[edge_order(edges)[i]].symbol == edges[edge_order(edges)[j]].symbol,
    ensures
        edge_order(edges)[i] < edge_order(edges)[j],
{
    law_edge_order(edges);
    let a = edge_order(edges)[i];
    let b = edge_order(edges)[j];
    assert(tried_before(edges, a, b));
    law_rank_irreflexive(symbol_rank(edges[a].symbol));
}

/// Within a priority the end of a match is tried last.
pub proof fn law_end_of_match_last(edges: Seq<TrieEdge>, i: int, j: int)
    requires
        0 <= i < j < edges.len(),
        edges[edge_order(edges)[i]].range.min == edges[edge_order(edges)[j]].range.min,
        edges[edge_order(edges)[i]].symbol is EndOfMatch,
    ensures
        edges[edge_order(edges)[j]].symbol is EndOfMatch,
{
    law_edge_order(edges);
    let a = edge_order(edges)[i];
    let b = edge_order(edges)[j];
    assert(tried_before(edges, a, b));
    if let TrieSymbol::Match { op } = edges[b].symbol {
        let xs = seq![number(1)];
        let ys = seq![number(0), pattern_rank(op)];
        lemma_numbers(1, 0);
        lemma_heads(xs, ys);
        assert(!parts_less(xs, ys));
    }
}

/// Whether a value comes before another: those of patterns first, and then by the place of the
/// instruction and the output.
pub open spec fn value_before(a: Value, b: Value) -> bool {
    match (a, b) {
        (Value::Pattern { inst: i, output: x }, Value::Pattern { inst: j, output: y }) => i.0 < j.0
            || (i.0 == j.0 && x < y),
        (Value::Expr { inst: i, output: x }, Value::Expr { inst: j, output: y }) => i.0 < j.0 || (
        i.0 == j.0 && x < y),
        (Value::Pattern { .. }, Value::Expr { .. }) => true,
        (Value::Expr { .. }, Value::Pattern { .. }) => false,
    }
}

/// Whether a type comes before another, by their places among the types.
pub open spec fn type_before(a: TypeId, b: TypeId) -> bool {
    a.0 < b.0
}

/// Whether a list comes before another: at the first place where they differ it has ended, or has
/// what comes before.
pub open spec fn list_before<T>(xs: Seq<T>, ys: Seq<T>, before: spec_fn(T, T) -> bool) -> bool
    decreases xs.len(),
{
    if xs.len() == 0 || ys.len() == 0 {
        xs.len() < ys.len()
    } else if xs[0] == ys[0] {
        list_before(xs.skip(1), ys.skip(1), before)
    } else {
        before(xs[0], ys[0])
    }
}

/// The place of an instruction's kind among the kinds.
pub open spec fn kind_of(op: PatternInst) -> int {
    match op {
        PatternInst::Arg { .. } => 0,
        PatternInst::MatchEqual { .. } => 1,
        PatternInst::MatchInt { .. } => 2,
        PatternInst::MatchPrim { .. } => 3,
        PatternInst::MatchVariant { .. } => 4,
        PatternInst::Extract { .. } => 5,
        PatternInst::Expr { .. } => 6,
    }
}

proof fn lemma_numbers(m: int, n: int)
    ensures
        rank_less(number(m), number(n)) == (m < n),
        number(m) == number(n) <==> m == n,
{
}

proof fn lemma_heads(xs: Seq<Rank>, ys: Seq<Rank>)
    requires
        xs.len() > 0,
        ys.len() > 0,
    ensures
        parts_less(xs, ys) == (if xs[0] == ys[0] {
            parts_less(xs.skip(1), ys.skip(1))
        } else {
            rank_less(xs[0], ys[0])
        }),
        rank_less(Rank::Parts(xs), Rank::Parts(ys)) == parts_less(xs, ys),
{
}

proof fn lemma_first(a: Rank, xs: Seq<Rank>, b: Rank, ys: Seq<Rank>)
    ensures
        parts_less(seq![a] + xs, seq![b] + ys) == (if a == b {
            parts_less(xs, ys)
        } else {
            rank_less(a, b)
        }),
{
    assert((seq![a] + xs).skip(1) =~= xs);
    assert((seq![b] + ys).skip(1) =~= ys);
}

proof fn lemma_one(a: Rank, b: Rank)
    ensures
        parts_less(seq![a], seq![b]) == rank_less(a, b),
{
    lemma_first(a, Seq::empty(), b, Seq::empty());
    assert(seq![a] =~= seq![a] + Seq::empty());
    assert(seq![b] =~= seq![b] + Seq::empty());
    law_rank_irreflexive(a);
}

proof fn lemma_two(a: Rank, b: Rank, x: Rank, y: Rank)
    ensures
        parts_less(seq![a, b], seq![x, y]) == (rank_less(a, x) || (a == x && rank_less(b, y))),
{
    lemma_first(a, seq![b], x, seq![y]);
    lemma_one(b, y);
    law_rank_irreflexive(a);
    assert(seq![a, b] =~= seq![a] + seq![b]);
    assert(seq![x, y] =~= seq![x] + seq![y]);
}

proof fn lemma_three(a: Rank, b: Rank, c: Rank, x: Rank, y: Rank, z: Rank)
    ensures
        parts_less(seq![a, b, c], seq![x, y, z]) == (rank_less(a, x) || (a == x && parts_less(
            seq![b, c],
            seq![y, z],
        ))),
{
    lemma_first(a, seq![b, c], x, seq![y, z]);
    law_rank_irreflexive(a);
    assert(seq![a, b, c] =~= seq![a] + seq![b, c]);
    assert(seq![x, y, z] =~= seq![x] + seq![y, z]);
}

proof fn lemma_four(a: Rank, b: Rank, c: Rank, d: Rank, w: Rank, x: Rank, y: Rank, z: Rank)
    ensures
        parts_less(seq![a, b, c, d], seq![w, x, y, z]) == (rank_less(a, w) || (a == w
            && parts_less(seq![b, c, d], seq![x, y, z]))),
{
    lemma_first(a, seq![b, c, d], w, seq![x, y, z]);
    law_rank_irreflexive(a);
    assert(seq![a, b, c, d] =~= seq![a] + seq![b, c, d]);
    assert(seq![w, x, y, z] =~= seq![w] + seq![x, y, z]);
}

proof fn lemma_five(
    a: Rank,
    b: Rank,
    c: Rank,
    d: Rank,
    e: Rank,
    v: Rank,
    w: Rank,
    x: Rank,
    y: Rank,
    z: Rank,
)
    ensures
        parts_less(seq![a, b, c, d, e], seq![v, w, x, y, z]) == (rank_less(a, v) || (a == v
            && parts_less(seq![b, c, d, e], seq![w, x, y, z]))),
{
    lemma_first(a, seq![b, c, d, e], v, seq![w, x, y, z]);
    law_rank_irreflexive(a);
    assert(seq![a, b, c, d, e] =~= seq![a] + seq![b, c, d, e]);
    assert(seq![v, w, x, y, z] =~= seq![v] + seq![w, x, y, z]);
}

spec fn numbers_of(value: Value) -> (int, int) {
    match value {
        Value::Pattern { inst, output } => (inst.0 as int, output as int),
        Value::Expr { inst, output } => (inst.0 as int, output as int),
    }
}

proof fn lemma_value(a: Value, b: Value)
    ensures
        rank_less(value_rank(a), value_rank(b)) == value_before(a, b),
        value_rank(a) == value_rank(b) <==> a == b,
{
    let xs = value_rank(a)->Parts_0;
    let ys = value_rank(b)->Parts_0;
    lemma_three(xs[0], xs[1], xs[2], ys[0], ys[1], ys[2]);
    lemma_two(xs[1], xs[2], ys[1], ys[2]);
    lemma_heads(xs, ys);
    let (i, x) = numbers_of(a);
    let (j, y) = numbers_of(b);
    lemma_numbers(0, 1);
    lemma_numbers(1, 0);
    lemma_numbers(i, j);
    lemma_numbers(x, y);
    assert(xs =~= seq![xs[0], xs[1], xs[2]]);
    assert(ys =~= seq![ys[0], ys[1], ys[2]]);
    assert(xs == ys ==> xs[0] == ys[0] && xs[1] == ys[1] && xs[2] == ys[2]);
}

proof fn lemma_values(xs: Seq<Value>, ys: Seq<Value>)
    ensures
        rank_less(values_rank(xs), values_rank(ys)) == list_before(
            xs,
            ys,
            |a: Value, b: Value| value_before(a, b),
        ),
        values_rank(xs) == values_rank(ys) <==> xs == ys,
    decreases xs.len(),
{
    let ps = values_rank(xs)->Parts_0;
    let qs = values_rank(ys)->Parts_0;
    assert(ps.len() == xs.len() && qs.len() == ys.len());
    if xs.len() > 0 && ys.len() > 0 {
        lemma_heads(ps, qs);
        lemma_value(xs[0], ys[0]);
        lemma_values(xs.skip(1), ys.skip(1));
        assert(ps.skip(1) =~= values_rank(xs.skip(1))->Parts_0);
        assert(qs.skip(1) =~= values_rank(ys.skip(1))->Parts_0);
    }
    if ps == qs {
        assert forall|i: int| 0 <= i < xs.len() implies xs[i] == ys[i] by {
            assert(ps[i] == qs[i]);
            lemma_value(xs[i], ys[i]);
        }
        assert(xs =~= ys);
    }
}

proof fn lemma_types(xs: Seq<TypeId>, ys: Seq<TypeId>)
    ensures
        rank_less(types_rank(xs), types_rank(ys)) == list_before(
            xs,
            ys,
            |a: TypeId, b: TypeId| type_before(a, b),
        ),
        types_rank(xs) == types_rank(ys) <==> xs == ys,
    decreases xs.len(),
{
    let ps = types_rank(xs)->Parts_0;
    let qs = types_rank(ys)->Parts_0;
    assert(ps.len() == xs.len() && qs.len() == ys.len());
    if xs.len() > 0 && ys.len() > 0 {
        lemma_heads(ps, qs);
        lemma_numbers(xs[0].0 as int, ys[0].0 as int);
        lemma_types(xs.skip(1), ys.skip(1));
        assert(ps.skip(1) =~= types_rank(xs.skip(1))->Parts_0);
        assert(qs.skip(1) =~= types_rank(ys.skip(1))->Parts_0);
    }
    if ps == qs {
        assert forall|i: int| 0 <= i < xs.len() implies xs[i] == ys[i] by {
            assert(ps[i] == qs[i]);
            lemma_numbers(xs[i].0 as int, ys[i].0 as int);
        }
        assert(xs =~= ys);
    }
}

proof fn lemma_kinds(a: PatternInst, b: PatternInst)
    ensures
        pattern_rank(a)->Parts_0.len() > 0,
        pattern_rank(a)->Parts_0[0] == number(kind_of(a)),
        kind_of(a) != kind_of(b) ==> rank_less(pattern_rank(a), pattern_rank(b)) == (kind_of(a)
            < kind_of(b)),
{
    lemma_heads(pattern_rank(a)->Parts_0, pattern_rank(b)->Parts_0);
    lemma_numbers(kind_of(a), kind_of(b));
}

proof fn lemma_symbols_as_patterns(a: PatternInst, b: PatternInst)
    ensures
        lex_less(
            symbol_key(TrieSymbol::Match { op: a }),
            symbol_key(TrieSymbol::Match { op: b }),
        ) == rank_less(pattern_rank(a), pattern_rank(b)),
{
    law_symbol_order(TrieSymbol::Match { op: a }, TrieSymbol::Match { op: b });
    lemma_two(number(0), pattern_rank(a), number(0), pattern_rank(b));
}

/// Instructions of different kinds are ordered by kind.
pub proof fn law_kinds_in_order(a: PatternInst, b: PatternInst)
    requires
        kind_of(a) != kind_of(b),
    ensures
        lex_less(
            symbol_key(TrieSymbol::Match { op: a }),
            symbol_key(TrieSymbol::Match { op: b }),
        ) <==> kind_of(a) < kind_of(b),
{
    lemma_symbols_as_patterns(a, b);
    lemma_kinds(a, b);
}

proof fn lemma_same_kind(a: PatternInst, b: PatternInst)
    requires
        kind_of(a) == kind_of(b),
    ensures
        rank_less(pattern_rank(a), pattern_rank(b)) == parts_less(
            pattern_rank(a)->Parts_0.skip(1),
            pattern_rank(b)->Parts_0.skip(1),
        ),
{
    lemma_kinds(a, b);
    lemma_kinds(b, a);
    lemma_heads(pattern_rank(a)->Parts_0, pattern_rank(b)->Parts_0);
}

/// Two instructions that give an argument, test for equality, for an integer or for a constant are
/// ordered by the first of their fields that differs: what they read, the type, and what they
/// compare it to.
pub proof fn law_plain_fields_in_order(a: PatternInst, b: PatternInst)
    ensures
        ({
            let first = lex_less(
                symbol_key(TrieSymbol::Match { op: a }),
                symbol_key(TrieSymbol::Match { op: b }),
            );
            match (a, b) {
                (
                    PatternInst::Arg { index: i, ty: t },
                    PatternInst::Arg { index: j, ty: u },
                ) => first <==> (i < j || (i == j && t.0 < u.0)),
                (
                    PatternInst::MatchEqual { a: v, b: w, ty: t },
                    PatternInst::MatchEqual { a: x, b: y, ty: u },
                ) => first <==> (value_before(v, x) || (v == x && (value_before(w, y) || (w == y
                    && t.0 < u.0)))),
                (
                    PatternInst::MatchInt { input: v, ty: t, int_val: m },
                    PatternInst::MatchInt { input: x, ty: u, int_val: n },
                ) => first <==> (value_before(v, x) || (v == x && (t.0 < u.0 || (t.0 == u.0 && m
                    < n)))),
                (
                    PatternInst::MatchPrim { input: v, ty: t, val: m },
                    PatternInst::MatchPrim { input: x, ty: u, val: n },
                ) => first <==> (value_before(v, x) || (v == x && (t.0 < u.0 || (t.0 == u.0 && m.0
                    < n.0)))),
                _ => true,
            }
        }),
{
    lemma_symbols_as_patterns(a, b);
    if kind_of(a) == kind_of(b) {
        lemma_same_kind(a, b);
    }
    let ps = pattern_rank(a)->Parts_0.skip(1);
    let qs = pattern_rank(b)->Parts_0.skip(1);
    match (a, b) {
        (PatternInst::Arg { index: i, ty: t }, PatternInst::Arg { index: j, ty: u }) => {
            lemma_two(ps[0], ps[1], qs[0], qs[1]);
            lemma_numbers(i as int, j as int);
            lemma_numbers(t.0 as int, u.0 as int);
            assert(ps =~= seq![ps[0], ps[1]]);
            assert(qs =~= seq![qs[0], qs[1]]);
        },
        (
            PatternInst::MatchEqual { a: v, b: w, ty: t },
            PatternInst::MatchEqual { a: x, b: y, ty: u },
        ) => {
            lemma_three(ps[0], ps[1], ps[2], qs[0], qs[1], qs[2]);
            lemma_two(ps[1], ps[2], qs[1], qs[2]);
            lemma_value(v, x);
            lemma_value(w, y);
            lemma_numbers(t.0 as int, u.0 as int);
            assert(ps =~= seq![ps[0], ps[1], ps[2]]);
            assert(qs =~= seq![qs[0], qs[1], qs[2]]);
        },
        (
            PatternInst::MatchInt { input: v, ty: t, int_val: m },
            PatternInst::MatchInt { input: x, ty: u, int_val: n },
        ) => {
            lemma_three(ps[0], ps[1], ps[2], qs[0], qs[1], qs[2]);
            lemma_two(ps[1], ps[2], qs[1], qs[2]);
            lemma_value(v, x);
            lemma_numbers(t.0 as int, u.0 as int);
            lemma_numbers(m as int, n as int);
            assert(ps =~= seq![ps[0], ps[1], ps[2]]);
            assert(qs =~= seq![qs[0], qs[1], qs[2]]);
        },
        (
            PatternInst::MatchPrim { input: v, ty: t, val: m },
            PatternInst::MatchPrim { input: x, ty: u, val: n },
        ) => {
            lemma_three(ps[0], ps[1], ps[2], qs[0], qs[1], qs[2]);
            lemma_two(ps[1], ps[2], qs[1], qs[2]);
            lemma_value(v, x);
            lemma_numbers(t.0 as int, u.0 as int);
            lemma_numbers(m.0 as int, n.0 as int);
            assert(ps =~= seq![ps[0], ps[1], ps[2]]);
            assert(qs =~= seq![qs[0], qs[1], qs[2]]);
        },
        _ => {},
    }
}

/// Two tests for a variant are ordered by the value, its type, the types of the fields, and the
/// variant.
pub proof fn law_variant_tests_in_order(
    v: Value,
    t: TypeId,
    ts: Vec<TypeId>,
    m: VariantId,
    x: Value,
    u: TypeId,
    us: Vec<TypeId>,
    n: VariantId,
)
    ensures
        ({
            let a = PatternInst::MatchVariant { input: v, input_ty: t, arg_tys: ts, variant: m };
            let b = PatternInst::MatchVariant { input: x, input_ty: u, arg_tys: us, variant: n };
            lex_less(
                symbol_key(TrieSymbol::Match { op: a }),
                symbol_key(TrieSymbol::Match { op: b }),
            ) <==> {
                ||| value_before(v, x)
                ||| v == x && t.0 < u.0
                ||| v == x && t == u && list_before(
                    ts@,
                    us@,
                    |c: TypeId, d: TypeId| type_before(c, d),
                )
                ||| v == x && t == u && ts@ == us@ && m.0 < n.0
            }
        }),
{
    let a = PatternInst::MatchVariant { input: v, input_ty: t, arg_tys: ts, variant: m };
    let b = PatternInst::MatchVariant { input: x, input_ty: u, arg_tys: us, variant: n };
    lemma_symbols_as_patterns(a, b);
    lemma_same_kind(a, b);
    let ps = pattern_rank(a)->Parts_0.skip(1);
    let qs = pattern_rank(b)->Parts_0.skip(1);
    lemma_four(ps[0], ps[1], ps[2], ps[3], qs[0], qs[1], qs[2], qs[3]);
    lemma_three(ps[1], ps[2], ps[3], qs[1], qs[2], qs[3]);
    lemma_two(ps[2], ps[3], qs[2], qs[3]);
    lemma_value(v, x);
    lemma_numbers(t.0 as int, u.0 as int);
    lemma_types(ts@, us@);
    lemma_numbers(m.0 as int, n.0 as int);
    assert(ps =~= seq![ps[0], ps[1], ps[2], ps[3]]);
    assert(qs =~= seq![qs[0], qs[1], qs[2], qs[3]]);
}

/// Two extractor calls are ordered by the inputs, their types, the types of what is given, the
/// term, and whether they always match: those that may fail first.
pub proof fn law_extractor_calls_in_order(
    vs: Vec<Value>,
    ts: Vec<TypeId>,
    os: Vec<TypeId>,
    m: TermId,
    f: bool,
    xs: Vec<Value>,
    us: Vec<TypeId>,
    ps: Vec<TypeId>,
    n: TermId,
    g: bool,
)
    ensures
        ({
            let a = PatternInst::Extract {
                inputs: vs,
                input_tys: ts,
                output_tys: os,
                term: m,
                infallible: f,
            };
            let b = PatternInst::Extract {
                inputs: xs,
                input_tys: us,
                output_tys: ps,
                term: n,
                infallible: g,
            };
            let values = |c: Value, d: Value| value_before(c, d);
            let types = |c: TypeId, d: TypeId| type_before(c, d);
            lex_less(
                symbol_key(TrieSymbol::Match { op: a }),
                symbol_key(TrieSymbol::Match { op: b }),
            ) <==> {
                ||| list_before(vs@, xs@, values)
                ||| vs@ == xs@ && list_before(ts@, us@, types)
                ||| vs@ == xs@ && ts@ == us@ && list_before(os@, ps@, types)
                ||| vs@ == xs@ && ts@ == us@ && os@ == ps@ && m.0 < n.0
                ||| vs@ == xs@ && ts@ == us@ && os@ == ps@ && m == n && !f && g
            }
        }),
{
    let a = PatternInst::Extract {
        inputs: vs,
        input_tys: ts,
        output_tys: os,
        term: m,
        infallible: f,
    };
    let b = PatternInst::Extract {
        inputs: xs,
        input_tys: us,
        output_tys: ps,
        term: n,
        infallible: g,
    };
    lemma_symbols_as_patterns(a, b);
    lemma_same_kind(a, b);
    let ks = pattern_rank(a)->Parts_0.skip(1);
    let ls = pattern_rank(b)->Parts_0.skip(1);
    lemma_five(ks[0], ks[1], ks[2], ks[3], ks[4], ls[0], ls[1], ls[2], ls[3], ls[4]);
    lemma_four(ks[1], ks[2], ks[3], ks[4], ls[1], ls[2], ls[3], ls[4]);
    lemma_three(ks[2], ks[3], ks[4], ls[2], ls[3], ls[4]);
    lemma_two(ks[3], ks[4], ls[3], ls[4]);
    lemma_values(vs@, xs@);
    lemma_types(ts@, us@);
    lemma_types(os@, ps@);
    lemma_numbers(m.0 as int, n.0 as int);
    lemma_numbers(0, 1);
    lemma_numbers(1, 0);
    lemma_numbers(0, 0);
    lemma_numbers(1, 1);
    assert(ks =~= seq![ks[0], ks[1], ks[2], ks[3], ks[4]]);
    assert(ls =~= seq![ls[0], ls[1], ls[2], ls[3], ls[4]]);
}

/// Two expressions are ordered by their instructions, where they come from, the value and its
/// type, in turn.
pub proof fn law_expressions_in_order(
    s: ExprSequence,
    v: Value,
    t: TypeId,
    r: ExprSequence,
    x: Value,
    u: TypeId,
)
    ensures
        ({
            let a = PatternInst::Expr { seq: s, output: v, output_ty: t };
            let b = PatternInst::Expr { seq: r, output: x, output_ty: u };
            let same = expr_sequence_rank(s) == expr_sequence_rank(r);
            lex_less(
                symbol_key(TrieSymbol::Match { op: a }),
                symbol_key(TrieSymbol::Match { op: b }),
            ) <==> {
                ||| rank_less(expr_sequence_rank(s), expr_sequence_rank(r))
                ||| same && value_before(v, x)
                ||| same && v == x && t.0 < u.0
            }
        }),
{
    let a = PatternInst::Expr { seq: s, output: v, output_ty: t };
    let b = PatternInst::Expr { seq: r, output: x, output_ty: u };
    lemma_symbols_as_patterns(a, b);
    lemma_same_kind(a, b);
    let ps = pattern_rank(a)->Parts_0.skip(1);
    let qs = pattern_rank(b)->Parts_0.skip(1);
    lemma_three(ps[0], ps[1], ps[2], qs[0], qs[1], qs[2]);
    lemma_two(ps[1], ps[2], qs[1], qs[2]);
    lemma_value(v, x);
    lemma_numbers(t.0 as int, u.0 as int);
    assert(ps =~= seq![ps[0], ps[1], ps[2]]);
    assert(qs =~= seq![qs[0], qs[1], qs[2]]);
}

/// Whether a value with its type comes before another: by the value, and then by the type.
pub open spec fn typed_value_before(a: (Value, TypeId), b: (Value, TypeId)) -> bool {
    value_before(a.0, b.0) || (a.0 == b.0 && type_before(a.1, b.1))
}

proof fn lemma_typed_values(xs: Seq<(Value, TypeId)>, ys: Seq<(Value, TypeId)>)
    ensures
        rank_less(typed_values_rank(xs), typed_values_rank(ys)) == list_before(
            xs,
            ys,
            |a: (Value, TypeId), b: (Value, TypeId)| typed_value_before(a, b),
        ),
        typed_values_rank(xs) == typed_values_rank(ys) <==> xs == ys,
    decreases xs.len(),
{
    let ps = typed_values_rank(xs)->Parts_0;
    let qs = typed_values_rank(ys)->Parts_0;
    assert(ps.len() == xs.len() && qs.len() == ys.len());
    if xs.len() > 0 && ys.len() > 0 {
        lemma_heads(ps, qs);
        lemma_typed_value(xs[0], ys[0]);
        lemma_typed_values(xs.skip(1), ys.skip(1));
        assert(ps.skip(1) =~= typed_values_rank(xs.skip(1))->Parts_0);
        assert(qs.skip(1) =~= typed_values_rank(ys.skip(1))->Parts_0);
    }
    if ps == qs {
        assert forall|i: int| 0 <= i < xs.len() implies xs[i] == ys[i] by {
            assert(ps[i] == qs[i]);
            lemma_typed_value(xs[i], ys[i]);
        }
        assert(xs =~= ys);
    }
}

proof fn lemma_typed_value(a: (Value, TypeId), b: (Value, TypeId))
    ensures
        ({
            let p = Rank::Parts(seq![value_rank(a.0), number(a.1.0 as int)]);
            let q = Rank::Parts(seq![value_rank(b.0), number(b.1.0 as int)]);
            &&& rank_less(p, q) == typed_value_before(a, b)
            &&& p == q <==> a == b
        }),
{
    let xs = seq![value_rank(a.0), number(a.1.0 as int)];
    let ys = seq![value_rank(b.0), number(b.1.0 as int)];
    lemma_two(xs[0], xs[1], ys[0], ys[1]);
    lemma_heads(xs, ys);
    lemma_value(a.0, b.0);
    lemma_numbers(a.1.0 as int, b.1.0 as int);
    assert(xs =~= seq![xs[0], xs[1]]);
    assert(ys =~= seq![ys[0], ys[1]]);
    assert(xs == ys ==> xs[0] == ys[0] && xs[1] == ys[1]);
}

/// The place of an expression instruction's kind among the kinds.
pub open spec fn expr_kind_of(inst: ExprInst) -> int {
    match inst {
        ExprInst::ConstInt { .. } => 0,
        ExprInst::ConstPrim { .. } => 1,
        ExprInst::CreateVariant { .. } => 2,
        ExprInst::Construct { .. } => 3,
        ExprInst::Return { .. } => 4,
    }
}

/// Expression instructions are ordered by kind, and within a kind by the first of their fields
/// that differs.
pub proof fn law_expr_insts_in_order(a: ExprInst, b: ExprInst)
    ensures
        ({
            let first = rank_less(expr_inst_rank(a), expr_inst_rank(b));
            let inputs_before = |c: (Value, TypeId), d: (Value, TypeId)| typed_value_before(c, d);
            match (a, b) {
                (
                    ExprInst::ConstInt { ty: t, val: m },
                    ExprInst::ConstInt { ty: u, val: n },
                ) => first <==> (t.0 < u.0 || (t.0 == u.0 && m < n)),
                (
                    ExprInst::ConstPrim { ty: t, val: m },
                    ExprInst::ConstPrim { ty: u, val: n },
                ) => first <==> (t.0 < u.0 || (t.0 == u.0 && m.0 < n.0)),
                (
                    ExprInst::CreateVariant { inputs: vs, ty: t, variant: m },
                    ExprInst::CreateVariant { inputs: xs, ty: u, variant: n },
                ) => first <==> {
                    ||| list_before(vs@, xs@, inputs_before)
                    ||| vs@ == xs@ && t.0 < u.0
                    ||| vs@ == xs@ && t == u && m.0 < n.0
                },
                (
                    ExprInst::Construct { inputs: vs, ty: t, term: m, infallible: f },
                    ExprInst::Construct { inputs: xs, ty: u, term: n, infallible: g },
                ) => first <==> {
                    ||| list_before(vs@, xs@, inputs_before)
                    ||| vs@ == xs@ && t.0 < u.0
                    ||| vs@ == xs@ && t == u && m.0 < n.0
                    ||| vs@ == xs@ && t == u && m == n && !f && g
                },
                (
                    ExprInst::Return { index: i, ty: t, value: v },
                    ExprInst::Return { index: j, ty: u, value: x },
                ) => first <==> {
                    ||| i < j
                    ||| i == j && t.0 < u.0
                    ||| i == j && t == u && value_before(v, x)
                },
                _ => first <==> expr_kind_of(a) < expr_kind_of(b),
            }
        }),
{
    let ks = expr_inst_rank(a)->Parts_0;
    let ls = expr_inst_rank(b)->Parts_0;
    lemma_heads(ks, ls);
    lemma_numbers(expr_kind_of(a), expr_kind_of(b));
    let ps = ks.skip(1);
    let qs = ls.skip(1);
    match (a, b) {
        (ExprInst::ConstInt { ty: t, val: m }, ExprInst::ConstInt { ty: u, val: n }) => {
            lemma_two(ps[0], ps[1], qs[0], qs[1]);
            lemma_numbers(t.0 as int, u.0 as int);
            lemma_numbers(m as int, n as int);
            assert(ps =~= seq![ps[0], ps[1]]);
            assert(qs =~= seq![qs[0], qs[1]]);
        },
        (ExprInst::ConstPrim { ty: t, val: m }, ExprInst::ConstPrim { ty: u, val: n }) => {
            lemma_two(ps[0], ps[1], qs[0], qs[1]);
            lemma_numbers(t.0 as int, u.0 as int);
            lemma_numbers(m.0 as int, n.0 as int);
            assert(ps =~= seq![ps[0], ps[1]]);
            assert(qs =~= seq![qs[0], qs[1]]);
        },
        (
            ExprInst::CreateVariant { inputs: vs, ty: t, variant: m },
            ExprInst::CreateVariant { inputs: xs, ty: u, variant: n },
        ) => {
            lemma_three(ps[0], ps[1], ps[2], qs[0], qs[1], qs[2]);
            lemma_two(ps[1], ps[2], qs[1], qs[2]);
            lemma_typed_values(vs@, xs@);
            lemma_numbers(t.0 as int, u.0 as int);
            lemma_numbers(m.0 as int, n.0 as int);
            assert(ps =~= seq![ps[0], ps[1], ps[2]]);
            assert(qs =~= seq![qs[0], qs[1], qs[2]]);
        },
        (
            ExprInst::Construct { inputs: vs, ty: t, term: m, infallible: f },
            ExprInst::Construct { inputs: xs, ty: u, term: n, infallible: g },
        ) => {
            lemma_four(ps[0], ps[1], ps[2], ps[3], qs[0], qs[1], qs[2], qs[3]);
            lemma_three(ps[1], ps[2], ps[3], qs[1], qs[2], qs[3]);
            lemma_two(ps[2], ps[3], qs[2], qs[3]);
            lemma_typed_values(vs@, xs@);
            lemma_numbers(t.0 as int, u.0 as int);
            lemma_numbers(m.0 as int, n.0 as int);
            lemma_numbers(0, 1);
            lemma_numbers(1, 0);
            lemma_numbers(0, 0);
            lemma_numbers(1, 1);
            assert(ps =~= seq![ps[0], ps[1], ps[2], ps[3]]);
            assert(qs =~= seq![qs[0], qs[1], qs[2], qs[3]]);
        },
        (
            ExprInst::Return { index: i, ty: t, value: v },
            ExprInst::Return { index: j, ty: u, value: x },
        ) => {
            lemma_three(ps[0], ps[1], ps[2], qs[0], qs[1], qs[2]);
            lemma_two(ps[1], ps[2], qs[1], qs[2]);
            lemma_numbers(i as int, j as int);
            lemma_numbers(t.0 as int, u.0 as int);
            lemma_value(v, x);
            assert(ps =~= seq![ps[0], ps[1], ps[2]]);
            assert(qs =~= seq![qs[0], qs[1], qs[2]]);
        },
        _ => {},
    }
}

/// Sequences are ordered by their instructions, at the first place where these differ, and then by
/// where they come from: the file, the offset, the line and the column.
pub proof fn law_sequences_in_order(s: ExprSequence, r: ExprSequence)
    ensures
        ({
            let xs = Seq::new(s.insts@.len(), |i: int| expr_inst_rank(s.insts@[i]));
            let ys = Seq::new(r.insts@.len(), |i: int| expr_inst_rank(r.insts@[i]));
            rank_less(expr_sequence_rank(s), expr_sequence_rank(r)) <==> {
                ||| list_before(xs, ys, |c: Rank, d: Rank| rank_less(c, d))
                ||| xs == ys && s.pos.file < r.pos.file
                ||| xs == ys && s.pos.file == r.pos.file && s.pos.offset < r.pos.offset
                ||| xs == ys && s.pos.file == r.pos.file && s.pos.offset == r.pos.offset
                    && s.pos.line < r.pos.line
                ||| xs == ys && s.pos.file == r.pos.file && s.pos.offset == r.pos.offset
                    && s.pos.line == r.pos.line && s.pos.col < r.pos.col
            }
        }),
{
    let xs = Seq::new(s.insts@.len(), |i: int| expr_inst_rank(s.insts@[i]));
    let ys = Seq::new(r.insts@.len(), |i: int| expr_inst_rank(r.insts@[i]));
    assert(expr_insts_rank(s.insts@)->Parts_0 =~= xs);
    assert(expr_insts_rank(r.insts@)->Parts_0 =~= ys);
    let ks = seq![expr_insts_rank(s.insts@), pos_rank(s.pos)];
    let ls = seq![expr_insts_rank(r.insts@), pos_rank(r.pos)];
    lemma_heads(ks, ls);
    lemma_two(ks[0], ks[1], ls[0], ls[1]);
    assert(ks =~= seq![ks[0], ks[1]]);
    assert(ls =~= seq![ls[0], ls[1]]);
    lemma_parts_as_list(xs, ys);
    let ps = pos_rank(s.pos)->Parts_0;
    let qs = pos_rank(r.pos)->Parts_0;
    lemma_heads(ps, qs);
    lemma_four(ps[0], ps[1], ps[2], ps[3], qs[0], qs[1], qs[2], qs[3]);
    lemma_three(ps[1], ps[2], ps[3], qs[1], qs[2], qs[3]);
    lemma_two(ps[2], ps[3], qs[2], qs[3]);
    lemma_numbers(s.pos.file as int, r.pos.file as int);
    lemma_numbers(s.pos.offset as int, r.pos.offset as int);
    lemma_numbers(s.pos.line as int, r.pos.line as int);
    lemma_numbers(s.pos.col as int, r.pos.col as int);
    assert(ps =~= seq![ps[0], ps[1], ps[2], ps[3]]);
    assert(qs =~= seq![qs[0], qs[1], qs[2], qs[3]]);
}

proof fn lemma_parts_as_list(xs: Seq<Rank>, ys: Seq<Rank>)
    ensures
        rank_less(Rank::Parts(xs), Rank::Parts(ys)) == list_before(
            xs,
            ys,
            |c: Rank, d: Rank| rank_less(c, d),
        ),
    decreases xs.len(),
{
    if xs.len() > 0 && ys.len() > 0 {
        lemma_heads(xs, ys);
        lemma_parts_as_list(xs.skip(1), ys.skip(1));
    }
}

} // verus!
