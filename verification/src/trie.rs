//! Decision tries, and the order in which their edges are tried.
//!
//! Edges are tried by falling priority, and in the order of their symbols within a priority. A
//! symbol is ordered by its variant and then by its fields as they are declared; a list is
//! ordered by its first difference, and comes before those that it begins. The order is that of
//! the edges' keys, which spell these out: a list in a key has a one in front of each element
//! and a zero at its end.

use crate::ir::{ExprInst, ExprSequence, PatternInst, Value};
use crate::order::{arrange, key_seqs, positions, stable_order};
use crate::pos::Pos;
use crate::sema::TypeId;
use vstd::prelude::*;

verus! {

/// A range of priorities.
#[derive(Clone, Copy, Debug, PartialEq, Eq, Structural)]
pub struct PrioRange {
    /// The lowest priority.
    pub min: i64,
    /// The highest priority.
    pub max: i64,
}

/// What has to match for an edge to be taken.
#[derive(Clone, Debug)]
pub enum TrieSymbol {
    /// An instruction.
    Match {
        /// The instruction.
        op: PatternInst,
    },
    /// Nothing more: all has been matched.
    EndOfMatch,
}

/// An edge of a decision trie.
#[derive(Debug)]
pub struct TrieEdge {
    /// The priorities of the rules behind the edge.
    pub range: PrioRange,
    /// What has to match.
    pub symbol: TrieSymbol,
    /// What to do when it matches.
    pub node: TrieNode,
}

/// A node of a decision trie.
#[derive(Debug)]
pub enum TrieNode {
    /// Nothing is left to try.
    Empty,
    /// A rule applies.
    Leaf {
        /// The rule's priority.
        prio: i64,
        /// What builds the result.
        output: ExprSequence,
    },
    /// The edges are to be tried.
    Decision {
        /// The edges.
        edges: Vec<TrieEdge>,
    },
}

/// The number of a flag in a key.
pub open spec fn flag_key(b: bool) -> i128 {
    if b {
        1
    } else {
        0
    }
}

/// The key of a value.
pub open spec fn value_key(v: Value) -> Seq<i128> {
    match v {
        Value::Pattern { inst, output } => seq![0i128, inst.0 as i128, output as i128],
        Value::Expr { inst, output } => seq![1i128, inst.0 as i128, output as i128],
    }
}

/// The key of a list of values, without its end.
pub open spec fn values_key(vs: Seq<Value>) -> Seq<i128>
    decreases vs.len(),
{
    if vs.len() == 0 {
        Seq::empty()
    } else {
        values_key(vs.drop_last()) + seq![1i128] + value_key(vs.last())
    }
}

/// The key of a list of types, without its end.
pub open spec fn types_key(tys: Seq<TypeId>) -> Seq<i128>
    decreases tys.len(),
{
    if tys.len() == 0 {
        Seq::empty()
    } else {
        types_key(tys.drop_last()) + seq![1i128, tys.last().0 as i128]
    }
}

/// The key of a list of values with their types, without its end.
pub open spec fn typed_values_key(vs: Seq<(Value, TypeId)>) -> Seq<i128>
    decreases vs.len(),
{
    if vs.len() == 0 {
        Seq::empty()
    } else {
        typed_values_key(vs.drop_last()) + seq![1i128] + value_key(vs.last().0)
            + seq![vs.last().1.0 as i128]
    }
}

/// The key of an expression instruction.
pub open spec fn expr_inst_key(inst: ExprInst) -> Seq<i128> {
    match inst {
        ExprInst::ConstInt { ty, val } => seq![0i128, ty.0 as i128, val as i128],
        ExprInst::ConstPrim { ty, val } => seq![1i128, ty.0 as i128, val.0 as i128],
        ExprInst::CreateVariant { inputs, ty, variant } => seq![2i128] + typed_values_key(inputs@)
            + seq![0i128, ty.0 as i128, variant.0 as i128],
        ExprInst::Construct { inputs, ty, term, infallible } => seq![3i128] + typed_values_key(
            inputs@,
        ) + seq![0i128, ty.0 as i128, term.0 as i128, flag_key(infallible)],
        ExprInst::Return { index, ty, value } => seq![4i128, index as i128, ty.0 as i128]
            + value_key(value),
    }
}

/// The key of a list of expression instructions, without its end.
pub open spec fn expr_insts_key(insts: Seq<ExprInst>) -> Seq<i128>
    decreases insts.len(),
{
    if insts.len() == 0 {
        Seq::empty()
    } else {
        expr_insts_key(insts.drop_last()) + seq![1i128] + expr_inst_key(insts.last())
    }
}

/// The key of a position.
pub open spec fn pos_key(pos: Pos) -> Seq<i128> {
    seq![pos.file as i128, pos.offset as i128, pos.line as i128, pos.col as i128]
}

/// The key of a sequence of expression instructions.
pub open spec fn expr_sequence_key(s: ExprSequence) -> Seq<i128> {
    expr_insts_key(s.insts@) + seq![0i128] + pos_key(s.pos)
}

/// The key of a pattern instruction.
pub open spec fn pattern_key(op: PatternInst) -> Seq<i128> {
    match op {
        PatternInst::Arg { index, ty } => seq![0i128, index as i128, ty.0 as i128],
        PatternInst::MatchEqual { a, b, ty } => seq![1i128] + value_key(a) + value_key(b)
            + seq![ty.0 as i128],
        PatternInst::MatchInt { input, ty, int_val } => seq![2i128] + value_key(input)
            + seq![ty.0 as i128, int_val as i128],
        PatternInst::MatchPrim { input, ty, val } => seq![3i128] + value_key(input)
            + seq![ty.0 as i128, val.0 as i128],
        PatternInst::MatchVariant { input, input_ty, arg_tys, variant } => seq![4i128] + value_key(
            input,
        ) + seq![input_ty.0 as i128] + types_key(arg_tys@) + seq![0i128, variant.0 as i128],
        PatternInst::Extract { inputs, input_tys, output_tys, term, infallible } => seq![5i128]
            + values_key(inputs@) + seq![0i128] + types_key(input_tys@) + seq![0i128] + types_key(
            output_tys@,
        ) + seq![0i128, term.0 as i128, flag_key(infallible)],
        PatternInst::Expr { seq, output, output_ty } => seq![6i128] + expr_sequence_key(seq)
            + value_key(output) + seq![output_ty.0 as i128],
    }
}

/// The key of a symbol.
pub open spec fn symbol_key(symbol: TrieSymbol) -> Seq<i128> {
    match symbol {
        TrieSymbol::Match { op } => seq![0i128] + pattern_key(op),
        TrieSymbol::EndOfMatch => seq![1i128],
    }
}

/// The key by which an edge is ordered: higher priorities first, and then by symbol.
pub open spec fn edge_key(edge: TrieEdge) -> Seq<i128> {
    seq![-edge.range.min as i128] + symbol_key(edge.symbol)
}

/// The keys of the edges.
pub open spec fn edge_keys(edges: Seq<TrieEdge>) -> Seq<Seq<i128>> {
    Seq::new(edges.len(), |i: int| edge_key(edges[i]))
}

/// The positions of the edges in the order in which they are tried.
pub open spec fn edge_order(edges: Seq<TrieEdge>) -> Seq<int> {
    stable_order(edge_keys(edges), edges.len())
}

fn flag(b: bool) -> (k: i128)
    ensures
        k == flag_key(b),
{
    if b {
        1
    } else {
        0
    }
}

fn push_value(key: &mut Vec<i128>, v: &Value)
    ensures
        final(key)@ == old(key)@ + value_key(*v),
{
    match v {
        Value::Pattern { inst, output } => {
            key.push(0);
            key.push(inst.index() as i128);
            key.push(*output as i128);
        },
        Value::Expr { inst, output } => {
            key.push(1);
            key.push(inst.index() as i128);
            key.push(*output as i128);
        },
    }
    assert(key@ =~= old(key)@ + value_key(*v));
}

fn push_values(key: &mut Vec<i128>, vs: &Vec<Value>)
    ensures
        final(key)@ == old(key)@ + values_key(vs@) + seq![0i128],
{
    let ghost start = key@;
    assert(start =~= start + values_key(vs@.take(0)));
    for i in 0..vs.len()
        invariant
            key@ == start + values_key(vs@.take(i as int)),
    {
        key.push(1);
        push_value(key, &vs[i]);
        assert(vs@.take(i + 1).drop_last() =~= vs@.take(i as int));
        assert(key@ =~= start + values_key(vs@.take(i + 1)));
    }
    assert(vs@.take(vs@.len() as int) =~= vs@);
    key.push(0);
    assert(key@ =~= start + values_key(vs@) + seq![0i128]);
}

fn push_types(key: &mut Vec<i128>, tys: &Vec<TypeId>)
    ensures
        final(key)@ == old(key)@ + types_key(tys@) + seq![0i128],
{
    let ghost start = key@;
    assert(start =~= start + types_key(tys@.take(0)));
    for i in 0..tys.len()
        invariant
            key@ == start + types_key(tys@.take(i as int)),
    {
        key.push(1);
        key.push(tys[i].index() as i128);
        assert(tys@.take(i + 1).drop_last() =~= tys@.take(i as int));
        assert(key@ =~= start + types_key(tys@.take(i + 1)));
    }
    assert(tys@.take(tys@.len() as int) =~= tys@);
    key.push(0);
    assert(key@ =~= start + types_key(tys@) + seq![0i128]);
}

fn push_typed_values(key: &mut Vec<i128>, vs: &Vec<(Value, TypeId)>)
    ensures
        final(key)@ == old(key)@ + typed_values_key(vs@) + seq![0i128],
{
    let ghost start = key@;
    assert(start =~= start + typed_values_key(vs@.take(0)));
    for i in 0..vs.len()
        invariant
            key@ == start + typed_values_key(vs@.take(i as int)),
    {
        key.push(1);
        push_value(key, &vs[i].0);
        key.push(vs[i].1.index() as i128);
        assert(vs@.take(i + 1).drop_last() =~= vs@.take(i as int));
        assert(key@ =~= start + typed_values_key(vs@.take(i + 1)));
    }
    assert(vs@.take(vs@.len() as int) =~= vs@);
    key.push(0);
    assert(key@ =~= start + typed_values_key(vs@) + seq![0i128]);
}

fn push_expr_inst(key: &mut Vec<i128>, inst: &ExprInst)
    ensures
        final(key)@ == old(key)@ + expr_inst_key(*inst),
{
    match inst {
        ExprInst::ConstInt { ty, val } => {
            key.push(0);
            key.push(ty.index() as i128);
            key.push(*val as i128);
        },
        ExprInst::ConstPrim { ty, val } => {
            key.push(1);
            key.push(ty.index() as i128);
            key.push(val.index() as i128);
        },
        ExprInst::CreateVariant { inputs, ty, variant } => {
            key.push(2);
            push_typed_values(key, inputs);
            key.push(ty.index() as i128);
            key.push(variant.index() as i128);
        },
        ExprInst::Construct { inputs, ty, term, infallible } => {
            key.push(3);
            push_typed_values(key, inputs);
            key.push(ty.index() as i128);
            key.push(term.index() as i128);
            key.push(flag(*infallible));
        },
        ExprInst::Return { index, ty, value } => {
            key.push(4);
            key.push(*index as i128);
            key.push(ty.index() as i128);
            push_value(key, value);
        },
    }
    assert(key@ =~= old(key)@ + expr_inst_key(*inst));
}

fn push_expr_sequence(key: &mut Vec<i128>, s: &ExprSequence)
    ensures
        final(key)@ == old(key)@ + expr_sequence_key(*s),
{
    let ghost start = key@;
    assert(start =~= start + expr_insts_key(s.insts@.take(0)));
    for i in 0..s.insts.len()
        invariant
            key@ == start + expr_insts_key(s.insts@.take(i as int)),
    {
        key.push(1);
        push_expr_inst(key, &s.insts[i]);
        assert(s.insts@.take(i + 1).drop_last() =~= s.insts@.take(i as int));
        assert(key@ =~= start + expr_insts_key(s.insts@.take(i + 1)));
    }
    assert(s.insts@.take(s.insts@.len() as int) =~= s.insts@);
    key.push(0);
    key.push(s.pos.file as i128);
    key.push(s.pos.offset as i128);
    key.push(s.pos.line as i128);
    key.push(s.pos.col as i128);
    assert(key@ =~= start + expr_sequence_key(*s));
}

fn push_pattern(key: &mut Vec<i128>, op: &PatternInst)
    ensures
        final(key)@ == old(key)@ + pattern_key(*op),
{
    match op {
        PatternInst::Arg { index, ty } => {
            key.push(0);
            key.push(*index as i128);
            key.push(ty.index() as i128);
        },
        PatternInst::MatchEqual { a, b, ty } => {
            key.push(1);
            push_value(key, a);
            push_value(key, b);
            key.push(ty.index() as i128);
        },
        PatternInst::MatchInt { input, ty, int_val } => {
            key.push(2);
            push_value(key, input);
            key.push(ty.index() as i128);
            key.push(*int_val as i128);
        },
        PatternInst::MatchPrim { input, ty, val } => {
            key.push(3);
            push_value(key, input);
            key.push(ty.index() as i128);
            key.push(val.index() as i128);
        },
        PatternInst::MatchVariant { input, input_ty, arg_tys, variant } => {
            key.push(4);
            push_value(key, input);
            key.push(input_ty.index() as i128);
            push_types(key, arg_tys);
            key.push(variant.index() as i128);
        },
        PatternInst::Extract { inputs, input_tys, output_tys, term, infallible } => {
            key.push(5);
            push_values(key, inputs);
            push_types(key, input_tys);
            push_types(key, output_tys);
            key.push(term.index() as i128);
            key.push(flag(*infallible));
        },
        PatternInst::Expr { seq, output, output_ty } => {
            key.push(6);
            push_expr_sequence(key, seq);
            push_value(key, output);
            key.push(output_ty.index() as i128);
        },
    }
    assert(key@ =~= old(key)@ + pattern_key(*op));
}

/// Returns the key by which an edge is ordered.
fn key_of_edge(edge: &TrieEdge) -> (key: Vec<i128>)
    ensures
        key@ == edge_key(*edge),
{
    let mut key: Vec<i128> = Vec::new();
    key.push(-(edge.range.min as i128));
    match &edge.symbol {
        TrieSymbol::Match { op } => {
            key.push(0);
            push_pattern(&mut key, op);
        },
        TrieSymbol::EndOfMatch => {
            key.push(1);
        },
    }
    assert(key@ =~= edge_key(*edge));
    key
}

/// Returns the positions of the edges in the order in which they are tried.
pub fn order_edges(edges: &Vec<TrieEdge>) -> (order: Vec<usize>)
    ensures
        positions(order@) == edge_order(edges@),
{
    let mut keys: Vec<Vec<i128>> = Vec::new();
    for i in 0..edges.len()
        invariant
            keys@.len() == i,
            forall|j: int| 0 <= j < i ==> (#[trigger] keys@[j])@ == edge_key(edges@[j]),
    {
        keys.push(key_of_edge(&edges[i]));
    }
    assert(key_seqs(keys@) =~= edge_keys(edges@));
    arrange(&keys)
}

} // verus!
