//! The order of symbols: by variant, and then by the fields as they are declared.

use crate::ir::{ExprInst, ExprSequence, PatternInst, Value};
use crate::order::{law_lex_irreflexive, law_lex_total, lex_less};
use crate::pos::Pos;
use crate::sema::TypeId;
use crate::trie::{
    expr_inst_key, expr_insts_key, expr_sequence_key, flag_key, pattern_key, pos_key, symbol_key,
    typed_values_key, types_key, value_key, values_key, TrieSymbol,
};
use vstd::prelude::*;

verus! {

/// What decides the place of a value among others of its type. That of a struct or a variant lists
/// the number of the variant and the fields; that of a list lists its elements.
pub enum Rank {
    /// The value is a number.
    Number(int),
    /// The value has parts.
    Parts(Seq<Rank>),
}

/// Whether a value of rank `a` comes before one of rank `b`.
pub open spec fn rank_less(a: Rank, b: Rank) -> bool
    decreases a,
{
    match (a, b) {
        (Rank::Number(m), Rank::Number(n)) => m < n,
        (Rank::Parts(xs), Rank::Parts(ys)) => parts_less(xs, ys),
        (Rank::Number(_), Rank::Parts(_)) => true,
        (Rank::Parts(_), Rank::Number(_)) => false,
    }
}

/// Whether some parts come before others: the first that differ decide, and parts come before
/// those that they begin.
pub open spec fn parts_less(xs: Seq<Rank>, ys: Seq<Rank>) -> bool
    decreases xs,
{
    if ys.len() == 0 {
        false
    } else if xs.len() == 0 {
        true
    } else if xs[0] != ys[0] {
        rank_less(xs[0], ys[0])
    } else {
        parts_less(xs.skip(1), ys.skip(1))
    }
}

/// The rank of a number.
pub open spec fn number(n: int) -> Rank {
    Rank::Number(n)
}

/// The rank of a flag: false comes first.
pub open spec fn flag_rank(b: bool) -> Rank {
    number(
        if b {
            1
        } else {
            0
        },
    )
}

/// The rank of a value.
pub open spec fn value_rank(v: Value) -> Rank {
    match v {
        Value::Pattern { inst, output } => Rank::Parts(
            seq![number(0), number(inst.0 as int), number(output as int)],
        ),
        Value::Expr { inst, output } => Rank::Parts(
            seq![number(1), number(inst.0 as int), number(output as int)],
        ),
    }
}

/// The rank of a list of values.
pub open spec fn values_rank(vs: Seq<Value>) -> Rank {
    Rank::Parts(Seq::new(vs.len(), |i: int| value_rank(vs[i])))
}

/// The rank of a list of types.
pub open spec fn types_rank(tys: Seq<TypeId>) -> Rank {
    Rank::Parts(Seq::new(tys.len(), |i: int| number(tys[i].0 as int)))
}

/// The rank of a list of values with their types.
pub open spec fn typed_values_rank(vs: Seq<(Value, TypeId)>) -> Rank {
    Rank::Parts(
        Seq::new(
            vs.len(),
            |i: int| Rank::Parts(seq![value_rank(vs[i].0), number(vs[i].1.0 as int)]),
        ),
    )
}

/// The rank of an expression instruction.
pub open spec fn expr_inst_rank(inst: ExprInst) -> Rank {
    match inst {
        ExprInst::ConstInt { ty, val } => Rank::Parts(
            seq![number(0), number(ty.0 as int), number(val as int)],
        ),
        ExprInst::ConstPrim { ty, val } => Rank::Parts(
            seq![number(1), number(ty.0 as int), number(val.0 as int)],
        ),
        ExprInst::CreateVariant { inputs, ty, variant } => Rank::Parts(
            seq![
                number(2),
                typed_values_rank(inputs@),
                number(ty.0 as int),
                number(variant.0 as int),
            ],
        ),
        ExprInst::Construct { inputs, ty, term, infallible } => Rank::Parts(
            seq![
                number(3),
                typed_values_rank(inputs@),
                number(ty.0 as int),
                number(term.0 as int),
                flag_rank(infallible),
            ],
        ),
        ExprInst::Return { index, ty, value } => Rank::Parts(
            seq![number(4), number(index as int), number(ty.0 as int), value_rank(value)],
        ),
    }
}

/// The rank of a list of expression instructions.
pub open spec fn expr_insts_rank(insts: Seq<ExprInst>) -> Rank {
    Rank::Parts(Seq::new(insts.len(), |i: int| expr_inst_rank(insts[i])))
}

/// The rank of a position.
pub open spec fn pos_rank(pos: Pos) -> Rank {
    Rank::Parts(
        seq![
            number(pos.file as int),
            number(pos.offset as int),
            number(pos.line as int),
            number(pos.col as int),
        ],
    )
}

/// The rank of a sequence of expression instructions.
pub open spec fn expr_sequence_rank(s: ExprSequence) -> Rank {
    Rank::Parts(seq![expr_insts_rank(s.insts@), pos_rank(s.pos)])
}

/// The rank of a pattern instruction.
pub open spec fn pattern_rank(op: PatternInst) -> Rank {
    match op {
        PatternInst::Arg { index, ty } => Rank::Parts(
            seq![number(0), number(index as int), number(ty.0 as int)],
        ),
        PatternInst::MatchEqual { a, b, ty } => Rank::Parts(
            seq![number(1), value_rank(a), value_rank(b), number(ty.0 as int)],
        ),
        PatternInst::MatchInt { input, ty, int_val } => Rank::Parts(
            seq![number(2), value_rank(input), number(ty.0 as int), number(int_val as int)],
        ),
        PatternInst::MatchPrim { input, ty, val } => Rank::Parts(
            seq![number(3), value_rank(input), number(ty.0 as int), number(val.0 as int)],
        ),
        PatternInst::MatchVariant { input, input_ty, arg_tys, variant } => Rank::Parts(
            seq![
                number(4),
                value_rank(input),
                number(input_ty.0 as int),
                types_rank(arg_tys@),
                number(variant.0 as int),
            ],
        ),
        PatternInst::Extract { inputs, input_tys, output_tys, term, infallible } => Rank::Parts(
            seq![
                number(5),
                values_rank(inputs@),
                types_rank(input_tys@),
                types_rank(output_tys@),
                number(term.0 as int),
                flag_rank(infallible),
            ],
        ),
        PatternInst::Expr { seq, output, output_ty } => Rank::Parts(
            seq![
                number(6),
                expr_sequence_rank(seq),
                value_rank(output),
                number(output_ty.0 as int),
            ],
        ),
    }
}

/// The rank of a symbol.
pub open spec fn symbol_rank(symbol: TrieSymbol) -> Rank {
    match symbol {
        TrieSymbol::Match { op } => Rank::Parts(seq![number(0), pattern_rank(op)]),
        TrieSymbol::EndOfMatch => Rank::Parts(seq![number(1)]),
    }
}

/// Whether two keys order as two ranks do, whatever follows the keys.
#[verifier::opaque]
pub open spec fn orders_as(ka: Seq<i128>, kb: Seq<i128>, a: Rank, b: Rank) -> bool {
    forall|s: Seq<i128>, t: Seq<i128>|
        #[trigger] lex_less(ka + s, kb + t) == (if a == b {
            lex_less(s, t)
        } else {
            rank_less(a, b)
        })
}

/// Whether two keys order as the given parts do, whatever follows the keys.
pub open spec fn orders_as_parts(
    ka: Seq<i128>,
    kb: Seq<i128>,
    xs: Seq<Rank>,
    ys: Seq<Rank>,
) -> bool {
    forall|s: Seq<i128>, t: Seq<i128>|
        #[trigger] lex_less(ka + s, kb + t) == (if xs == ys {
            lex_less(s, t)
        } else {
            parts_less(xs, ys)
        })
}

proof fn lemma_number(m: i128, n: i128)
    ensures
        orders_as(seq![m], seq![n], number(m as int), number(n as int)),
{
    reveal(orders_as);
    assert forall|s: Seq<i128>, t: Seq<i128>| #[trigger]
        lex_less(seq![m] + s, seq![n] + t) == (if number(m as int) == number(n as int) {
            lex_less(s, t)
        } else {
            rank_less(number(m as int), number(n as int))
        }) by {
        assert((seq![m] + s).skip(1) =~= s);
        assert((seq![n] + t).skip(1) =~= t);
    }
}

proof fn lemma_no_parts()
    ensures
        orders_as_parts(Seq::empty(), Seq::empty(), Seq::empty(), Seq::empty()),
{
    assert forall|s: Seq<i128>, t: Seq<i128>| #[trigger]
        lex_less(Seq::empty() + s, Seq::empty() + t) == lex_less(s, t) by {
        assert(Seq::empty() + s =~= s);
        assert(Seq::empty() + t =~= t);
    }
}

proof fn lemma_first_part(
    ka: Seq<i128>,
    kb: Seq<i128>,
    a: Rank,
    b: Rank,
    la: Seq<i128>,
    lb: Seq<i128>,
    xs: Seq<Rank>,
    ys: Seq<Rank>,
)
    requires
        orders_as(ka, kb, a, b),
        a == b ==> orders_as_parts(la, lb, xs, ys),
    ensures
        orders_as_parts(ka + la, kb + lb, seq![a] + xs, seq![b] + ys),
{
    reveal(orders_as);
    let ps = seq![a] + xs;
    let qs = seq![b] + ys;
    assert(ps.skip(1) =~= xs);
    assert(qs.skip(1) =~= ys);
    if a == b && xs == ys {
        assert(ps == qs);
    }
    assert forall|s: Seq<i128>, t: Seq<i128>| #[trigger]
        lex_less(ka + la + s, kb + lb + t) == (if ps == qs {
            lex_less(s, t)
        } else {
            parts_less(ps, qs)
        }) by {
        assert(ka + la + s =~= ka + (la + s));
        assert(kb + lb + t =~= kb + (lb + t));
        assert(ps[0] == a && qs[0] == b);
        if a == b {
            assert(lex_less(la + s, lb + t) == (if xs == ys {
                lex_less(s, t)
            } else {
                parts_less(xs, ys)
            }));
        }
    }
}

proof fn lemma_parts(ka: Seq<i128>, kb: Seq<i128>, xs: Seq<Rank>, ys: Seq<Rank>)
    requires
        orders_as_parts(ka, kb, xs, ys),
    ensures
        orders_as(ka, kb, Rank::Parts(xs), Rank::Parts(ys)),
{
    reveal(orders_as);
}

/// The given keys one after the other.
spec fn joined(ks: Seq<Seq<i128>>) -> Seq<i128>
    decreases ks.len(),
{
    if ks.len() == 0 {
        Seq::empty()
    } else {
        joined(ks.drop_last()) + ks.last()
    }
}

proof fn lemma_joined_one(a: Seq<i128>)
    ensures
        joined(seq![a]) == a,
{
    reveal_with_fuel(joined, 2);
    assert(seq![a].drop_last() =~= Seq::empty());
    assert(joined(seq![a]) =~= a);
}

proof fn lemma_joined_two(a: Seq<i128>, b: Seq<i128>)
    ensures
        joined(seq![a, b]) == a + b,
{
    lemma_joined_one(a);
    assert(seq![a, b].drop_last() =~= seq![a]);
}

proof fn lemma_joined_three(a: Seq<i128>, b: Seq<i128>, c: Seq<i128>)
    ensures
        joined(seq![a, b, c]) == a + b + c,
{
    lemma_joined_two(a, b);
    assert(seq![a, b, c].drop_last() =~= seq![a, b]);
}

proof fn lemma_joined_four(a: Seq<i128>, b: Seq<i128>, c: Seq<i128>, d: Seq<i128>)
    ensures
        joined(seq![a, b, c, d]) == a + b + c + d,
{
    lemma_joined_three(a, b, c);
    assert(seq![a, b, c, d].drop_last() =~= seq![a, b, c]);
}

proof fn lemma_joined_five(
    a: Seq<i128>,
    b: Seq<i128>,
    c: Seq<i128>,
    d: Seq<i128>,
    e: Seq<i128>,
)
    ensures
        joined(seq![a, b, c, d, e]) == a + b + c + d + e,
{
    lemma_joined_four(a, b, c, d);
    assert(seq![a, b, c, d, e].drop_last() =~= seq![a, b, c, d]);
}

proof fn lemma_joined_six(
    a: Seq<i128>,
    b: Seq<i128>,
    c: Seq<i128>,
    d: Seq<i128>,
    e: Seq<i128>,
    f: Seq<i128>,
)
    ensures
        joined(seq![a, b, c, d, e, f]) == a + b + c + d + e + f,
{
    lemma_joined_five(a, b, c, d, e);
    assert(seq![a, b, c, d, e, f].drop_last() =~= seq![a, b, c, d, e]);
}

proof fn lemma_joined_first(ks: Seq<Seq<i128>>)
    requires
        ks.len() > 0,
    ensures
        joined(ks) == ks[0] + joined(ks.skip(1)),
    decreases ks.len(),
{
    if ks.len() == 1 {
        assert(ks.drop_last() =~= Seq::empty());
        assert(ks.skip(1) =~= Seq::empty());
        assert(joined(ks) =~= ks[0] + joined(ks.skip(1)));
    } else {
        lemma_joined_first(ks.drop_last());
        assert(ks.drop_last().skip(1) =~= ks.skip(1).drop_last());
        assert(joined(ks) =~= ks[0] + joined(ks.skip(1)));
    }
}

/// Keys of parts one after the other order as the parts do, where those of the parts do as far as
/// all parts before them are equal.
proof fn lemma_joined(
    kas: Seq<Seq<i128>>,
    kbs: Seq<Seq<i128>>,
    xs: Seq<Rank>,
    ys: Seq<Rank>,
)
    requires
        kas.len() == xs.len(),
        kbs.len() == ys.len(),
        xs.len() > 0,
        ys.len() > 0,
        orders_as(kas[0], kbs[0], xs[0], ys[0]),
        xs[0] == ys[0] ==> xs.len() == ys.len(),
        xs[0] == ys[0] ==> forall|i: int|
            0 <= i < xs.len() ==> orders_as(#[trigger] kas[i], kbs[i], xs[i], ys[i]),
    ensures
        orders_as(joined(kas), joined(kbs), Rank::Parts(xs), Rank::Parts(ys)),
    decreases xs.len(),
{
    lemma_joined_first(kas);
    lemma_joined_first(kbs);
    let la = joined(kas.skip(1));
    let lb = joined(kbs.skip(1));
    if xs[0] == ys[0] {
        lemma_joined_parts(kas.skip(1), kbs.skip(1), xs.skip(1), ys.skip(1));
    }
    lemma_first_part(kas[0], kbs[0], xs[0], ys[0], la, lb, xs.skip(1), ys.skip(1));
    assert(seq![xs[0]] + xs.skip(1) =~= xs);
    assert(seq![ys[0]] + ys.skip(1) =~= ys);
    lemma_parts(joined(kas), joined(kbs), xs, ys);
}

proof fn lemma_joined_parts(
    kas: Seq<Seq<i128>>,
    kbs: Seq<Seq<i128>>,
    xs: Seq<Rank>,
    ys: Seq<Rank>,
)
    requires
        kas.len() == xs.len(),
        kbs.len() == xs.len(),
        ys.len() == xs.len(),
        forall|i: int| 0 <= i < xs.len() ==> orders_as(#[trigger] kas[i], kbs[i], xs[i], ys[i]),
    ensures
        orders_as_parts(joined(kas), joined(kbs), xs, ys),
    decreases xs.len(),
{
    if xs.len() == 0 {
        lemma_no_parts();
        assert(xs =~= Seq::empty());
        assert(ys =~= Seq::empty());
    } else {
        lemma_joined_first(kas);
        lemma_joined_first(kbs);
        assert forall|i: int| 0 <= i < xs.skip(1).len() implies orders_as(
            #[trigger] kas.skip(1)[i],
            kbs.skip(1)[i],
            xs.skip(1)[i],
            ys.skip(1)[i],
        ) by {
            assert(orders_as(kas[i + 1], kbs[i + 1], xs[i + 1], ys[i + 1]));
        }
        lemma_joined_parts(kas.skip(1), kbs.skip(1), xs.skip(1), ys.skip(1));
        lemma_first_part(
            kas[0],
            kbs[0],
            xs[0],
            ys[0],
            joined(kas.skip(1)),
            joined(kbs.skip(1)),
            xs.skip(1),
            ys.skip(1),
        );
        assert(seq![xs[0]] + xs.skip(1) =~= xs);
        assert(seq![ys[0]] + ys.skip(1) =~= ys);
    }
}

/// The given keys one after the other, with a one in front of each.
spec fn marked(ks: Seq<Seq<i128>>) -> Seq<i128>
    decreases ks.len(),
{
    if ks.len() == 0 {
        Seq::empty()
    } else {
        marked(ks.drop_last()) + seq![1i128] + ks.last()
    }
}

proof fn lemma_marked_first(ks: Seq<Seq<i128>>)
    requires
        ks.len() > 0,
    ensures
        marked(ks) == seq![1i128] + (ks[0] + marked(ks.skip(1))),
    decreases ks.len(),
{
    if ks.len() == 1 {
        assert(ks.drop_last() =~= Seq::empty());
        assert(ks.skip(1) =~= Seq::empty());
        assert(marked(ks) =~= seq![1i128] + (ks[0] + marked(ks.skip(1))));
    } else {
        lemma_marked_first(ks.drop_last());
        assert(ks.drop_last().skip(1) =~= ks.skip(1).drop_last());
        assert(marked(ks) =~= seq![1i128] + (ks[0] + marked(ks.skip(1))));
    }
}

/// Keys of lists order as the lists do, where those of the elements do.
proof fn lemma_list(kas: Seq<Seq<i128>>, kbs: Seq<Seq<i128>>, xs: Seq<Rank>, ys: Seq<Rank>)
    requires
        kas.len() == xs.len(),
        kbs.len() == ys.len(),
        forall|i: int|
            0 <= i < xs.len() && i < ys.len() ==> orders_as(
                #[trigger] kas[i],
                kbs[i],
                xs[i],
                ys[i],
            ),
    ensures
        orders_as_parts(marked(kas) + seq![0i128], marked(kbs) + seq![0i128], xs, ys),
    decreases xs.len(),
{
    let ka = marked(kas) + seq![0i128];
    let kb = marked(kbs) + seq![0i128];
    if xs.len() > 0 {
        lemma_marked_first(kas);
        assert(ka =~= seq![1i128] + (kas[0] + (marked(kas.skip(1)) + seq![0i128])));
    } else {
        assert(ka =~= seq![0i128] + Seq::empty());
    }
    if ys.len() > 0 {
        lemma_marked_first(kbs);
        assert(kb =~= seq![1i128] + (kbs[0] + (marked(kbs.skip(1)) + seq![0i128])));
    } else {
        assert(kb =~= seq![0i128] + Seq::empty());
    }
    if xs.len() > 0 && ys.len() > 0 {
        assert forall|i: int|
            0 <= i < xs.skip(1).len() && i < ys.skip(1).len() implies orders_as(
            #[trigger] kas.skip(1)[i],
            kbs.skip(1)[i],
            xs.skip(1)[i],
            ys.skip(1)[i],
        ) by {
            assert(orders_as(kas[i + 1], kbs[i + 1], xs[i + 1], ys[i + 1]));
        }
        lemma_list(kas.skip(1), kbs.skip(1), xs.skip(1), ys.skip(1));
        let la = marked(kas.skip(1)) + seq![0i128];
        let lb = marked(kbs.skip(1)) + seq![0i128];
        lemma_first_part(kas[0], kbs[0], xs[0], ys[0], la, lb, xs.skip(1), ys.skip(1));
        assert(seq![xs[0]] + xs.skip(1) =~= xs);
        assert(seq![ys[0]] + ys.skip(1) =~= ys);
        assert forall|s: Seq<i128>, t: Seq<i128>| #[trigger]
            lex_less(ka + s, kb + t) == (if xs == ys {
                lex_less(s, t)
            } else {
                parts_less(xs, ys)
            }) by {
            assert((ka + s)[0] == 1 && (kb + t)[0] == 1);
            assert((ka + s).skip(1) =~= (kas[0] + la) + s);
            assert((kb + t).skip(1) =~= (kbs[0] + lb) + t);
            assert(lex_less((kas[0] + la) + s, (kbs[0] + lb) + t) == (if xs == ys {
                lex_less(s, t)
            } else {
                parts_less(xs, ys)
            }));
        }
    } else {
        assert forall|s: Seq<i128>, t: Seq<i128>| #[trigger]
            lex_less(ka + s, kb + t) == (if xs == ys {
                lex_less(s, t)
            } else {
                parts_less(xs, ys)
            }) by {
            assert((ka + s)[0] == ka[0]);
            assert((kb + t)[0] == kb[0]);
            if xs.len() == 0 && ys.len() == 0 {
                assert(xs =~= ys);
                assert((ka + s).skip(1) =~= s);
                assert((kb + t).skip(1) =~= t);
            }
        }
    }
}

proof fn lemma_value(a: Value, b: Value)
    ensures
        orders_as(value_key(a), value_key(b), value_rank(a), value_rank(b)),
{
    let (ta, ia, oa) = match a {
        Value::Pattern { inst, output } => (0i128, inst.0 as i128, output as i128),
        Value::Expr { inst, output } => (1i128, inst.0 as i128, output as i128),
    };
    let (tb, ib, ob) = match b {
        Value::Pattern { inst, output } => (0i128, inst.0 as i128, output as i128),
        Value::Expr { inst, output } => (1i128, inst.0 as i128, output as i128),
    };
    let kas = seq![seq![ta], seq![ia], seq![oa]];
    let kbs = seq![seq![tb], seq![ib], seq![ob]];
    lemma_joined_three(seq![ta], seq![ia], seq![oa]);
    lemma_joined_three(seq![tb], seq![ib], seq![ob]);
    assert(value_key(a) =~= joined(kas));
    assert(value_key(b) =~= joined(kbs));
    lemma_number(ta, tb);
    lemma_number(ia, ib);
    lemma_number(oa, ob);
    lemma_joined(kas, kbs, value_rank(a)->Parts_0, value_rank(b)->Parts_0);
}

proof fn lemma_values_key(vs: Seq<Value>)
    ensures
        values_key(vs) == marked(Seq::new(vs.len(), |i: int| value_key(vs[i]))),
    decreases vs.len(),
{
    let ks = Seq::new(vs.len(), |i: int| value_key(vs[i]));
    if vs.len() > 0 {
        lemma_values_key(vs.drop_last());
        assert(ks.drop_last() =~= Seq::new(
            vs.drop_last().len(),
            |i: int| value_key(vs.drop_last()[i]),
        ));
    }
}

proof fn lemma_values(a: Seq<Value>, b: Seq<Value>)
    ensures
        orders_as(
            values_key(a) + seq![0i128],
            values_key(b) + seq![0i128],
            values_rank(a),
            values_rank(b),
        ),
{
    lemma_values_key(a);
    lemma_values_key(b);
    let kas = Seq::new(a.len(), |i: int| value_key(a[i]));
    let kbs = Seq::new(b.len(), |i: int| value_key(b[i]));
    let xs = values_rank(a)->Parts_0;
    let ys = values_rank(b)->Parts_0;
    assert forall|i: int| 0 <= i < xs.len() && i < ys.len() implies orders_as(
        #[trigger] kas[i],
        kbs[i],
        xs[i],
        ys[i],
    ) by {
        lemma_value(a[i], b[i]);
    }
    lemma_list(kas, kbs, xs, ys);
    lemma_parts(values_key(a) + seq![0i128], values_key(b) + seq![0i128], xs, ys);
}

proof fn lemma_types_key(tys: Seq<TypeId>)
    ensures
        types_key(tys) == marked(Seq::new(tys.len(), |i: int| seq![tys[i].0 as i128])),
    decreases tys.len(),
{
    let ks = Seq::new(tys.len(), |i: int| seq![tys[i].0 as i128]);
    if tys.len() > 0 {
        lemma_types_key(tys.drop_last());
        assert(ks.drop_last() =~= Seq::new(
            tys.drop_last().len(),
            |i: int| seq![tys.drop_last()[i].0 as i128],
        ));
        assert(types_key(tys) =~= marked(ks));
    }
}

proof fn lemma_types(a: Seq<TypeId>, b: Seq<TypeId>)
    ensures
        orders_as(
            types_key(a) + seq![0i128],
            types_key(b) + seq![0i128],
            types_rank(a),
            types_rank(b),
        ),
{
    lemma_types_key(a);
    lemma_types_key(b);
    let kas = Seq::new(a.len(), |i: int| seq![a[i].0 as i128]);
    let kbs = Seq::new(b.len(), |i: int| seq![b[i].0 as i128]);
    let xs = types_rank(a)->Parts_0;
    let ys = types_rank(b)->Parts_0;
    assert forall|i: int| 0 <= i < xs.len() && i < ys.len() implies orders_as(
        #[trigger] kas[i],
        kbs[i],
        xs[i],
        ys[i],
    ) by {
        lemma_number(a[i].0 as i128, b[i].0 as i128);
    }
    lemma_list(kas, kbs, xs, ys);
    lemma_parts(types_key(a) + seq![0i128], types_key(b) + seq![0i128], xs, ys);
}

/// The key of a value with its type.
spec fn typed_value_key(v: (Value, TypeId)) -> Seq<i128> {
    value_key(v.0) + seq![v.1.0 as i128]
}

proof fn lemma_typed_value(a: (Value, TypeId), b: (Value, TypeId))
    ensures
        orders_as(
            typed_value_key(a),
            typed_value_key(b),
            Rank::Parts(seq![value_rank(a.0), number(a.1.0 as int)]),
            Rank::Parts(seq![value_rank(b.0), number(b.1.0 as int)]),
        ),
{
    let kas = seq![value_key(a.0), seq![a.1.0 as i128]];
    let kbs = seq![value_key(b.0), seq![b.1.0 as i128]];
    lemma_joined_two(value_key(a.0), seq![a.1.0 as i128]);
    lemma_joined_two(value_key(b.0), seq![b.1.0 as i128]);
    lemma_value(a.0, b.0);
    lemma_number(a.1.0 as i128, b.1.0 as i128);
    lemma_joined(
        kas,
        kbs,
        seq![value_rank(a.0), number(a.1.0 as int)],
        seq![value_rank(b.0), number(b.1.0 as int)],
    );
}

proof fn lemma_typed_values_key(vs: Seq<(Value, TypeId)>)
    ensures
        typed_values_key(vs) == marked(Seq::new(vs.len(), |i: int| typed_value_key(vs[i]))),
    decreases vs.len(),
{
    let ks = Seq::new(vs.len(), |i: int| typed_value_key(vs[i]));
    if vs.len() > 0 {
        lemma_typed_values_key(vs.drop_last());
        assert(ks.drop_last() =~= Seq::new(
            vs.drop_last().len(),
            |i: int| typed_value_key(vs.drop_last()[i]),
        ));
        assert(typed_values_key(vs) =~= marked(ks));
    }
}

proof fn lemma_typed_values(a: Seq<(Value, TypeId)>, b: Seq<(Value, TypeId)>)
    ensures
        orders_as(
            typed_values_key(a) + seq![0i128],
            typed_values_key(b) + seq![0i128],
            typed_values_rank(a),
            typed_values_rank(b),
        ),
{
    lemma_typed_values_key(a);
    lemma_typed_values_key(b);
    let kas = Seq::new(a.len(), |i: int| typed_value_key(a[i]));
    let kbs = Seq::new(b.len(), |i: int| typed_value_key(b[i]));
    let xs = typed_values_rank(a)->Parts_0;
    let ys = typed_values_rank(b)->Parts_0;
    assert forall|i: int| 0 <= i < xs.len() && i < ys.len() implies orders_as(
        #[trigger] kas[i],
        kbs[i],
        xs[i],
        ys[i],
    ) by {
        lemma_typed_value(a[i], b[i]);
    }
    lemma_list(kas, kbs, xs, ys);
    lemma_parts(typed_values_key(a) + seq![0i128], typed_values_key(b) + seq![0i128], xs, ys);
}

/// The keys of the parts of an expression instruction.
spec fn expr_inst_keys(inst: ExprInst) -> Seq<Seq<i128>> {
    match inst {
        ExprInst::ConstInt { ty, val } => seq![seq![0i128], seq![ty.0 as i128], seq![val as i128]],
        ExprInst::ConstPrim { ty, val } => seq![
            seq![1i128],
            seq![ty.0 as i128],
            seq![val.0 as i128],
        ],
        ExprInst::CreateVariant { inputs, ty, variant } => seq![
            seq![2i128],
            typed_values_key(inputs@) + seq![0i128],
            seq![ty.0 as i128],
            seq![variant.0 as i128],
        ],
        ExprInst::Construct { inputs, ty, term, infallible } => seq![
            seq![3i128],
            typed_values_key(inputs@) + seq![0i128],
            seq![ty.0 as i128],
            seq![term.0 as i128],
            seq![flag_key(infallible)],
        ],
        ExprInst::Return { index, ty, value } => seq![
            seq![4i128],
            seq![index as i128],
            seq![ty.0 as i128],
            value_key(value),
        ],
    }
}

proof fn lemma_expr_inst_key(inst: ExprInst)
    ensures
        expr_inst_key(inst) == joined(expr_inst_keys(inst)),
{
    match inst {
        ExprInst::ConstInt { ty, val } => {
            lemma_joined_three(seq![0i128], seq![ty.0 as i128], seq![val as i128]);
        },
        ExprInst::ConstPrim { ty, val } => {
            lemma_joined_three(seq![1i128], seq![ty.0 as i128], seq![val.0 as i128]);
        },
        ExprInst::CreateVariant { inputs, ty, variant } => {
            lemma_joined_four(
                seq![2i128],
                typed_values_key(inputs@) + seq![0i128],
                seq![ty.0 as i128],
                seq![variant.0 as i128],
            );
        },
        ExprInst::Construct { inputs, ty, term, infallible } => {
            lemma_joined_five(
                seq![3i128],
                typed_values_key(inputs@) + seq![0i128],
                seq![ty.0 as i128],
                seq![term.0 as i128],
                seq![flag_key(infallible)],
            );
        },
        ExprInst::Return { index, ty, value } => {
            lemma_joined_four(
                seq![4i128],
                seq![index as i128],
                seq![ty.0 as i128],
                value_key(value),
            );
        },
    }
    assert(expr_inst_key(inst) =~= joined(expr_inst_keys(inst)));
}

proof fn lemma_expr_inst(a: ExprInst, b: ExprInst)
    ensures
        orders_as(expr_inst_key(a), expr_inst_key(b), expr_inst_rank(a), expr_inst_rank(b)),
{
    lemma_expr_inst_key(a);
    lemma_expr_inst_key(b);
    lemma_number(expr_inst_keys(a)[0][0], expr_inst_keys(b)[0][0]);
    match (a, b) {
        (ExprInst::ConstInt { ty, val }, ExprInst::ConstInt { ty: ty_b, val: val_b }) => {
            lemma_number(ty.0 as i128, ty_b.0 as i128);
            lemma_number(val as i128, val_b as i128);
        },
        (ExprInst::ConstPrim { ty, val }, ExprInst::ConstPrim { ty: ty_b, val: val_b }) => {
            lemma_number(ty.0 as i128, ty_b.0 as i128);
            lemma_number(val.0 as i128, val_b.0 as i128);
        },
        (
            ExprInst::CreateVariant { inputs, ty, variant },
            ExprInst::CreateVariant { inputs: inputs_b, ty: ty_b, variant: variant_b },
        ) => {
            lemma_typed_values(inputs@, inputs_b@);
            lemma_number(ty.0 as i128, ty_b.0 as i128);
            lemma_number(variant.0 as i128, variant_b.0 as i128);
        },
        (
            ExprInst::Construct { inputs, ty, term, infallible },
            ExprInst::Construct {
                inputs: inputs_b,
                ty: ty_b,
                term: term_b,
                infallible: infallible_b,
            },
        ) => {
            lemma_typed_values(inputs@, inputs_b@);
            lemma_number(ty.0 as i128, ty_b.0 as i128);
            lemma_number(term.0 as i128, term_b.0 as i128);
            lemma_number(flag_key(infallible), flag_key(infallible_b));
        },
        (
            ExprInst::Return { index, ty, value },
            ExprInst::Return { index: index_b, ty: ty_b, value: value_b },
        ) => {
            lemma_number(index as i128, index_b as i128);
            lemma_number(ty.0 as i128, ty_b.0 as i128);
            lemma_value(value, value_b);
        },
        _ => {},
    }
    lemma_joined(
        expr_inst_keys(a),
        expr_inst_keys(b),
        expr_inst_rank(a)->Parts_0,
        expr_inst_rank(b)->Parts_0,
    );
}

proof fn lemma_expr_insts_key(insts: Seq<ExprInst>)
    ensures
        expr_insts_key(insts) == marked(Seq::new(insts.len(), |i: int| expr_inst_key(insts[i]))),
    decreases insts.len(),
{
    let ks = Seq::new(insts.len(), |i: int| expr_inst_key(insts[i]));
    if insts.len() > 0 {
        lemma_expr_insts_key(insts.drop_last());
        assert(ks.drop_last() =~= Seq::new(
            insts.drop_last().len(),
            |i: int| expr_inst_key(insts.drop_last()[i]),
        ));
    }
}

proof fn lemma_expr_insts(a: Seq<ExprInst>, b: Seq<ExprInst>)
    ensures
        orders_as(
            expr_insts_key(a) + seq![0i128],
            expr_insts_key(b) + seq![0i128],
            expr_insts_rank(a),
            expr_insts_rank(b),
        ),
{
    lemma_expr_insts_key(a);
    lemma_expr_insts_key(b);
    let kas = Seq::new(a.len(), |i: int| expr_inst_key(a[i]));
    let kbs = Seq::new(b.len(), |i: int| expr_inst_key(b[i]));
    let xs = expr_insts_rank(a)->Parts_0;
    let ys = expr_insts_rank(b)->Parts_0;
    assert forall|i: int| 0 <= i < xs.len() && i < ys.len() implies orders_as(
        #[trigger] kas[i],
        kbs[i],
        xs[i],
        ys[i],
    ) by {
        lemma_expr_inst(a[i], b[i]);
    }
    lemma_list(kas, kbs, xs, ys);
    lemma_parts(expr_insts_key(a) + seq![0i128], expr_insts_key(b) + seq![0i128], xs, ys);
}

/// The keys of the parts of a position.
spec fn pos_keys(pos: Pos) -> Seq<Seq<i128>> {
    seq![
        seq![pos.file as i128],
        seq![pos.offset as i128],
        seq![pos.line as i128],
        seq![pos.col as i128],
    ]
}

proof fn lemma_pos_key(pos: Pos)
    ensures
        pos_key(pos) == joined(pos_keys(pos)),
{
    lemma_joined_four(
        seq![pos.file as i128],
        seq![pos.offset as i128],
        seq![pos.line as i128],
        seq![pos.col as i128],
    );
    assert(pos_key(pos) =~= joined(pos_keys(pos)));
}

proof fn lemma_pos(a: Pos, b: Pos)
    ensures
        orders_as(pos_key(a), pos_key(b), pos_rank(a), pos_rank(b)),
{
    lemma_pos_key(a);
    lemma_pos_key(b);
    lemma_number(a.file as i128, b.file as i128);
    lemma_number(a.offset as i128, b.offset as i128);
    lemma_number(a.line as i128, b.line as i128);
    lemma_number(a.col as i128, b.col as i128);
    lemma_joined(pos_keys(a), pos_keys(b), pos_rank(a)->Parts_0, pos_rank(b)->Parts_0);
}

proof fn lemma_expr_sequence(a: ExprSequence, b: ExprSequence)
    ensures
        orders_as(
            expr_sequence_key(a),
            expr_sequence_key(b),
            expr_sequence_rank(a),
            expr_sequence_rank(b),
        ),
{
    let insts_a = expr_insts_key(a.insts@) + seq![0i128];
    let insts_b = expr_insts_key(b.insts@) + seq![0i128];
    lemma_joined_two(insts_a, pos_key(a.pos));
    lemma_joined_two(insts_b, pos_key(b.pos));
    lemma_expr_insts(a.insts@, b.insts@);
    lemma_pos(a.pos, b.pos);
    lemma_joined(
        seq![insts_a, pos_key(a.pos)],
        seq![insts_b, pos_key(b.pos)],
        expr_sequence_rank(a)->Parts_0,
        expr_sequence_rank(b)->Parts_0,
    );
}

/// The keys of the parts of a pattern instruction.
spec fn pattern_keys(op: PatternInst) -> Seq<Seq<i128>> {
    match op {
        PatternInst::Arg { index, ty } => seq![
            seq![0i128],
            seq![index as i128],
            seq![ty.0 as i128],
        ],
        PatternInst::MatchEqual { a, b, ty } => seq![
            seq![1i128],
            value_key(a),
            value_key(b),
            seq![ty.0 as i128],
        ],
        PatternInst::MatchInt { input, ty, int_val } => seq![
            seq![2i128],
            value_key(input),
            seq![ty.0 as i128],
            seq![int_val as i128],
        ],
        PatternInst::MatchPrim { input, ty, val } => seq![
            seq![3i128],
            value_key(input),
            seq![ty.0 as i128],
            seq![val.0 as i128],
        ],
        PatternInst::MatchVariant { input, input_ty, arg_tys, variant } => seq![
            seq![4i128],
            value_key(input),
            seq![input_ty.0 as i128],
            types_key(arg_tys@) + seq![0i128],
            seq![variant.0 as i128],
        ],
        PatternInst::Extract { inputs, input_tys, output_tys, term, infallible } => seq![
            seq![5i128],
            values_key(inputs@) + seq![0i128],
            types_key(input_tys@) + seq![0i128],
            types_key(output_tys@) + seq![0i128],
            seq![term.0 as i128],
            seq![flag_key(infallible)],
        ],
        PatternInst::Expr { seq, output, output_ty } => seq![
            seq![6i128],
            expr_sequence_key(seq),
            value_key(output),
            seq![output_ty.0 as i128],
        ],
    }
}

proof fn lemma_pattern_key(op: PatternInst)
    ensures
        pattern_key(op) == joined(pattern_keys(op)),
{
    match op {
        PatternInst::Arg { index, ty } => {
            lemma_joined_three(
                seq![0i128],
                seq![index as i128],
                seq![ty.0 as i128],
            );
        },
        PatternInst::MatchEqual { a, b, ty } => {
            lemma_joined_four(
                seq![1i128],
                value_key(a),
                value_key(b),
                seq![ty.0 as i128],
            );
        },
        PatternInst::MatchInt { input, ty, int_val } => {
            lemma_joined_four(
                seq![2i128],
                value_key(input),
                seq![ty.0 as i128],
                seq![int_val as i128],
            );
        },
        PatternInst::MatchPrim { input, ty, val } => {
            lemma_joined_four(
                seq![3i128],
                value_key(input),
                seq![ty.0 as i128],
                seq![val.0 as i128],
            );
        },
        PatternInst::MatchVariant { input, input_ty, arg_tys, variant } => {
            lemma_joined_five(
                seq![4i128],
                value_key(input),
                seq![input_ty.0 as i128],
                types_key(arg_tys@) + seq![0i128],
                seq![variant.0 as i128],
            );
        },
        PatternInst::Extract { inputs, input_tys, output_tys, term, infallible } => {
            lemma_joined_six(
                seq![5i128],
                values_key(inputs@) + seq![0i128],
                types_key(input_tys@) + seq![0i128],
                types_key(output_tys@) + seq![0i128],
                seq![term.0 as i128],
                seq![flag_key(infallible)],
            );
        },
        PatternInst::Expr { seq, output, output_ty } => {
            lemma_joined_four(
                seq![6i128],
                expr_sequence_key(seq),
                value_key(output),
                seq![output_ty.0 as i128],
            );
        },
    }
    assert(pattern_key(op) =~= joined(pattern_keys(op)));
}

proof fn lemma_pattern(a: PatternInst, b: PatternInst)
    ensures
        orders_as(pattern_key(a), pattern_key(b), pattern_rank(a), pattern_rank(b)),
{
    lemma_pattern_key(a);
    lemma_pattern_key(b);
    lemma_number(pattern_keys(a)[0][0], pattern_keys(b)[0][0]);
    match (a, b) {
        (
            PatternInst::Arg { index, ty },
            PatternInst::Arg { index: index_b, ty: ty_b },
        ) => {
            lemma_number(index as i128, index_b as i128);
            lemma_number(ty.0 as i128, ty_b.0 as i128);
        },
        (
            PatternInst::MatchEqual { a: a_a, b: b_a, ty },
            PatternInst::MatchEqual { a: a_b, b: b_b, ty: ty_b },
        ) => {
            lemma_value(a_a, a_b);
            lemma_value(b_a, b_b);
            lemma_number(ty.0 as i128, ty_b.0 as i128);
        },
        (
            PatternInst::MatchInt { input, ty, int_val },
            PatternInst::MatchInt { input: input_b, ty: ty_b, int_val: int_val_b },
        ) => {
            lemma_value(input, input_b);
            lemma_number(ty.0 as i128, ty_b.0 as i128);
            lemma_number(int_val as i128, int_val_b as i128);
        },
        (
            PatternInst::MatchPrim { input, ty, val },
            PatternInst::MatchPrim { input: input_b, ty: ty_b, val: val_b },
        ) => {
            lemma_value(input, input_b);
            lemma_number(ty.0 as i128, ty_b.0 as i128);
            lemma_number(val.0 as i128, val_b.0 as i128);
        },
        (
            PatternInst::MatchVariant { input, input_ty, arg_tys, variant },
            PatternInst::MatchVariant {
                input: input_b,
                input_ty: input_ty_b,
                arg_tys: arg_tys_b,
                variant: variant_b,
            },
        ) => {
            lemma_value(input, input_b);
            lemma_number(input_ty.0 as i128, input_ty_b.0 as i128);
            lemma_types(arg_tys@, arg_tys_b@);
            lemma_number(variant.0 as i128, variant_b.0 as i128);
        },
        (
            PatternInst::Extract { inputs, input_tys, output_tys, term, infallible },
            PatternInst::Extract {
                inputs: inputs_b,
                input_tys: input_tys_b,
                output_tys: output_tys_b,
                term: term_b,
                infallible: infallible_b,
            },
        ) => {
            lemma_values(inputs@, inputs_b@);
            lemma_types(input_tys@, input_tys_b@);
            lemma_types(output_tys@, output_tys_b@);
            lemma_number(term.0 as i128, term_b.0 as i128);
            lemma_number(flag_key(infallible), flag_key(infallible_b));
        },
        (
            PatternInst::Expr { seq, output, output_ty },
            PatternInst::Expr { seq: seq_b, output: output_b, output_ty: output_ty_b },
        ) => {
            lemma_expr_sequence(seq, seq_b);
            lemma_value(output, output_b);
            lemma_number(output_ty.0 as i128, output_ty_b.0 as i128);
        },
        _ => {},
    }
    lemma_joined(
        pattern_keys(a),
        pattern_keys(b),
        pattern_rank(a)->Parts_0,
        pattern_rank(b)->Parts_0,
    );
}

/// The keys of the parts of a symbol.
spec fn symbol_keys(symbol: TrieSymbol) -> Seq<Seq<i128>> {
    match symbol {
        TrieSymbol::Match { op } => seq![seq![0i128], pattern_key(op)],
        TrieSymbol::EndOfMatch => seq![seq![1i128]],
    }
}

proof fn lemma_symbol_key(symbol: TrieSymbol)
    ensures
        symbol_key(symbol) == joined(symbol_keys(symbol)),
{
    match symbol {
        TrieSymbol::Match { op } => {
            lemma_joined_two(seq![0i128], pattern_key(op));
        },
        TrieSymbol::EndOfMatch => {
            lemma_joined_one(seq![1i128]);
        },
    }
}

proof fn lemma_symbol(a: TrieSymbol, b: TrieSymbol)
    ensures
        orders_as(symbol_key(a), symbol_key(b), symbol_rank(a), symbol_rank(b)),
{
    lemma_symbol_key(a);
    lemma_symbol_key(b);
    lemma_number(symbol_keys(a)[0][0], symbol_keys(b)[0][0]);
    match (a, b) {
        (TrieSymbol::Match { op }, TrieSymbol::Match { op: op_b }) => {
            lemma_pattern(op, op_b);
        },
        _ => {},
    }
    lemma_joined(
        symbol_keys(a),
        symbol_keys(b),
        symbol_rank(a)->Parts_0,
        symbol_rank(b)->Parts_0,
    );
}

/// No rank comes before itself.
pub proof fn law_rank_irreflexive(a: Rank)
    ensures
        !rank_less(a, a),
    decreases a,
{
    if let Rank::Parts(xs) = a {
        lemma_parts_irreflexive(xs);
    }
}

proof fn lemma_parts_irreflexive(xs: Seq<Rank>)
    ensures
        !parts_less(xs, xs),
    decreases xs.len(),
{
    if xs.len() > 0 {
        lemma_parts_irreflexive(xs.skip(1));
    }
}

/// Of two different ranks one comes before the other.
pub proof fn law_rank_total(a: Rank, b: Rank)
    ensures
        rank_less(a, b) || rank_less(b, a) || a == b,
    decreases a,
{
    if let (Rank::Parts(xs), Rank::Parts(ys)) = (a, b) {
        lemma_parts_total(xs, ys);
    }
}

proof fn lemma_parts_total(xs: Seq<Rank>, ys: Seq<Rank>)
    ensures
        parts_less(xs, ys) || parts_less(ys, xs) || xs == ys,
    decreases xs,
{
    if xs.len() == 0 && ys.len() == 0 {
        assert(xs =~= ys);
    } else if xs.len() > 0 && ys.len() > 0 {
        law_rank_total(xs[0], ys[0]);
        lemma_parts_total(xs.skip(1), ys.skip(1));
        if xs[0] == ys[0] && xs.skip(1) == ys.skip(1) {
            assert(xs =~= seq![xs[0]] + xs.skip(1));
            assert(ys =~= seq![ys[0]] + ys.skip(1));
        }
    }
}

/// The keys of symbols order as the symbols themselves do: by variant, and then by the fields as
/// they are declared.
pub proof fn law_symbol_order(a: TrieSymbol, b: TrieSymbol)
    ensures
        lex_less(symbol_key(a), symbol_key(b)) == rank_less(symbol_rank(a), symbol_rank(b)),
        (symbol_key(a) == symbol_key(b)) == (symbol_rank(a) == symbol_rank(b)),
{
    reveal(orders_as);
    let none = Seq::<i128>::empty();
    lemma_symbol(a, b);
    lemma_symbol(b, a);
    assert(symbol_key(a) + none =~= symbol_key(a));
    assert(symbol_key(b) + none =~= symbol_key(b));
    assert(!lex_less(none, none));
    law_rank_irreflexive(symbol_rank(a));
    law_rank_total(symbol_rank(a), symbol_rank(b));
    law_lex_irreflexive(symbol_key(a));
    law_lex_total(symbol_key(a), symbol_key(b));
}

} // verus!
