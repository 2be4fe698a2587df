//! Lexicographic order of keys, and the stable order of a list of keys.

use vstd::prelude::*;

verus! {

/// Whether `a` comes before `b` in lexicographic order.
pub open spec fn lex_less(a: Seq<i128>, b: Seq<i128>) -> bool
    decreases a.len(),
{
    if b.len() == 0 {
        false
    } else if a.len() == 0 {
        true
    } else if a[0] != b[0] {
        a[0] < b[0]
    } else {
        lex_less(a.skip(1), b.skip(1))
    }
}

/// Whether position `i` comes before position `j` when a list of keys is put in order: by key,
/// and by position where the keys are equal.
pub open spec fn precedes(keys: Seq<Seq<i128>>, i: int, j: int) -> bool {
    lex_less(keys[i], keys[j]) || (keys[i] == keys[j] && i < j)
}

/// Where in `order` the position `k` belongs, among the first `p` places: behind the last one
/// whose key is not above that of `k`.
pub open spec fn slot(keys: Seq<Seq<i128>>, order: Seq<int>, k: int, p: int) -> int
    decreases p,
{
    if p > 0 && lex_less(keys[k], keys[order[p - 1]]) {
        slot(keys, order, k, p - 1)
    } else {
        p
    }
}

/// The positions of the first `n` keys in stable order.
pub open spec fn stable_order(keys: Seq<Seq<i128>>, n: nat) -> Seq<int>
    decreases n,
{
    if n == 0 {
        Seq::empty()
    } else {
        let order = stable_order(keys, (n - 1) as nat);
        order.insert(slot(keys, order, n - 1, order.len() as int), n - 1)
    }
}

/// Whether `order` lists each position below `n` once, in stable order of the keys.
pub open spec fn is_stable_order(keys: Seq<Seq<i128>>, n: nat, order: Seq<int>) -> bool {
    &&& order.len() == n
    &&& forall|i: int| 0 <= i < order.len() ==> 0 <= #[trigger] order[i] < n
    &&& forall|k: int| 0 <= k < n ==> order.contains(k)
    &&& forall|i: int, j: int|
        0 <= i < j < order.len() ==> precedes(keys, #[trigger] order[i], #[trigger] order[j])
}

/// No key comes before itself.
pub proof fn law_lex_irreflexive(a: Seq<i128>)
    ensures
        !lex_less(a, a),
    decreases a.len(),
{
    if a.len() > 0 {
        law_lex_irreflexive(a.skip(1));
    }
}

/// Of two different keys one comes before the other.
pub proof fn law_lex_total(a: Seq<i128>, b: Seq<i128>)
    ensures
        lex_less(a, b) || lex_less(b, a) || a == b,
    decreases a.len(),
{
    if a.len() == 0 && b.len() == 0 {
        assert(a =~= b);
    } else if a.len() > 0 && b.len() > 0 && a[0] == b[0] {
        law_lex_total(a.skip(1), b.skip(1));
        if a.skip(1) == b.skip(1) {
            assert(a =~= seq![a[0]] + a.skip(1));
            assert(b =~= seq![b[0]] + b.skip(1));
        }
    }
}

/// A key that comes before a second one comes before all that come after the second.
pub proof fn law_lex_transitive(a: Seq<i128>, b: Seq<i128>, c: Seq<i128>)
    requires
        lex_less(a, b),
        lex_less(b, c),
    ensures
        lex_less(a, c),
    decreases a.len(),
{
    if a.len() > 0 && a[0] == b[0] && b[0] == c[0] {
        law_lex_transitive(a.skip(1), b.skip(1), c.skip(1));
    }
}

proof fn lemma_slot(keys: Seq<Seq<i128>>, order: Seq<int>, k: int, p: int)
    requires
        0 <= p <= order.len(),
    ensures
        0 <= slot(keys, order, k, p) <= p,
        forall|i: int|
            slot(keys, order, k, p) <= i < p ==> lex_less(keys[k], keys[#[trigger] order[i]]),
        slot(keys, order, k, p) > 0 ==> !lex_less(
            keys[k],
            keys[order[slot(keys, order, k, p) - 1]],
        ),
    decreases p,
{
    if p > 0 && lex_less(keys[k], keys[order[p - 1]]) {
        lemma_slot(keys, order, k, p - 1);
    }
}

/// The stable order lists each position once; it puts smaller keys first, and positions with
/// equal keys in the order in which they came.
pub proof fn law_stable_order(keys: Seq<Seq<i128>>, n: nat)
    ensures
        is_stable_order(keys, n, stable_order(keys, n)),
    decreases n,
{
    if n > 0 {
        let m = (n - 1) as nat;
        let old = stable_order(keys, m);
        law_stable_order(keys, m);
        lemma_slot(keys, old, n - 1, old.len() as int);
        let p = slot(keys, old, n - 1, old.len() as int);
        let new = stable_order(keys, n);
        assert(new == old.insert(p, n - 1));
        assert forall|k: int| 0 <= k < n implies new.contains(k) by {
            if k == n - 1 {
                assert(new[p] == k);
            } else {
                assert(old.contains(k));
                let i = choose|i: int| 0 <= i < old.len() && old[i] == k;
                if i < p {
                    assert(new[i] == k);
                } else {
                    assert(new[i + 1] == k);
                }
            }
        }
        assert forall|i: int, j: int| 0 <= i < j < new.len() implies precedes(
            keys,
            #[trigger] new[i],
            #[trigger] new[j],
        ) by {
            if i < p && j == p {
                let last = old[p - 1];
                law_lex_total(keys[last], keys[n - 1]);
                if i < p - 1 {
                    assert(precedes(keys, old[i], last));
                    if lex_less(keys[old[i]], keys[last]) && lex_less(keys[last], keys[n - 1]) {
                        law_lex_transitive(keys[old[i]], keys[last], keys[n - 1]);
                    }
                }
            } else if i == p && j > p {
                assert(new[j] == old[j - 1]);
            } else {
                let oi = if i < p { i } else { i - 1 };
                let oj = if j < p { j } else { j - 1 };
                assert(new[i] == old[oi]);
                assert(new[j] == old[oj]);
            }
        }
    }
}

/// There is only one stable order of a list of keys.
pub proof fn law_stable_order_unique(keys: Seq<Seq<i128>>, n: nat, a: Seq<int>, b: Seq<int>)
    requires
        is_stable_order(keys, n, a),
        is_stable_order(keys, n, b),
    ensures
        a == b,
{
    assert forall|i: int| 0 <= i < n implies a[i] == b[i] by {
        lemma_same_prefix(keys, n, a, b, i + 1);
    }
    assert(a =~= b);
}

proof fn lemma_precedes_asymmetric(keys: Seq<Seq<i128>>, i: int, j: int)
    requires
        precedes(keys, i, j),
    ensures
        !precedes(keys, j, i),
{
    law_lex_irreflexive(keys[i]);
    if lex_less(keys[i], keys[j]) && lex_less(keys[j], keys[i]) {
        law_lex_transitive(keys[i], keys[j], keys[i]);
    }
}

proof fn lemma_same_prefix(keys: Seq<Seq<i128>>, n: nat, a: Seq<int>, b: Seq<int>, m: int)
    requires
        is_stable_order(keys, n, a),
        is_stable_order(keys, n, b),
        0 <= m <= n,
    ensures
        forall|i: int| 0 <= i < m ==> a[i] == b[i],
    decreases m,
{
    if m > 0 {
        let k = m - 1;
        lemma_same_prefix(keys, n, a, b, k);
        if a[k] != b[k] {
            assert(b.contains(a[k]));
            assert(a.contains(b[k]));
            let p = choose|p: int| 0 <= p < b.len() && b[p] == a[k];
            let q = choose|q: int| 0 <= q < a.len() && a[q] == b[k];
            if p < k {
                assert(a[p] == a[k]);
                assert(precedes(keys, a[p], a[k]));
                lemma_precedes_asymmetric(keys, a[p], a[k]);
            }
            if q < k {
                assert(b[q] == b[k]);
                assert(precedes(keys, b[q], b[k]));
                lemma_precedes_asymmetric(keys, b[q], b[k]);
            }
            assert(precedes(keys, b[k], b[p]));
            assert(precedes(keys, a[k], a[q]));
            lemma_precedes_asymmetric(keys, a[k], b[k]);
        }
    }
}

/// Returns whether `a` comes before `b` in lexicographic order.
pub fn is_lex_less(a: &Vec<i128>, b: &Vec<i128>) -> (r: bool)
    ensures
        r == lex_less(a@, b@),
{
    let mut i: usize = 0;
    assert(a@.skip(0) =~= a@);
    assert(b@.skip(0) =~= b@);
    while i < a.len() && i < b.len()
        invariant
            i <= a@.len(),
            i <= b@.len(),
            lex_less(a@, b@) == lex_less(a@.skip(i as int), b@.skip(i as int)),
        decreases a@.len() - i,
    {
        if a[i] != b[i] {
            return a[i] < b[i];
        }
        proof {
            assert(a@.skip(i as int).skip(1) =~= a@.skip(i + 1));
            assert(b@.skip(i as int).skip(1) =~= b@.skip(i + 1));
        }
        i += 1;
    }
    i < b.len()
}

/// The keys that the vectors hold.
pub open spec fn key_seqs(keys: Seq<Vec<i128>>) -> Seq<Seq<i128>> {
    Seq::new(keys.len(), |i: int| keys[i]@)
}

/// The numbers that machine integers hold.
pub open spec fn positions(order: Seq<usize>) -> Seq<int> {
    Seq::new(order.len(), |i: int| order[i] as int)
}

/// Returns the positions of the keys in stable order.
pub fn arrange(keys: &Vec<Vec<i128>>) -> (order: Vec<usize>)
    ensures
        positions(order@) == stable_order(key_seqs(keys@), keys@.len()),
{
    let ghost all = key_seqs(keys@);
    let mut order: Vec<usize> = Vec::new();
    assert(positions(order@) =~= stable_order(all, 0));
    for k in 0..keys.len()
        invariant
            all == key_seqs(keys@),
            positions(order@) == stable_order(all, k as nat),
    {
        proof {
            law_stable_order(all, k as nat);
        }
        let ghost before = positions(order@);
        let mut p: usize = order.len();
        assert forall|i: int| 0 <= i < order@.len() implies order@[i] < k by {
            assert(before[i] == order@[i]);
        }
        while p > 0 && is_lex_less(&keys[k], &keys[order[p - 1]])
            invariant
                k < keys@.len(),
                all == key_seqs(keys@),
                before == positions(order@),
                p <= order@.len(),
                forall|i: int| 0 <= i < order@.len() ==> order@[i] < k,
                slot(all, before, k as int, order@.len() as int) == slot(
                    all,
                    before,
                    k as int,
                    p as int,
                ),
            decreases p,
        {
            p -= 1;
        }
        order.insert(p, k);
        assert(positions(order@) =~= before.insert(p as int, k as int));
    }
    order
}

} // verus!
