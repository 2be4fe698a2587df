//! The tries of a program, by term.

use crate::trie::TrieNode;
use std::collections::BTreeMap;
use vstd::prelude::*;
use vstd::std_specs::btree::increasing_seq;
use vstd::std_specs::cmp::OrdSpec;
use vstd::std_specs::iter::IteratorSpec;

verus! {

broadcast use vstd::laws_cmp::group_laws_cmp;

/// Whether `entries` lists the given tries in the order of their terms, and no others.
pub open spec fn lists_tries(
    entries: Seq<(usize, &TrieNode)>,
    tries: Map<usize, TrieNode>,
) -> bool {
    &&& forall|i: int|
        0 <= i < entries.len() ==> tries.contains_key((#[trigger] entries[i]).0)
            && tries[entries[i].0] == *entries[i].1
    &&& forall|i: int, j: int|
        0 <= i < j < entries.len() ==> (#[trigger] entries[i]).0 < (#[trigger] entries[j]).0
    &&& forall|t: usize| #[trigger]
        tries.contains_key(t) ==> exists|i: int|
            0 <= i < entries.len() && (#[trigger] entries[i]).0 == t
}

/// Returns the tries in the order of their terms.
pub fn tries_in_order<'a>(tries: &'a BTreeMap<usize, TrieNode>) -> (entries: Vec<
    (usize, &'a TrieNode),
>)
    ensures
        lists_tries(entries@, tries@),
{
    let mut entries: Vec<(usize, &'a TrieNode)> = Vec::new();
    let iter = tries.iter();
    proof {
        assert forall|i: int, j: int| 0 <= i < j < iter.remaining().len() implies *(
        #[trigger] iter.remaining()[i]).0 < *(#[trigger] iter.remaining()[j]).0 by {
            let keys = iter.remaining().map_values(|kv: (&usize, &TrieNode)| *kv.0);
            assert(increasing_seq(keys));
            assert(keys[i].cmp_spec(&keys[j]) is Less);
        }
        assert forall|t: usize| #[trigger] tries@.contains_key(t) implies exists|i: int|
            0 <= i < iter.remaining().len() && *(#[trigger] iter.remaining()[i]).0 == t by {
            assert(iter.remaining().contains((&t, &tries@[t])));
        }
    }
    for entry in it: iter
        invariant
            entries@.len() == it.index(),
            forall|i: int|
                #![trigger entries@[i]]
                #![trigger it.seq()[i]]
                0 <= i < entries@.len() ==> entries@[i].0 == *it.seq()[i].0 && entries@[i].1
                    == it.seq()[i].1,
            forall|i: int|
                0 <= i < it.seq().len() ==> tries@.contains_key(*(#[trigger] it.seq()[i]).0)
                    && tries@[*it.seq()[i].0] == *it.seq()[i].1,
            forall|i: int, j: int|
                0 <= i < j < it.seq().len() ==> *(#[trigger] it.seq()[i]).0 < *(
                #[trigger] it.seq()[j]).0,
            forall|t: usize| #[trigger]
                tries@.contains_key(t) ==> exists|i: int|
                    0 <= i < it.seq().len() && *(#[trigger] it.seq()[i]).0 == t,
    {
        entries.push((*entry.0, entry.1));
    }
    entries
}

} // verus!
