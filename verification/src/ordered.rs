use crate::packet::{CordId, NeighborInfo};
use std::collections::BTreeMap;
use vstd::prelude::*;
use vstd::std_specs::cmp::OrdSpec;
use vstd::std_specs::iter::IteratorSpec;

verus! {

/// Each element is smaller than every later one.
pub open spec fn increasing(s: Seq<CordId>) -> bool {
    forall|i: int, j: int| 0 <= i < j < s.len() ==> s[i] < s[j]
}

/// `keys` lists the positions of the table `n`: all of them, each once, in
/// ascending order.
pub open spec fn lists(keys: Seq<CordId>, n: Map<CordId, NeighborInfo>) -> bool {
    &&& increasing(keys)
    &&& forall|t: int| 0 <= t < keys.len() ==> n.contains_key(#[trigger] keys[t])
    &&& forall|k: CordId| #[trigger] n.contains_key(k) ==> keys.contains(k)
}

/// Where a known position stands in the list.
pub proof fn lemma_listed_at(keys: Seq<CordId>, n: Map<CordId, NeighborInfo>, k: CordId) -> (t: int)
    requires
        lists(keys, n),
        n.contains_key(k),
    ensures
        0 <= t < keys.len(),
        keys[t] == k,
{
    assert(keys.contains(k));
    choose|t: int| 0 <= t < keys.len() && keys[t] == k
}

/// The positions of all known neighbors, in ascending order.
pub fn ordered_keys(neighbors: &BTreeMap<CordId, NeighborInfo>) -> (keys: Vec<CordId>)
    ensures
        lists(keys@, neighbors@),
{
    let mut keys: Vec<CordId> = Vec::new();
    for k in it: neighbors.keys()
        invariant
            keys@.len() == it.index(),
            forall|j: int| 0 <= j < keys@.len() ==> keys@[j] == *it.seq()[j],
    {
        keys.push(*k);
    }
    proof {
        let walked = neighbors.keys().remaining();
        assert(walked.unref().to_set() == neighbors@.dom());
        assert(keys@ =~= walked.unref());
        assert forall|k: CordId| neighbors@.contains_key(k) <==> keys@.contains(k) by {
            assert(neighbors@.dom().contains(k) <==> keys@.to_set().contains(k));
        }
        assert forall|t: int| 0 <= t < keys@.len() implies neighbors@.contains_key(
            #[trigger] keys@[t],
        ) by {
            assert(keys@.contains(keys@[t]));
        }
        vstd::std_specs::btree::axiom_increasing_seq_meaning(walked);
        assert forall|i: int, j: int| 0 <= i < j < keys@.len() implies keys@[i] < keys@[j] by {
            assert((&walked[i]).cmp_spec(&walked[j]) is Less);
        }
    }
    keys
}

} // verus!
