use crate::ordered::{lemma_listed_at, lists, ordered_keys};
use crate::packet::{CordId, NeighborInfo};
use std::collections::BTreeMap;
use vstd::prelude::*;

verus! {

/// The neighbor table of a node: ordered by position, one entry per neighbor.
pub type NeighborMap = BTreeMap<CordId, NeighborInfo>;

/// Ticks after which a neighbor that was not heard again is forgotten.
pub const MAX_AGE: u64 = 5;

/// Distance between two positions.
pub open spec fn distance(a: CordId, b: CordId) -> int {
    if a >= b {
        a - b
    } else {
        b - a
    }
}

/// `k` is the nearest known neighbor above `c`.
pub open spec fn is_successor_of(n: Map<CordId, NeighborInfo>, c: CordId, k: CordId) -> bool {
    &&& n.contains_key(k)
    &&& k > c
    &&& forall|j: CordId| #[trigger] n.contains_key(j) && j > c ==> k <= j
}

/// The smallest known neighbor position greater than `c`, if there is one.
pub open spec fn successor_of(n: Map<CordId, NeighborInfo>, c: CordId) -> Option<CordId> {
    if exists|k: CordId| is_successor_of(n, c, k) {
        Some(choose|k: CordId| is_successor_of(n, c, k))
    } else {
        None
    }
}

/// `k` is the nearest known neighbor below `c`.
pub open spec fn is_predecessor_of(n: Map<CordId, NeighborInfo>, c: CordId, k: CordId) -> bool {
    &&& n.contains_key(k)
    &&& k < c
    &&& forall|j: CordId| #[trigger] n.contains_key(j) && j < c ==> j <= k
}

/// The largest known neighbor position less than `c`, if there is one.
pub open spec fn predecessor_of(n: Map<CordId, NeighborInfo>, c: CordId) -> Option<CordId> {
    if exists|k: CordId| is_predecessor_of(n, c, k) {
        Some(choose|k: CordId| is_predecessor_of(n, c, k))
    } else {
        None
    }
}

/// `k` is the neighbor closest to `target`; of two equally close neighbors
/// the one at the smaller position counts as closer.
pub open spec fn is_closest_neighbor(n: Map<CordId, NeighborInfo>, target: CordId, k: CordId) -> bool {
    &&& n.contains_key(k)
    &&& forall|j: CordId| #[trigger]
        n.contains_key(j) ==> distance(k, target) < distance(j, target) || (distance(k, target)
            == distance(j, target) && k <= j)
}

/// The neighbor closest to `target`, if any neighbor is known.
pub open spec fn closest_neighbor(n: Map<CordId, NeighborInfo>, target: CordId) -> Option<CordId> {
    if exists|k: CordId| is_closest_neighbor(n, target, k) {
        Some(choose|k: CordId| is_closest_neighbor(n, target, k))
    } else {
        None
    }
}

/// Where a node at `own` hands data for `target`: to the closest neighbor
/// if that one is strictly closer to `target` than the node itself, else to
/// itself.
pub open spec fn next_hop(own: CordId, n: Map<CordId, NeighborInfo>, target: CordId) -> CordId {
    match closest_neighbor(n, target) {
        Some(k) => if distance(k, target) < distance(own, target) {
            k
        } else {
            own
        },
        None => own,
    }
}

/// The entry one tick later.
pub open spec fn older(info: NeighborInfo) -> NeighborInfo {
    NeighborInfo { age: (info.age + 1) as u64, ..info }
}

/// The table one tick later: every entry is one tick older, and those that
/// reach [`MAX_AGE`] are gone.
pub open spec fn aged(n: Map<CordId, NeighborInfo>) -> Map<CordId, NeighborInfo> {
    Map::new(|k: CordId| n.contains_key(k) && n[k].age + 1 < MAX_AGE, |k: CordId| older(n[k]))
}

/// The nearest neighbor above `c` is unique.
pub proof fn lemma_successor_is(n: Map<CordId, NeighborInfo>, c: CordId, k: CordId)
    requires
        is_successor_of(n, c, k),
    ensures
        successor_of(n, c) == Some(k),
{
    let chosen = choose|j: CordId| is_successor_of(n, c, j);
    assert(is_successor_of(n, c, chosen));
    assert(chosen <= k && k <= chosen);
}

/// Without a neighbor above `c` there is no successor.
pub proof fn lemma_successor_none(n: Map<CordId, NeighborInfo>, c: CordId)
    requires
        forall|j: CordId| #[trigger] n.contains_key(j) ==> j <= c,
    ensures
        successor_of(n, c) is None,
{
}

/// The nearest neighbor below `c` is unique.
pub proof fn lemma_predecessor_is(n: Map<CordId, NeighborInfo>, c: CordId, k: CordId)
    requires
        is_predecessor_of(n, c, k),
    ensures
        predecessor_of(n, c) == Some(k),
{
    let chosen = choose|j: CordId| is_predecessor_of(n, c, j);
    assert(is_predecessor_of(n, c, chosen));
    assert(chosen <= k && k <= chosen);
}

/// Without a neighbor below `c` there is no predecessor.
pub proof fn lemma_predecessor_none(n: Map<CordId, NeighborInfo>, c: CordId)
    requires
        forall|j: CordId| #[trigger] n.contains_key(j) ==> j >= c,
    ensures
        predecessor_of(n, c) is None,
{
}

/// The closest neighbor is unique.
pub proof fn lemma_closest_is(n: Map<CordId, NeighborInfo>, target: CordId, k: CordId)
    requires
        is_closest_neighbor(n, target, k),
    ensures
        closest_neighbor(n, target) == Some(k),
{
    let chosen = choose|j: CordId| is_closest_neighbor(n, target, j);
    assert(is_closest_neighbor(n, target, chosen));
    assert(chosen <= k && k <= chosen);
}

/// The entry stored for `k`, if there is one.
pub fn lookup(neighbors: &NeighborMap, k: CordId) -> (found: Option<NeighborInfo>)
    ensures
        match found {
            Some(info) => neighbors@.contains_key(k) && neighbors@[k] == info,
            None => !neighbors@.contains_key(k),
        },
{
    match neighbors.get(&k) {
        Some(info) => Some(*info),
        None => None,
    }
}

/// The smallest neighbor position above `c`.
pub fn nearest_above(neighbors: &NeighborMap, c: CordId) -> (found: Option<CordId>)
    ensures
        found == successor_of(neighbors@, c),
{
    let keys = ordered_keys(neighbors);
    let mut i: usize = 0;
    while i < keys.len()
        invariant
            i <= keys@.len(),
            lists(keys@, neighbors@),
            forall|j: int| 0 <= j < i ==> keys@[j] <= c,
        decreases keys@.len() - i,
    {
        let k: CordId = keys[i];
        if k > c {
            proof {
                assert forall|j: CordId| #[trigger]
                    neighbors@.contains_key(j) && j > c implies k <= j by {
                    let t = lemma_listed_at(keys@, neighbors@, j);
                    assert(t >= i);
                }
                lemma_successor_is(neighbors@, c, k);
            }
            return Some(k);
        }
        i = i + 1;
    }
    proof {
        assert forall|j: CordId| #[trigger] neighbors@.contains_key(j) implies j <= c by {
            let t = lemma_listed_at(keys@, neighbors@, j);
        }
        lemma_successor_none(neighbors@, c);
    }
    None
}

/// The largest neighbor position below `c`.
pub fn nearest_below(neighbors: &NeighborMap, c: CordId) -> (found: Option<CordId>)
    ensures
        found == predecessor_of(neighbors@, c),
{
    let keys = ordered_keys(neighbors);
    let mut found: Option<CordId> = None;
    let mut i: usize = 0;
    while i < keys.len() && keys[i] < c
        invariant
            i <= keys@.len(),
            lists(keys@, neighbors@),
            forall|j: int| 0 <= j < i ==> keys@[j] < c,
            match found {
                Some(k) => i > 0 && k == keys@[i - 1],
                None => i == 0,
            },
        decreases keys@.len() - i,
    {
        found = Some(keys[i]);
        i = i + 1;
    }
    proof {
        match found {
            Some(k) => {
                assert forall|j: CordId| #[trigger]
                    neighbors@.contains_key(j) && j < c implies j <= k by {
                    let t = lemma_listed_at(keys@, neighbors@, j);
                    if t >= i {
                        assert(keys@[i as int] <= keys@[t]);
                    }
                }
                lemma_predecessor_is(neighbors@, c, k);
            },
            None => {
                assert forall|j: CordId| #[trigger] neighbors@.contains_key(j) implies j >= c by {
                    let t = lemma_listed_at(keys@, neighbors@, j);
                    assert(keys@[0] <= keys@[t]);
                }
                lemma_predecessor_none(neighbors@, c);
            },
        }
    }
    found
}

/// The distance between two positions.
pub fn gap(a: CordId, b: CordId) -> (d: u32)
    ensures
        d == distance(a, b),
{
    if a >= b {
        a - b
    } else {
        b - a
    }
}

/// Where a node at `own` hands data for `target`.
pub fn closest_to(neighbors: &NeighborMap, own: CordId, target: CordId) -> (hop: CordId)
    ensures
        hop == next_hop(own, neighbors@, target),
{
    let keys = ordered_keys(neighbors);
    let mut pick: Option<CordId> = None;
    let mut smallest: u32 = gap(target, own);
    let mut i: usize = 0;
    while i < keys.len()
        invariant
            i <= keys@.len(),
            lists(keys@, neighbors@),
            match pick {
                Some(k) => {
                    &&& neighbors@.contains_key(k)
                    &&& smallest == distance(k, target)
                    &&& smallest < distance(own, target)
                    &&& forall|j: int|
                        0 <= j < i ==> distance(k, target) < distance(#[trigger] keys@[j], target)
                            || (distance(k, target) == distance(keys@[j], target) && k <= keys@[j])
                },
                None => {
                    &&& smallest == distance(own, target)
                    &&& forall|j: int|
                        0 <= j < i ==> distance(#[trigger] keys@[j], target) >= distance(
                            own,
                            target,
                        )
                },
            },
            pick matches Some(k) ==> exists|t: int| 0 <= t < i && keys@[t] == k,
        decreases keys@.len() - i,
    {
        let k: CordId = keys[i];
        let diff: u32 = gap(k, target);
        if diff < smallest {
            smallest = diff;
            pick = Some(k);
            assert(keys@[i as int] == k);
        } else {
            proof {
                if let Some(b) = pick {
                    let t = choose|t: int| 0 <= t < i && keys@[t] == b;
                    assert(keys@[t] < keys@[i as int]);
                }
            }
        }
        i = i + 1;
    }
    proof {
        match pick {
            Some(k) => {
                assert forall|j: CordId| #[trigger] neighbors@.contains_key(j) implies distance(
                    k,
                    target,
                ) < distance(j, target) || (distance(k, target) == distance(j, target) && k
                    <= j) by {
                    let t = lemma_listed_at(keys@, neighbors@, j);
                    assert(keys@[t] == j);
                }
                lemma_closest_is(neighbors@, target, k);
            },
            None => {
                if let Some(k) = closest_neighbor(neighbors@, target) {
                    assert(is_closest_neighbor(neighbors@, target, k));
                    let t = lemma_listed_at(keys@, neighbors@, k);
                    assert(keys@[t] == k);
                }
            },
        }
    }
    match pick {
        Some(k) => k,
        None => own,
    }
}

/// Lets one tick pass over the table: entries grow one tick older and the
/// stale ones leave.
pub fn age_all(neighbors: &mut NeighborMap)
    ensures
        final(neighbors)@ == aged(old(neighbors)@),
{
    let keys = ordered_keys(neighbors);
    let mut kept: NeighborMap = BTreeMap::new();
    let mut i: usize = 0;
    while i < keys.len()
        invariant
            i <= keys@.len(),
            lists(keys@, neighbors@),
            forall|k: CordId| #[trigger]
                kept@.contains_key(k) <==> (aged(neighbors@).contains_key(k) && exists|t: int|
                    0 <= t < i && keys@[t] == k),
            forall|k: CordId| #[trigger] kept@.contains_key(k) ==> kept@[k] == older(neighbors@[k]),
        decreases keys@.len() - i,
    {
        let k: CordId = keys[i];
        let ghost before = kept@;
        match lookup(neighbors, k) {
            Some(info) => {
                if info.age < MAX_AGE - 1 {
                    kept.insert(
                        k,
                        NeighborInfo {
                            predecessor: info.predecessor,
                            successor: info.successor,
                            is_virtual: info.is_virtual,
                            age: info.age + 1,
                        },
                    );
                }
            },
            None => {},
        }
        proof {
            assert(keys@[i as int] == k);
            assert forall|j: CordId| #[trigger]
                kept@.contains_key(j) <==> (aged(neighbors@).contains_key(j) && exists|t: int|
                    0 <= t < i + 1 && keys@[t] == j) by {
                if j != k && before.contains_key(j) {
                    let t = choose|t: int| 0 <= t < i && keys@[t] == j;
                    assert(0 <= t < i + 1 && keys@[t] == j);
                }
                if j != k && aged(neighbors@).contains_key(j) && exists|t: int|
                    0 <= t < i + 1 && keys@[t] == j {
                    let t = choose|t: int| 0 <= t < i + 1 && keys@[t] == j;
                    assert(t < i);
                }
            }
        }
        i = i + 1;
    }
    proof {
        assert forall|k: CordId| aged(neighbors@).contains_key(k) implies kept@.contains_key(k) by {
            let t = lemma_listed_at(keys@, neighbors@, k);
            assert(0 <= t < i && keys@[t] == k);
        }
        assert(kept@ =~= aged(neighbors@));
    }
    *neighbors = kept;
}

} // verus!
