use crate::neighbors::{lookup, NeighborMap};
use crate::ordered::{lemma_listed_at, lists, ordered_keys};
use crate::packet::{CordId, NeighborInfo, END, START};
use vstd::prelude::*;

verus! {

/// The position halfway between two positions, rounded down.
pub open spec fn midpoint(a: CordId, b: CordId) -> CordId {
    ((a + b) / 2) as CordId
}

/// The position halfway between two positions, rounded down.
pub fn halfway(a: CordId, b: CordId) -> (m: CordId)
    ensures
        m == midpoint(a, b),
{
    let sum: u64 = a as u64 + b as u64;
    (sum / 2) as CordId
}

/// How a node without a position places itself among its neighbors.
#[derive(Clone, Copy, Debug)]
pub enum Placement {
    /// A neighbor stands at [`START`]: the node takes [`START`] and sends that
    /// neighbor to `candidate`.
    AtStart { candidate: CordId },
    /// A neighbor stands at [`END`]: the node takes [`END`] and sends that
    /// neighbor to `candidate`.
    AtEnd { candidate: CordId },
    /// The neighbor at `upper` names the neighbor at `lower` as its
    /// predecessor: the node goes halfway between the two.
    Between { upper: CordId, lower: CordId },
    /// The neighbor at `host` is asked for a virtual node at
    /// `virtual_position`, halfway to its successor; the node goes halfway
    /// between `host` and that virtual node.
    BesideVirtual { host: CordId, virtual_position: CordId },
}

/// Where the neighbor at [`START`] is sent: to [`END`] if it has no
/// successor, else halfway to its successor.
pub open spec fn start_candidate(neighbor: NeighborInfo) -> CordId {
    match neighbor.successor {
        None => END,
        Some(s) => if s == END {
            midpoint(START, END)
        } else {
            midpoint(s, START)
        },
    }
}

/// Where the neighbor at [`END`] is sent: halfway across the space if its
/// successor is [`START`], else halfway to its predecessor, and to
/// [`START`] if it has none.
pub open spec fn end_candidate(neighbor: NeighborInfo) -> CordId {
    if neighbor.successor == Some(START) {
        midpoint(START, END)
    } else {
        match neighbor.predecessor {
            Some(p) => midpoint(p, END),
            None => START,
        }
    }
}

/// The neighbor at `k` names another known neighbor as its predecessor.
pub open spec fn linked(n: Map<CordId, NeighborInfo>, k: CordId) -> bool {
    &&& n.contains_key(k)
    &&& match n[k].predecessor {
        Some(p) => p != k && n.contains_key(p),
        None => false,
    }
}

/// `k` is the lowest position of a linked neighbor.
pub open spec fn is_first_linked(n: Map<CordId, NeighborInfo>, k: CordId) -> bool {
    &&& linked(n, k)
    &&& forall|j: CordId| #[trigger] linked(n, j) ==> k <= j
}

/// The lowest position of a linked neighbor, if there is one.
pub open spec fn first_linked(n: Map<CordId, NeighborInfo>) -> Option<CordId> {
    if exists|k: CordId| is_first_linked(n, k) {
        Some(choose|k: CordId| is_first_linked(n, k))
    } else {
        None
    }
}

/// The neighbor at `k` can be asked for a virtual node: it is not virtual
/// itself and has a successor.
pub open spec fn can_host(n: Map<CordId, NeighborInfo>, k: CordId) -> bool {
    &&& n.contains_key(k)
    &&& !n[k].is_virtual
    &&& n[k].successor is Some
}

/// `k` is the lowest position of a neighbor that can host a virtual node.
pub open spec fn is_first_host(n: Map<CordId, NeighborInfo>, k: CordId) -> bool {
    &&& can_host(n, k)
    &&& forall|j: CordId| #[trigger] can_host(n, j) ==> k <= j
}

/// The lowest position of a neighbor that can host a virtual node, if there
/// is one.
pub open spec fn first_host(n: Map<CordId, NeighborInfo>) -> Option<CordId> {
    if exists|k: CordId| is_first_host(n, k) {
        Some(choose|k: CordId| is_first_host(n, k))
    } else {
        None
    }
}

/// The placement that the neighbor table allows, by the first rule that
/// applies: a neighbor at [`START`]; a neighbor at [`END`]; two neighbors
/// linked to each other; a neighbor that can host a virtual node. `None`
/// when no rule applies.
pub open spec fn placement(n: Map<CordId, NeighborInfo>) -> Option<Placement> {
    if n.contains_key(START) {
        Some(Placement::AtStart { candidate: start_candidate(n[START]) })
    } else if n.contains_key(END) {
        Some(Placement::AtEnd { candidate: end_candidate(n[END]) })
    } else {
        match first_linked(n) {
            Some(k) => Some(Placement::Between { upper: k, lower: n[k].predecessor.unwrap() }),
            None => match first_host(n) {
                Some(k) => Some(
                    Placement::BesideVirtual {
                        host: k,
                        virtual_position: midpoint(k, n[k].successor.unwrap()),
                    },
                ),
                None => None,
            },
        }
    }
}

/// The lowest linked neighbor is unique.
pub proof fn lemma_first_linked_is(n: Map<CordId, NeighborInfo>, k: CordId)
    requires
        is_first_linked(n, k),
    ensures
        first_linked(n) == Some(k),
{
    let chosen = choose|j: CordId| is_first_linked(n, j);
    assert(is_first_linked(n, chosen));
    assert(chosen <= k && k <= chosen);
}

/// Without a linked neighbor there is no lowest one.
pub proof fn lemma_first_linked_none(n: Map<CordId, NeighborInfo>)
    requires
        forall|j: CordId| !#[trigger] linked(n, j),
    ensures
        first_linked(n) is None,
{
}

/// The lowest neighbor that can host is unique.
pub proof fn lemma_first_host_is(n: Map<CordId, NeighborInfo>, k: CordId)
    requires
        is_first_host(n, k),
    ensures
        first_host(n) == Some(k),
{
    let chosen = choose|j: CordId| is_first_host(n, j);
    assert(is_first_host(n, chosen));
    assert(chosen <= k && k <= chosen);
}

/// Without a neighbor that can host there is no lowest one.
pub proof fn lemma_first_host_none(n: Map<CordId, NeighborInfo>)
    requires
        forall|j: CordId| !#[trigger] can_host(n, j),
    ensures
        first_host(n) is None,
{
}

/// The lowest linked neighbor, with the predecessor that it names.
pub fn find_linked(neighbors: &NeighborMap) -> (found: Option<(CordId, CordId)>)
    ensures
        match found {
            Some((upper, lower)) => first_linked(neighbors@) == Some(upper)
                && neighbors@[upper].predecessor == Some(lower),
            None => first_linked(neighbors@) is None,
        },
{
    let keys = ordered_keys(neighbors);
    let mut i: usize = 0;
    while i < keys.len()
        invariant
            i <= keys@.len(),
            lists(keys@, neighbors@),
            forall|j: int| 0 <= j < i ==> !linked(neighbors@, #[trigger] keys@[j]),
        decreases keys@.len() - i,
    {
        let k: CordId = keys[i];
        if let Some(info) = lookup(neighbors, k) {
            if let Some(p) = info.predecessor {
                if p != k && lookup(neighbors, p).is_some() {
                    proof {
                        assert forall|j: CordId| #[trigger] linked(neighbors@, j) implies k
                            <= j by {
                            let t = lemma_listed_at(keys@, neighbors@, j);
                            assert(keys@[t] == j);
                        }
                        lemma_first_linked_is(neighbors@, k);
                    }
                    return Some((k, p));
                }
            }
        }
        assert(!linked(neighbors@, keys@[i as int]));
        i = i + 1;
    }
    proof {
        assert forall|j: CordId| !#[trigger] linked(neighbors@, j) by {
            if linked(neighbors@, j) {
                let t = lemma_listed_at(keys@, neighbors@, j);
                assert(keys@[t] == j);
            }
        }
        lemma_first_linked_none(neighbors@);
    }
    None
}

/// The lowest neighbor that can host a virtual node, with its successor.
pub fn find_host(neighbors: &NeighborMap) -> (found: Option<(CordId, CordId)>)
    ensures
        match found {
            Some((host, next)) => first_host(neighbors@) == Some(host)
                && neighbors@[host].successor == Some(next),
            None => first_host(neighbors@) is None,
        },
{
    let keys = ordered_keys(neighbors);
    let mut i: usize = 0;
    while i < keys.len()
        invariant
            i <= keys@.len(),
            lists(keys@, neighbors@),
            forall|j: int| 0 <= j < i ==> !can_host(neighbors@, #[trigger] keys@[j]),
        decreases keys@.len() - i,
    {
        let k: CordId = keys[i];
        if let Some(info) = lookup(neighbors, k) {
            if !info.is_virtual {
                if let Some(next) = info.successor {
                    proof {
                        assert forall|j: CordId| #[trigger] can_host(neighbors@, j) implies k
                            <= j by {
                            let t = lemma_listed_at(keys@, neighbors@, j);
                            assert(keys@[t] == j);
                        }
                        lemma_first_host_is(neighbors@, k);
                    }
                    return Some((k, next));
                }
            }
        }
        assert(!can_host(neighbors@, keys@[i as int]));
        i = i + 1;
    }
    proof {
        assert forall|j: CordId| !#[trigger] can_host(neighbors@, j) by {
            if can_host(neighbors@, j) {
                let t = lemma_listed_at(keys@, neighbors@, j);
                assert(keys@[t] == j);
            }
        }
        lemma_first_host_none(neighbors@);
    }
    None
}

/// Decides how a node with these neighbors places itself.
pub fn negotiate(neighbors: &NeighborMap) -> (decision: Option<Placement>)
    ensures
        decision == placement(neighbors@),
{
    if let Some(first) = lookup(neighbors, START) {
        let candidate: CordId = match first.successor {
            None => END,
            Some(s) => if s == END {
                halfway(START, END)
            } else {
                halfway(s, START)
            },
        };
        return Some(Placement::AtStart { candidate });
    }
    if let Some(last) = lookup(neighbors, END) {
        let towards_start: bool = match last.successor {
            Some(s) => s == START,
            None => false,
        };
        let candidate: CordId = if towards_start {
            halfway(START, END)
        } else {
            match last.predecessor {
                Some(p) => halfway(p, END),
                None => START,
            }
        };
        return Some(Placement::AtEnd { candidate });
    }
    if let Some((upper, lower)) = find_linked(neighbors) {
        return Some(Placement::Between { upper, lower });
    }
    if let Some((host, next)) = find_host(neighbors) {
        return Some(Placement::BesideVirtual { host, virtual_position: halfway(host, next) });
    }
    None
}

} // verus!
