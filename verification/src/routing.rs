use crate::neighbors::{closest_neighbor, distance, is_closest_neighbor, next_hop};
use crate::packet::{meant_for, CordId, DataView, NeighborInfo, PacketView, Receiver};
use crate::vcp::{handled, VcpView};
use vstd::prelude::*;

verus! {

/// A hop never leads away from the target: the next hop is the node itself,
/// or a neighbor that is strictly closer to the target than the node and at
/// least as close as every other neighbor.
pub proof fn lemma_next_hop_closer(own: CordId, n: Map<CordId, NeighborInfo>, target: CordId)
    ensures
        next_hop(own, n, target) == own || (n.contains_key(next_hop(own, n, target)) && distance(
            next_hop(own, n, target),
            target,
        ) < distance(own, target)),
        forall|k: CordId| #[trigger]
            n.contains_key(k) ==> distance(next_hop(own, n, target), target) <= distance(k, target),
{
    match closest_neighbor(n, target) {
        Some(k) => {
            assert(is_closest_neighbor(n, target, k));
        },
        None => {
            assert forall|k: CordId| #[trigger] n.contains_key(k) implies false by {
                lemma_some_closest(n, target, k);
            }
        },
    }
}

/// Where a neighbor is known, a closest one exists.
pub proof fn lemma_some_closest(n: Map<CordId, NeighborInfo>, target: CordId, k: CordId)
    requires
        n.contains_key(k),
    ensures
        closest_neighbor(n, target) is Some,
{
    lemma_closest_within(n, target, k, distance(k, target) as nat, k as nat);
}

/// Below a known neighbor, in the order by distance and then by position,
/// stands a closest one.
pub proof fn lemma_closest_within(
    n: Map<CordId, NeighborInfo>,
    target: CordId,
    k: CordId,
    d: nat,
    at: nat,
)
    requires
        n.contains_key(k),
        d == distance(k, target),
        at == k,
    ensures
        exists|c: CordId| is_closest_neighbor(n, target, c),
    decreases d, at,
{
    if is_closest_neighbor(n, target, k) {
    } else {
        let j = choose|j: CordId| #[trigger]
            n.contains_key(j) && !(distance(k, target) < distance(j, target) || (distance(
                k,
                target,
            ) == distance(j, target) && k <= j));
        lemma_closest_within(n, target, j, distance(j, target) as nat, j as nat);
    }
}

/// What every node of a network knows: for each position a neighbor table.
pub type Tables = Map<CordId, Map<CordId, NeighborInfo>>;

/// The node at `c` knows a position above it that is no farther up than `g`.
pub open spec fn knows_up(tables: Tables, c: CordId, g: CordId) -> bool {
    exists|s: CordId| #[trigger] tables[c].contains_key(s) && c < s <= g
}

/// The node at `c` knows a position below it that is no farther down than
/// `g`.
pub open spec fn knows_down(tables: Tables, c: CordId, g: CordId) -> bool {
    exists|s: CordId| #[trigger] tables[c].contains_key(s) && g <= s < c
}

/// If the node at `c` knows the position `k`, a node of the chain stands
/// there.
pub open spec fn knows_chain_only(positions: Set<CordId>, tables: Tables, c: CordId, k: CordId) -> bool {
    tables[c].contains_key(k) ==> positions.contains(k)
}

/// The nodes at `positions` know their chain: each table holds positions
/// of the chain only; and a node with a position above it in the chain
/// knows one that is no farther up, likewise below.
pub open spec fn chain_known(positions: Set<CordId>, tables: Tables) -> bool {
    &&& forall|c: CordId, k: CordId|
        positions.contains(c) ==> #[trigger] knows_chain_only(positions, tables, c, k)
    &&& forall|c: CordId, g: CordId|
        positions.contains(c) && positions.contains(g) && g > c ==> #[trigger] knows_up(
            tables,
            c,
            g,
        )
    &&& forall|c: CordId, g: CordId|
        positions.contains(c) && positions.contains(g) && g < c ==> #[trigger] knows_down(
            tables,
            c,
            g,
        )
}

/// Where data for `target` stands after `hops` hops from the node at `at`.
pub open spec fn route(tables: Tables, at: CordId, target: CordId, hops: nat) -> CordId
    decreases hops,
{
    if hops == 0 {
        at
    } else {
        route(tables, next_hop(at, tables[at], target), target, (hops - 1) as nat)
    }
}

/// The node at `at` keeps data for `target`: it knows no position that is
/// strictly closer.
pub open spec fn keeps(tables: Tables, at: CordId, target: CordId) -> bool {
    next_hop(at, tables[at], target) == at
}

/// A node that knows its chain and keeps data for `target` is as close to
/// `target` as any node of the chain.
pub proof fn lemma_keeper_is_closest(
    positions: Set<CordId>,
    tables: Tables,
    at: CordId,
    target: CordId,
    other: CordId,
)
    requires
        chain_known(positions, tables),
        positions.contains(at),
        positions.contains(other),
        keeps(tables, at, target),
    ensures
        distance(at, target) <= distance(other, target),
{
    if distance(other, target) < distance(at, target) {
        let n = tables[at];
        let s = if other > at {
            assert(knows_up(tables, at, other));
            choose|s: CordId| #[trigger] tables[at].contains_key(s) && at < s <= other
        } else {
            assert(knows_down(tables, at, other));
            choose|s: CordId| #[trigger] tables[at].contains_key(s) && other <= s < at
        };
        assert(n.contains_key(s));
        assert(distance(s, target) < distance(at, target));
        lemma_some_closest(n, target, s);
        let k = closest_neighbor(n, target).unwrap();
        assert(is_closest_neighbor(n, target, k));
        assert(distance(k, target) <= distance(s, target));
    }
}

/// Greedy routing arrives. In a chain whose nodes know their chain
/// neighbors, data for `target` that sets out from any node stands, after
/// at most as many hops as that node is away from `target`, at a node that
/// keeps it; every hop before led strictly closer to `target`; and no node
/// of the chain is closer to `target` than the one that keeps the data.
pub proof fn lemma_greedy_routing_arrives(
    positions: Set<CordId>,
    tables: Tables,
    start: CordId,
    target: CordId,
) -> (hops: nat)
    requires
        chain_known(positions, tables),
        positions.contains(start),
    ensures
        hops <= distance(start, target),
        positions.contains(route(tables, start, target, hops)),
        keeps(tables, route(tables, start, target, hops), target),
        forall|other: CordId| #[trigger]
            positions.contains(other) ==> distance(route(tables, start, target, hops), target)
                <= distance(other, target),
        forall|h: nat|
            h < hops ==> distance(#[trigger] route(tables, start, target, h + 1), target)
                < distance(route(tables, start, target, h), target),
    decreases distance(start, target),
{
    if keeps(tables, start, target) {
        assert forall|other: CordId| #[trigger] positions.contains(other) implies distance(
            start,
            target,
        ) <= distance(other, target) by {
            lemma_keeper_is_closest(positions, tables, start, target, other);
        }
        0
    } else {
        let next = next_hop(start, tables[start], target);
        lemma_next_hop_closer(start, tables[start], target);
        assert(tables[start].contains_key(next));
        assert(knows_chain_only(positions, tables, start, next));
        let rest = lemma_greedy_routing_arrives(positions, tables, next, target);
        let hops = rest + 1;
        assert(route(tables, start, target, hops) == route(tables, next, target, rest));
        assert forall|h: nat| h < hops implies distance(
            #[trigger] route(tables, start, target, h + 1),
            target,
        ) < distance(route(tables, start, target, h), target) by {
            if h == 0 {
                assert(route(tables, start, target, 1) == route(tables, next, target, 0));
                assert(route(tables, next, target, 0) == next);
                assert(route(tables, start, target, 0) == start);
            } else {
                let before = (h - 1) as nat;
                assert(route(tables, start, target, h + 1) == route(
                    tables,
                    next,
                    target,
                    before + 1,
                ));
                assert(route(tables, start, target, h) == route(tables, next, target, before));
            }
        }
        hops
    }
}

/// Data moves closer or stays. A node that deals with data either keeps
/// it, which it does exactly if it knows no position that is strictly
/// closer to the destination than its own: then the data joins its store
/// and nothing is queued. Or it hands the data on: then exactly one packet
/// joins its queue, addressed to a neighbor that is strictly closer to the
/// destination, with the same destination and the same text, and nothing
/// is stored.
pub proof fn lemma_data_moves_closer(v: VcpView, p: PacketView)
    requires
        p.message is Text,
        meant_for(p.receiver, v.c_id),
        v.c_id is Some,
        p.final_cid is Some,
        p.sender_cid is Some,
    ensures
        ({
            let own = v.c_id.unwrap();
            let target = p.final_cid.unwrap();
            let hop = next_hop(own, v.neighbors, target);
            let after = handled(v, p);
            if hop == own {
                &&& after.outgoing_msgs == v.outgoing_msgs
                &&& after.data_storage == v.data_storage.push(
                    DataView { text: p.message->Text_0, sender_cid: p.sender_cid.unwrap() },
                )
            } else {
                &&& after.data_storage == v.data_storage
                &&& after.outgoing_msgs.len() == v.outgoing_msgs.len() + 1
                &&& after.outgoing_msgs.drop_last() == v.outgoing_msgs
                &&& after.outgoing_msgs.last().receiver == Receiver::Unicast(hop)
                &&& after.outgoing_msgs.last().final_cid == Some(target)
                &&& after.outgoing_msgs.last().message == p.message
                &&& after.outgoing_msgs.last().sender_cid == Some(own)
                &&& v.neighbors.contains_key(hop)
                &&& distance(hop, target) < distance(own, target)
            }
        }),
{
    let own = v.c_id.unwrap();
    let target = p.final_cid.unwrap();
    lemma_next_hop_closer(own, v.neighbors, target);
    let after = handled(v, p);
    if next_hop(own, v.neighbors, target) != own {
        assert(after.outgoing_msgs.drop_last() =~= v.outgoing_msgs);
    }
}

} // verus!
