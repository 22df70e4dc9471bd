use crate::consistency::{
    below_stations, consistent, engine_stations, heads, known, predecessor_resolves, station_of,
    stations, successor_resolves, tails,
};
use crate::dummy::{
    all_ticked, delivered, deliveries, device_deliveries, direct, hears, in_reach, listens,
    newcomer, reached, silenced, silent, spec_add_device, spec_handle_messages, spec_rounds,
    ticked, DeliveryView, ManagerView,
};
use crate::isolation::lemma_in_reach_mutual;
use crate::negotiation::{placement, start_candidate, Placement};
use crate::neighbors::{
    aged, is_predecessor_of, is_successor_of, lemma_predecessor_is, lemma_predecessor_none,
    lemma_successor_is, lemma_successor_none,
};
use crate::packet::{meant_for, CordId, MessageView, PacketView, Receiver, END, START};
use crate::vcp::{
    collected, drained, fresh, handled, queued, received_below, spec_receive, spec_timer_call,
    ticked_alone, ticked_below, VcpView,
};
use vstd::prelude::*;

verus! {

/// A node without virtual nodes takes a packet by itself.
pub proof fn lemma_receive_plain(v: VcpView, p: PacketView)
    requires
        v.virtual_nodes.len() == 0,
    ensures
        spec_receive(v, p) == if meant_for(p.receiver, v.c_id) {
            handled(v, p)
        } else {
            v
        },
{
    assert(received_below(v, p) =~= v.virtual_nodes);
}

/// A node without virtual nodes ticks by itself.
pub proof fn lemma_timer_plain(v: VcpView)
    requires
        v.virtual_nodes.len() == 0,
    ensures
        spec_timer_call(v) == ticked_alone(v),
{
    let own = ticked_alone(v);
    let below = ticked_below(v);
    assert(below =~= Seq::empty());
    assert(collected(below) =~= Seq::empty());
    assert(own.outgoing_msgs + collected(below) =~= own.outgoing_msgs);
    assert(own.virtual_nodes == v.virtual_nodes);
    assert(drained(below) =~= own.virtual_nodes);
}

/// The delivery of the only packet of a queue, if the other device is to
/// get it.
pub open spec fn sole_delivery(queue: Seq<PacketView>, from: int, to: int, taker: VcpView) -> Seq<DeliveryView> {
    if queue.len() == 1 && meant_for(queue[0].receiver, taker.c_id) {
        seq![DeliveryView { from, packet: queue[0], to }]
    } else {
        Seq::empty()
    }
}

/// Two devices without virtual nodes, within reach of each other, each
/// with at most one packet queued, none of them data.
pub open spec fn simple_pair(m: ManagerView) -> bool {
    &&& m.devices.len() == 2
    &&& in_reach(m.devices[0].position, m.devices[1].position, m.range)
    &&& m.devices[0].vcp.virtual_nodes.len() == 0
    &&& m.devices[1].vcp.virtual_nodes.len() == 0
    &&& m.devices[0].vcp.outgoing_msgs.len() <= 1
    &&& m.devices[1].vcp.outgoing_msgs.len() <= 1
    &&& forall|i: int, k: int|
        0 <= i < 2 && 0 <= k < m.devices[i].vcp.outgoing_msgs.len() ==> !(
        #[trigger] m.devices[i].vcp.outgoing_msgs[k]).is_data()
}

/// The direct deliveries of a packet between two such devices.
pub proof fn lemma_pair_direct(m: ManagerView, s: int, p: PacketView)
    requires
        simple_pair(m),
        0 <= s < 2,
    ensures
        direct(m.devices, s, p, 2, m.range) == if meant_for(
            p.receiver,
            m.devices[1 - s].vcp.c_id,
        ) {
            seq![DeliveryView { from: s, packet: p, to: 1 - s }]
        } else {
            Seq::<DeliveryView>::empty()
        },
{
    let devs = m.devices;
    reveal_with_fuel(direct, 3);
    lemma_in_reach_mutual(devs[0].position, devs[1].position, m.range);
    assert(listens(devs[1 - s].vcp, p) == meant_for(p.receiver, devs[1 - s].vcp.c_id));
    assert(hears(devs, s, p, 1 - s, m.range) == meant_for(p.receiver, devs[1 - s].vcp.c_id));
    assert(!hears(devs, s, p, s, m.range));
    assert(direct(devs, s, p, 0, m.range) =~= Seq::empty());
    if s == 0 {
        assert(direct(devs, s, p, 1, m.range) =~= Seq::empty());
        if hears(devs, s, p, 1, m.range) {
            assert(direct(devs, s, p, 2, m.range) =~= seq![
                DeliveryView { from: s, packet: p, to: 1 },
            ]);
        }
    } else {
        if hears(devs, s, p, 0, m.range) {
            assert(direct(devs, s, p, 1, m.range) =~= seq![
                DeliveryView { from: s, packet: p, to: 0 },
            ]);
            assert(direct(devs, s, p, 2, m.range) =~= seq![
                DeliveryView { from: s, packet: p, to: 0 },
            ]);
        } else {
            assert(direct(devs, s, p, 2, m.range) =~= Seq::empty());
        }
    }
}

/// The deliveries of a round between two such devices: the packet of the
/// first, then the packet of the second, each if the other is to get it.
pub proof fn lemma_pair_deliveries(m: ManagerView)
    requires
        simple_pair(m),
    ensures
        deliveries(m.devices, 2, m.range) == sole_delivery(
            m.devices[0].vcp.outgoing_msgs,
            0,
            1,
            m.devices[1].vcp,
        ) + sole_delivery(m.devices[1].vcp.outgoing_msgs, 1, 0, m.devices[0].vcp),
{
    let devs = m.devices;
    reveal_with_fuel(deliveries, 3);
    reveal_with_fuel(device_deliveries, 2);
    let q0 = devs[0].vcp.outgoing_msgs;
    let q1 = devs[1].vcp.outgoing_msgs;
    let first = device_deliveries(devs, 0, q0.len() as int, m.range);
    let second = device_deliveries(devs, 1, q1.len() as int, m.range);
    if q0.len() == 1 {
        lemma_pair_direct(m, 0, q0[0]);
        assert(!q0[0].is_data());
        assert(first =~= sole_delivery(q0, 0, 1, devs[1].vcp));
    } else {
        assert(first =~= sole_delivery(q0, 0, 1, devs[1].vcp));
    }
    if q1.len() == 1 {
        lemma_pair_direct(m, 1, q1[0]);
        assert(!q1[0].is_data());
        assert(second =~= sole_delivery(q1, 1, 0, devs[0].vcp));
    } else {
        assert(second =~= sole_delivery(q1, 1, 0, devs[0].vcp));
    }
    assert(deliveries(devs, 0, m.range) =~= Seq::empty());
    assert(deliveries(devs, 1, m.range) =~= first);
    assert(deliveries(devs, 2, m.range) =~= first + second);
}

/// The engine after it took the only packet of the other's queue, if it is
/// to get it.
pub open spec fn met(v: VcpView, queue: Seq<PacketView>) -> VcpView {
    let quiet = VcpView { outgoing_msgs: Seq::empty(), ..v };
    if queue.len() == 1 && meant_for(queue[0].receiver, v.c_id) {
        handled(quiet, queue[0])
    } else {
        quiet
    }
}

/// A round between two such devices: each takes the packet of the other,
/// then ticks.
pub proof fn lemma_pair_round(m: ManagerView)
    requires
        simple_pair(m),
        forall|k: int|
            0 <= k < m.devices[0].vcp.outgoing_msgs.len() ==> !(
            #[trigger] m.devices[0].vcp.outgoing_msgs[k].message is CreateVirtualNode),
        forall|k: int|
            0 <= k < m.devices[1].vcp.outgoing_msgs.len() ==> !(
            #[trigger] m.devices[1].vcp.outgoing_msgs[k].message is CreateVirtualNode),
    ensures
        spec_handle_messages(m).devices.len() == 2,
        spec_handle_messages(m).range == m.range,
        spec_handle_messages(m).devices[0].position == m.devices[0].position,
        spec_handle_messages(m).devices[1].position == m.devices[1].position,
        spec_handle_messages(m).devices[0].vcp == ticked_alone(
            met(m.devices[0].vcp, m.devices[1].vcp.outgoing_msgs),
        ),
        spec_handle_messages(m).devices[1].vcp == ticked_alone(
            met(m.devices[1].vcp, m.devices[0].vcp.outgoing_msgs),
        ),
{
    let devs = m.devices;
    let q0 = devs[0].vcp.outgoing_msgs;
    let q1 = devs[1].vcp.outgoing_msgs;
    lemma_pair_deliveries(m);
    let sends = deliveries(devs, 2, m.range);
    let a = sole_delivery(q0, 0, 1, devs[1].vcp);
    let b = sole_delivery(q1, 1, 0, devs[0].vcp);
    assert(sends == a + b);
    let quiet = silenced(devs);
    assert(quiet.len() == 2);
    assert(quiet[0] == silent(devs[0]));
    assert(quiet[1] == silent(devs[1]));
    reveal_with_fuel(delivered, 3);
    let after = delivered(quiet, sends, sends.len() as int);
    lemma_receive_plain(quiet[1].vcp, if q0.len() == 1 {
        q0[0]
    } else {
        arbitrary()
    });
    lemma_receive_plain(quiet[0].vcp, if q1.len() == 1 {
        q1[0]
    } else {
        arbitrary()
    });
    assert(delivered(quiet, sends, 0) == quiet);
    if a.len() == 1 {
        assert(sends[0] == a[0]);
        let one = delivered(quiet, sends, 1);
        assert(one =~= quiet.update(1, reached(quiet[1], q0[0])));
        if b.len() == 1 {
            assert(sends[1] == b[0]);
            assert(after =~= one.update(0, reached(one[0], q1[0])));
        } else {
            assert(sends.len() == 1);
        }
    } else {
        if b.len() == 1 {
            assert(sends[0] == b[0]);
            assert(after =~= quiet.update(0, reached(quiet[0], q1[0])));
        } else {
            assert(sends.len() == 0);
        }
    }
    assert(after.len() == 2);
    assert(after[0].vcp == met(devs[0].vcp, q1));
    assert(after[1].vcp == met(devs[1].vcp, q0));
    assert(after[0].vcp.virtual_nodes.len() == 0);
    assert(after[1].vcp.virtual_nodes.len() == 0);
    lemma_timer_plain(after[0].vcp);
    lemma_timer_plain(after[1].vcp);
    let done = all_ticked(after);
    assert(done[0] == ticked(after[0]));
    assert(done[1] == ticked(after[1]));
}

/// The only packet in the queue of the node is a beacon from `at`.
pub open spec fn beacon_queued(v: VcpView, at: CordId) -> bool {
    &&& v.outgoing_msgs.len() == 1
    &&& v.outgoing_msgs[0].receiver is Broadcast
    &&& v.outgoing_msgs[0].message is Hello
    &&& v.outgoing_msgs[0].sender_cid == Some(at)
}

/// The node knows no neighbor.
pub open spec fn knows_nobody(v: VcpView) -> bool {
    forall|k: CordId| !#[trigger] v.neighbors.contains_key(k)
}

/// Two devices right after they joined an empty network, within reach of
/// each other: the first stands at [`START`] and has queued its first
/// beacon; the second has no position yet.
pub open spec fn joined(m: ManagerView) -> bool {
    &&& simple_pair(m)
    &&& m.devices[0].vcp.c_id == Some(START)
    &&& beacon_queued(m.devices[0].vcp, START)
    &&& m.devices[0].vcp.outgoing_msgs[0].message->Hello_0.successor is None
    &&& m.devices[0].vcp.predecessor is None
    &&& m.devices[0].vcp.successor is None
    &&& knows_nobody(m.devices[0].vcp)
    &&& m.devices[1].vcp.c_id is None
    &&& m.devices[1].vcp.outgoing_msgs.len() == 0
    &&& m.devices[1].vcp.ticks == 1
    &&& knows_nobody(m.devices[1].vcp)
}

/// The second device has taken [`START`] and orders the first to [`END`].
pub open spec fn claimed(m: ManagerView) -> bool {
    &&& simple_pair(m)
    &&& m.devices[0].vcp.c_id == Some(START)
    &&& beacon_queued(m.devices[0].vcp, START)
    &&& knows_nobody(m.devices[0].vcp)
    &&& m.devices[1].vcp.c_id == Some(START)
    &&& m.devices[1].vcp.outgoing_msgs.len() == 1
    &&& m.devices[1].vcp.outgoing_msgs[0].receiver == Receiver::Unicast(START)
    &&& m.devices[1].vcp.outgoing_msgs[0].sender_cid == Some(START)
    &&& m.devices[1].vcp.outgoing_msgs[0].message == (MessageView::SendUpdatePredecessor {
        new_position: END,
    })
    &&& forall|k: CordId| #[trigger] m.devices[1].vcp.neighbors.contains_key(k) ==> k == START
}

/// The first device stands at [`END`], the second at [`START`], and each
/// announces itself.
pub open spec fn paired(m: ManagerView) -> bool {
    &&& simple_pair(m)
    &&& m.devices[0].vcp.c_id == Some(END)
    &&& beacon_queued(m.devices[0].vcp, END)
    &&& forall|k: CordId| #[trigger] m.devices[0].vcp.neighbors.contains_key(k) ==> k == START
    &&& m.devices[1].vcp.c_id == Some(START)
    &&& beacon_queued(m.devices[1].vcp, START)
    &&& forall|k: CordId|
        #[trigger] m.devices[1].vcp.neighbors.contains_key(k) ==> k == START || k == END
}

/// The two devices form a chain: the first stands at [`END`] with the
/// second as its predecessor, the second at [`START`] with the first as its
/// successor, and each knows the other.
pub open spec fn settled(m: ManagerView) -> bool {
    &&& paired(m)
    &&& m.devices[0].vcp.neighbors.contains_key(START)
    &&& m.devices[0].vcp.predecessor == Some(START)
    &&& m.devices[0].vcp.successor is None
    &&& m.devices[1].vcp.neighbors.contains_key(END)
    &&& m.devices[1].vcp.successor == Some(END)
    &&& m.devices[1].vcp.predecessor is None
}

/// Two devices that join an empty network within reach of each other.
pub proof fn lemma_join(m: ManagerView, first: (i32, i32), second: (i32, i32))
    requires
        m.devices.len() == 0,
        in_reach(first, second, m.range),
    ensures
        joined(spec_add_device(spec_add_device(m, first), second)),
        spec_add_device(spec_add_device(m, first), second).range == m.range,
        spec_add_device(spec_add_device(m, first), second).devices[0].position == first,
        spec_add_device(spec_add_device(m, first), second).devices[1].position == second,
{
    let one = spec_add_device(m, first);
    let two = spec_add_device(one, second);
    let seed0 = VcpView { debug_name: "Dev: "@ + crate::text::decimal(0), ..fresh(true) };
    let seed1 = VcpView { debug_name: "Dev: "@ + crate::text::decimal(1), ..fresh(false) };
    lemma_timer_plain(seed0);
    lemma_timer_plain(seed1);
    assert(one.devices.len() == 1);
    assert(two.devices[0] == newcomer(0, first));
    assert(two.devices[1] == newcomer(1, second));
    let d0 = two.devices[0].vcp;
    let d1 = two.devices[1].vcp;
    assert(d0 == ticked_alone(seed0));
    assert(d1 == ticked_alone(seed1));
    lemma_successor_none(aged(seed0.neighbors), START);
    lemma_predecessor_none(aged(seed0.neighbors), START);
}

/// The first round: the second device hears the first at [`START`] and
/// claims that position.
pub proof fn lemma_first_round(m: ManagerView)
    requires
        joined(m),
    ensures
        claimed(spec_handle_messages(m)),
        spec_handle_messages(m).devices[0].position == m.devices[0].position,
        spec_handle_messages(m).devices[1].position == m.devices[1].position,
        spec_handle_messages(m).range == m.range,
{
    lemma_pair_round(m);
    let after = spec_handle_messages(m);
    let q0 = m.devices[0].vcp.outgoing_msgs;
    let q1 = m.devices[1].vcp.outgoing_msgs;
    let a0 = met(m.devices[0].vcp, q1);
    let a1 = met(m.devices[1].vcp, q0);
    assert(a1.neighbors.contains_key(START));
    let heard = a1.neighbors[START];
    assert(heard.successor is None);
    assert(start_candidate(heard) == END);
    let woken = VcpView { ticks: (a1.ticks + 1) as u64, ..a1 };
    assert(placement(woken.neighbors) == Some(Placement::AtStart { candidate: END }));
    assert(after.devices[1].vcp == ticked_alone(a1));
    assert(after.devices[0].vcp == ticked_alone(a0));
    assert(after.devices[1].vcp.outgoing_msgs.len() == 1);
}

/// The second round: the first device obeys and moves to [`END`].
pub proof fn lemma_second_round(m: ManagerView)
    requires
        claimed(m),
    ensures
        paired(spec_handle_messages(m)),
        spec_handle_messages(m).devices[0].position == m.devices[0].position,
        spec_handle_messages(m).devices[1].position == m.devices[1].position,
        spec_handle_messages(m).range == m.range,
{
    lemma_pair_round(m);
    let after = spec_handle_messages(m);
    let q0 = m.devices[0].vcp.outgoing_msgs;
    let q1 = m.devices[1].vcp.outgoing_msgs;
    let a0 = met(m.devices[0].vcp, q1);
    let a1 = met(m.devices[1].vcp, q0);
    assert(a0.c_id == Some(END));
    assert(a1.c_id == Some(START));
    assert(after.devices[1].vcp == ticked_alone(a1));
    assert(after.devices[0].vcp == ticked_alone(a0));
    assert(after.devices[0].vcp.outgoing_msgs.len() == 1);
    assert(after.devices[1].vcp.outgoing_msgs.len() == 1);
}

/// Every later round: the two devices hear each other and derive their
/// links.
pub proof fn lemma_later_round(m: ManagerView)
    requires
        paired(m),
    ensures
        settled(spec_handle_messages(m)),
        spec_handle_messages(m).devices[0].position == m.devices[0].position,
        spec_handle_messages(m).devices[1].position == m.devices[1].position,
        spec_handle_messages(m).range == m.range,
{
    lemma_pair_round(m);
    let after = spec_handle_messages(m);
    let q0 = m.devices[0].vcp.outgoing_msgs;
    let q1 = m.devices[1].vcp.outgoing_msgs;
    let a0 = met(m.devices[0].vcp, q1);
    let a1 = met(m.devices[1].vcp, q0);
    assert(a0.neighbors.contains_key(START));
    assert(a1.neighbors.contains_key(END));
    let n0 = aged(a0.neighbors);
    let n1 = aged(a1.neighbors);
    assert(n0.contains_key(START));
    assert(n1.contains_key(END));
    assert(is_predecessor_of(n0, END, START));
    lemma_predecessor_is(n0, END, START);
    lemma_successor_none(n0, END);
    assert(is_successor_of(n1, START, END));
    lemma_successor_is(n1, START, END);
    lemma_predecessor_none(n1, START);
    assert(after.devices[1].vcp == ticked_alone(a1));
    assert(after.devices[0].vcp == ticked_alone(a0));
    assert(after.devices[0].vcp.outgoing_msgs.len() == 1);
    assert(after.devices[1].vcp.outgoing_msgs.len() == 1);
}

/// Two settled devices form a consistent network.
pub proof fn lemma_settled_is_consistent(m: ManagerView)
    requires
        settled(m),
    ensures
        consistent(stations(m.devices, 2)),
{
    reveal_with_fuel(stations, 3);
    reveal_with_fuel(tails, 3);
    reveal_with_fuel(heads, 3);
    let row = stations(m.devices, 2);
    let s0 = station_of(m.devices[0].vcp);
    let s1 = station_of(m.devices[1].vcp);
    assert(below_stations(m.devices[0].vcp, 0) =~= Seq::empty());
    assert(below_stations(m.devices[1].vcp, 0) =~= Seq::empty());
    assert(engine_stations(m.devices[0].vcp) =~= seq![s0]);
    assert(engine_stations(m.devices[1].vcp) =~= seq![s1]);
    assert(stations(m.devices, 0) =~= Seq::empty());
    assert(stations(m.devices, 1) =~= seq![s0]);
    assert(row =~= seq![s0, s1]);
    assert(row[0] == s0);
    assert(row[1] == s1);
    assert(known(row, START));
    assert(known(row, END));
    assert(successor_resolves(row, 0) && predecessor_resolves(row, 0));
    assert(successor_resolves(row, 1) && predecessor_resolves(row, 1));
}

/// Two devices converge. When two devices join an empty network within
/// reach of each other, then after three rounds, and after every round
/// from then on, they form a chain over the whole space: the device that
/// joined first stands at [`END`], the device that joined second stands at
/// [`START`] and has the first as its successor, and the network is
/// consistent.
pub proof fn lemma_two_devices_converge(
    m: ManagerView,
    first: (i32, i32),
    second: (i32, i32),
    n: nat,
)
    requires
        m.devices.len() == 0,
        in_reach(first, second, m.range),
        n >= 3,
    ensures
        settled(spec_rounds(spec_add_device(spec_add_device(m, first), second), n)),
        consistent(
            stations(spec_rounds(spec_add_device(spec_add_device(m, first), second), n).devices, 2),
        ),
    decreases n,
{
    let start = spec_add_device(spec_add_device(m, first), second);
    if n == 3 {
        reveal_with_fuel(spec_rounds, 4);
        lemma_join(m, first, second);
        lemma_first_round(start);
        let one = spec_handle_messages(start);
        lemma_second_round(one);
        let two = spec_handle_messages(one);
        lemma_later_round(two);
        assert(spec_rounds(start, 0) == start);
        assert(spec_rounds(start, 1) == one);
        assert(spec_rounds(start, 2) == two);
    } else {
        lemma_two_devices_converge(m, first, second, (n - 1) as nat);
        lemma_later_round(spec_rounds(start, (n - 1) as nat));
    }
    lemma_settled_is_consistent(spec_rounds(start, n));
}

} // verus!
