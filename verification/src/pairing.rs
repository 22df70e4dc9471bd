use crate::convergence::{lemma_receive_plain, lemma_timer_plain, settled};
use crate::dummy::{
    all_ticked, delivered, deliveries, detours, detours_in, device_deliveries, direct, hears,
    in_reach, is_origin, listens, origin, reached, silenced, silent, spec_handle_messages,
    spec_send_text_data_from, ticked, DeliveryView, ManagerView,
};
use crate::isolation::lemma_in_reach_mutual;
use crate::neighbors::{closest_neighbor, distance, is_closest_neighbor, next_hop};
use crate::packet::{meant_for, CordId, DataView, MessageView, PacketView};
use crate::routing::lemma_next_hop_closer;
use crate::vcp::{data_from, handled, spec_send_text_data, VcpView};
use vstd::prelude::*;

verus! {

/// Two devices without virtual nodes, within reach of each other.
pub open spec fn plain_pair(m: ManagerView) -> bool {
    &&& m.devices.len() == 2
    &&& in_reach(m.devices[0].position, m.devices[1].position, m.range)
    &&& m.devices[0].vcp.virtual_nodes.len() == 0
    &&& m.devices[1].vcp.virtual_nodes.len() == 0
}

/// The deliveries of the first `k` packets of a queue to the one device
/// that can hear them: each packet that is meant for that device, in order.
pub open spec fn heard(queue: Seq<PacketView>, from: int, to: int, taker: VcpView, k: int) -> Seq<
    DeliveryView,
>
    decreases k,
{
    if k <= 0 {
        Seq::empty()
    } else if meant_for(queue[k - 1].receiver, taker.c_id) {
        heard(queue, from, to, taker, k - 1).push(
            DeliveryView { from, packet: queue[k - 1], to },
        )
    } else {
        heard(queue, from, to, taker, k - 1)
    }
}

/// Between two such devices a packet goes to the other device if it is
/// meant for it, and takes no detour.
pub proof fn lemma_plain_packet(m: ManagerView, s: int, p: PacketView)
    requires
        plain_pair(m),
        0 <= s < 2,
    ensures
        direct(m.devices, s, p, 2, m.range) == if meant_for(
            p.receiver,
            m.devices[1 - s].vcp.c_id,
        ) {
            seq![DeliveryView { from: s, packet: p, to: 1 - s }]
        } else {
            Seq::<DeliveryView>::empty()
        },
        detours(m.devices, s, p, 2) == Seq::<DeliveryView>::empty(),
{
    let devs = m.devices;
    reveal_with_fuel(direct, 3);
    reveal_with_fuel(detours, 3);
    lemma_in_reach_mutual(devs[0].position, devs[1].position, m.range);
    assert(listens(devs[1 - s].vcp, p) == meant_for(p.receiver, devs[1 - s].vcp.c_id));
    assert(hears(devs, s, p, 1 - s, m.range) == meant_for(p.receiver, devs[1 - s].vcp.c_id));
    assert(!hears(devs, s, p, s, m.range));
    assert(direct(devs, s, p, 0, m.range) =~= Seq::empty());
    assert(detours_in(devs, s, p, 0, 0) =~= Seq::empty());
    assert(detours_in(devs, s, p, 1, 0) =~= Seq::empty());
    assert(detours(devs, s, p, 2) =~= Seq::empty());
    if s == 0 {
        assert(direct(devs, s, p, 1, m.range) =~= Seq::empty());
        if hears(devs, s, p, 1, m.range) {
            assert(direct(devs, s, p, 2, m.range) =~= seq![
                DeliveryView { from: s, packet: p, to: 1 },
            ]);
        }
    } else {
        if hears(devs, s, p, 0, m.range) {
            assert(direct(devs, s, p, 1, m.range) =~= seq![
                DeliveryView { from: s, packet: p, to: 0 },
            ]);
            assert(direct(devs, s, p, 2, m.range) =~= seq![
                DeliveryView { from: s, packet: p, to: 0 },
            ]);
        } else {
            assert(direct(devs, s, p, 2, m.range) =~= Seq::empty());
        }
    }
}

/// Between two such devices the packets of a queue go to the other device.
pub proof fn lemma_plain_queue(m: ManagerView, s: int, k: int)
    requires
        plain_pair(m),
        0 <= s < 2,
        0 <= k <= m.devices[s].vcp.outgoing_msgs.len(),
    ensures
        device_deliveries(m.devices, s, k, m.range) == heard(
            m.devices[s].vcp.outgoing_msgs,
            s,
            1 - s,
            m.devices[1 - s].vcp,
            k,
        ),
    decreases k,
{
    if k > 0 {
        lemma_plain_queue(m, s, k - 1);
        let p = m.devices[s].vcp.outgoing_msgs[k - 1];
        lemma_plain_packet(m, s, p);
        let earlier = device_deliveries(m.devices, s, k - 1, m.range);
        let here = direct(m.devices, s, p, 2, m.range);
        assert(Seq::<DeliveryView>::empty() + here =~= here);
        assert(device_deliveries(m.devices, s, k, m.range) =~= earlier + here);
        assert(earlier + here =~= heard(
            m.devices[s].vcp.outgoing_msgs,
            s,
            1 - s,
            m.devices[1 - s].vcp,
            k,
        ));
    }
}

/// A round between two such devices delivers the packets of the first to
/// the second, then the packets of the second to the first.
pub proof fn lemma_plain_deliveries(m: ManagerView)
    requires
        plain_pair(m),
    ensures
        deliveries(m.devices, 2, m.range) == heard(
            m.devices[0].vcp.outgoing_msgs,
            0,
            1,
            m.devices[1].vcp,
            m.devices[0].vcp.outgoing_msgs.len() as int,
        ) + heard(
            m.devices[1].vcp.outgoing_msgs,
            1,
            0,
            m.devices[0].vcp,
            m.devices[1].vcp.outgoing_msgs.len() as int,
        ),
{
    reveal_with_fuel(deliveries, 3);
    lemma_plain_queue(m, 0, m.devices[0].vcp.outgoing_msgs.len() as int);
    lemma_plain_queue(m, 1, m.devices[1].vcp.outgoing_msgs.len() as int);
    let first = device_deliveries(m.devices, 0, m.devices[0].vcp.outgoing_msgs.len() as int, m.range);
    let second = device_deliveries(
        m.devices,
        1,
        m.devices[1].vcp.outgoing_msgs.len() as int,
        m.range,
    );
    assert(deliveries(m.devices, 0, m.range) =~= Seq::empty());
    assert(deliveries(m.devices, 1, m.range) =~= first);
    assert(deliveries(m.devices, 2, m.range) =~= first + second);
}

/// The device of a settled pair from which data for `from` sets out hands
/// data for `to` on only to the other device.
pub proof fn lemma_settled_hop(m: ManagerView, o: int, to: CordId)
    requires
        settled(m),
        0 <= o < 2,
    ensures
        ({
            let own = m.devices[o].vcp.c_id.unwrap();
            let hop = next_hop(own, m.devices[o].vcp.neighbors, to);
            hop == own || (hop == m.devices[1 - o].vcp.c_id.unwrap() && distance(hop, to)
                < distance(own, to))
        }),
{
    let own = m.devices[o].vcp.c_id.unwrap();
    lemma_next_hop_closer(own, m.devices[o].vcp.neighbors, to);
}

/// A device that knows only its own position and positions that are
/// farther from the target keeps data for the target.
pub proof fn lemma_keeps(v: VcpView, own: CordId, other: CordId, to: CordId)
    requires
        forall|k: CordId| #[trigger] v.neighbors.contains_key(k) ==> k == own || k == other,
        distance(own, to) < distance(other, to),
    ensures
        next_hop(own, v.neighbors, to) == own,
{
    match closest_neighbor(v.neighbors, to) {
        Some(k) => {
            assert(is_closest_neighbor(v.neighbors, to, k));
        },
        None => {},
    }
}

/// Data reaches the closer device of a settled pair. When the device of a
/// settled pair whose position is closest to `from` is asked to send
/// `text` to `to`, then either that device is itself as close to `to` as
/// it knows, and nothing happens; or the other device is strictly closer
/// to `to`, and after one round it holds the text in its store, with the
/// position of the sender, while the store of the sender is as it was.
pub proof fn lemma_pair_delivers(m: ManagerView, from: CordId, to: CordId, text: Seq<char>)
    requires
        settled(m),
    ensures
        origin(m.devices, from) is Some,
        ({
            let o = origin(m.devices, from).unwrap();
            let sender = m.devices[o].vcp;
            let taker = m.devices[1 - o].vcp;
            let asked = spec_send_text_data_from(m, from, to, text);
            let after = spec_handle_messages(asked);
            if next_hop(sender.c_id.unwrap(), sender.neighbors, to) == sender.c_id.unwrap() {
                asked == m
            } else {
                &&& 0 <= o < 2
                &&& distance(taker.c_id.unwrap(), to) < distance(sender.c_id.unwrap(), to)
                &&& after.devices.len() == 2
                &&& after.devices[1 - o].vcp.data_storage == taker.data_storage.push(
                    DataView { text, sender_cid: sender.c_id.unwrap() },
                )
                &&& after.devices[o].vcp.data_storage == sender.data_storage
            }
        }),
{
    let devs = m.devices;
    crate::simulator::lemma_some_origin(devs, from, 2);
    let o = origin(devs, from).unwrap();
    assert(is_origin(devs, from, o));
    let r = 1 - o;
    let sender = devs[o].vcp;
    let taker = devs[r].vcp;
    let own = sender.c_id.unwrap();
    let there = taker.c_id.unwrap();
    let asked = spec_send_text_data_from(m, from, to, text);
    lemma_settled_hop(m, o, to);
    if next_hop(own, sender.neighbors, to) == own {
        assert(asked.devices =~= devs);
    } else {
        let packet = data_from(sender, there, to, MessageView::Text(text));
        let sent = spec_send_text_data(sender, to, text);
        assert(sent.outgoing_msgs == sender.outgoing_msgs.push(packet));
        assert(asked.devices[o].vcp == sent);
        assert(asked.devices[r] == devs[r]);
        assert(plain_pair(asked));
        lemma_plain_deliveries(asked);
        let q_o = sent.outgoing_msgs;
        let q_r = taker.outgoing_msgs;
        assert(q_o.len() == 2);
        assert(q_o[0] == sender.outgoing_msgs[0]);
        assert(q_o[1] == packet);
        let beacon_o = q_o[0];
        let beacon_r = q_r[0];
        reveal_with_fuel(heard, 3);
        let from_o = heard(q_o, o, r, asked.devices[r].vcp, 2);
        let from_r = heard(q_r, r, o, asked.devices[o].vcp, 1);
        assert(from_o =~= seq![
            DeliveryView { from: o, packet: beacon_o, to: r },
            DeliveryView { from: o, packet: packet, to: r },
        ]);
        assert(from_r =~= seq![DeliveryView { from: r, packet: beacon_r, to: o }]);
        let sends = deliveries(asked.devices, 2, asked.range);
        let quiet = silenced(asked.devices);
        assert(quiet[0] == silent(asked.devices[0]));
        assert(quiet[1] == silent(asked.devices[1]));
        reveal_with_fuel(delivered, 4);
        let met = delivered(quiet, sends, sends.len() as int);
        lemma_receive_plain(quiet[r].vcp, beacon_o);
        let greeted = handled(quiet[r].vcp, beacon_o);
        lemma_receive_plain(greeted, packet);
        lemma_receive_plain(quiet[o].vcp, beacon_r);
        assert forall|k: CordId| #[trigger] greeted.neighbors.contains_key(k) implies k == there
            || k == own by {
            assert(k == own || taker.neighbors.contains_key(k));
        }
        lemma_keeps(greeted, there, own, to);
        let kept = handled(greeted, packet);
        assert(kept.data_storage == taker.data_storage.push(
            DataView { text, sender_cid: own },
        ));
        assert(delivered(quiet, sends, 0) == quiet);
        if o == 0 {
            assert(sends =~= from_o + from_r);
            assert(sends[0] == from_o[0]);
            assert(sends[1] == from_o[1]);
            assert(sends[2] == from_r[0]);
            let one = delivered(quiet, sends, 1);
            assert(one =~= quiet.update(1, reached(quiet[1], beacon_o)));
            let two = delivered(quiet, sends, 2);
            assert(two =~= one.update(1, reached(one[1], packet)));
            assert(met =~= two.update(0, reached(two[0], beacon_r)));
        } else {
            assert(sends =~= from_r + from_o);
            assert(sends[0] == from_r[0]);
            assert(sends[1] == from_o[0]);
            assert(sends[2] == from_o[1]);
            let one = delivered(quiet, sends, 1);
            assert(one =~= quiet.update(1, reached(quiet[1], beacon_r)));
            let two = delivered(quiet, sends, 2);
            assert(two =~= one.update(0, reached(one[0], beacon_o)));
            assert(met =~= two.update(0, reached(two[0], packet)));
        }
        assert(met[r].vcp == kept);
        assert(met[o].vcp == handled(quiet[o].vcp, beacon_r));
        assert(met[r].vcp.virtual_nodes.len() == 0);
        assert(met[o].vcp.virtual_nodes.len() == 0);
        lemma_timer_plain(met[r].vcp);
        lemma_timer_plain(met[o].vcp);
        let done = all_ticked(met);
        assert(done[0] == ticked(met[0]));
        assert(done[1] == ticked(met[1]));
    }
}

} // verus!
