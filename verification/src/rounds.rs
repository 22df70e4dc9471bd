use crate::dummy::{
    all_clocks_below, all_ticked, all_well_formed, delivered, deliveries, detours, detours_in,
    device_deliveries, direct, newcomer, packet_deliveries, silenced, spec_add_device,
    spec_handle_messages, spec_rounds, spec_send_text_data_from, origin, is_origin, DeliveryView,
    DeviceView, ManagerView,
};
use crate::invariants::{
    lemma_receive_clock, lemma_receive_well_formed, lemma_send_text_data_well_formed,
    lemma_timer_call_clock, lemma_timer_call_well_formed, queue_sound, well_formed,
};
use crate::packet::PacketView;
use crate::simulator::deliverable;
use crate::vcp::{clock_below, fresh, VcpView};
use vstd::prelude::*;

verus! {

/// Two deliverable lists, one after the other, are deliverable.
pub proof fn lemma_deliverable_add(front: Seq<DeliveryView>, back: Seq<DeliveryView>, count: int)
    requires
        deliverable(front, count),
        deliverable(back, count),
    ensures
        deliverable(front + back, count),
{
    let all = front + back;
    assert forall|i: int| 0 <= i < all.len() implies 0 <= (#[trigger] all[i]).to < count
        && all[i].packet.sendable() by {
        if i < front.len() {
            assert(all[i] == front[i]);
        } else {
            assert(all[i] == back[i - front.len()]);
        }
    }
}

/// A deliverable list with one deliverable entry more is deliverable.
pub proof fn lemma_deliverable_push(front: Seq<DeliveryView>, d: DeliveryView, count: int)
    requires
        deliverable(front, count),
        0 <= d.to < count,
        d.packet.sendable(),
    ensures
        deliverable(front.push(d), count),
{
    let all = front.push(d);
    assert forall|i: int| 0 <= i < all.len() implies 0 <= (#[trigger] all[i]).to < count
        && all[i].packet.sendable() by {
        if i < front.len() {
            assert(all[i] == front[i]);
        }
    }
}

/// The detours of a sendable packet can be delivered.
pub proof fn lemma_detours_in_deliverable(
    devices: Seq<DeviceView>,
    s: int,
    p: PacketView,
    r: int,
    k: int,
)
    requires
        0 <= r < devices.len(),
        p.sendable(),
    ensures
        deliverable(detours_in(devices, s, p, r, k), devices.len() as int),
    decreases k,
{
    if k > 0 {
        lemma_detours_in_deliverable(devices, s, p, r, k - 1);
        let earlier = detours_in(devices, s, p, r, k - 1);
        let d = DeliveryView {
            from: s,
            packet: p.readdressed(devices[r].vcp.c_id.unwrap()),
            to: r,
        };
        lemma_deliverable_push(earlier, d, devices.len() as int);
    }
}

/// The detours of a sendable packet can be delivered.
pub proof fn lemma_detours_deliverable(devices: Seq<DeviceView>, s: int, p: PacketView, n: int)
    requires
        n <= devices.len(),
        p.sendable(),
    ensures
        deliverable(detours(devices, s, p, n), devices.len() as int),
    decreases n,
{
    if n > 0 {
        lemma_detours_deliverable(devices, s, p, n - 1);
        lemma_detours_in_deliverable(
            devices,
            s,
            p,
            n - 1,
            devices[n - 1].vcp.virtual_nodes.len() as int,
        );
        lemma_deliverable_add(
            detours(devices, s, p, n - 1),
            detours_in(devices, s, p, n - 1, devices[n - 1].vcp.virtual_nodes.len() as int),
            devices.len() as int,
        );
    }
}

/// The direct deliveries of a sendable packet can be delivered.
pub proof fn lemma_direct_deliverable(
    devices: Seq<DeviceView>,
    s: int,
    p: PacketView,
    n: int,
    range: i32,
)
    requires
        n <= devices.len(),
        p.sendable(),
    ensures
        deliverable(direct(devices, s, p, n, range), devices.len() as int),
    decreases n,
{
    if n > 0 {
        lemma_direct_deliverable(devices, s, p, n - 1, range);
        lemma_deliverable_push(
            direct(devices, s, p, n - 1, range),
            DeliveryView { from: s, packet: p, to: n - 1 },
            devices.len() as int,
        );
    }
}

/// The deliveries of the packets of a sound queue can be delivered.
pub proof fn lemma_device_deliveries_deliverable(
    devices: Seq<DeviceView>,
    s: int,
    k: int,
    range: i32,
)
    requires
        0 <= s < devices.len(),
        k <= devices[s].vcp.outgoing_msgs.len(),
        queue_sound(devices[s].vcp.outgoing_msgs),
    ensures
        deliverable(device_deliveries(devices, s, k, range), devices.len() as int),
    decreases k,
{
    if k > 0 {
        lemma_device_deliveries_deliverable(devices, s, k - 1, range);
        let p = devices[s].vcp.outgoing_msgs[k - 1];
        assert(p.sendable());
        lemma_detours_deliverable(devices, s, p, devices.len() as int);
        lemma_direct_deliverable(devices, s, p, devices.len() as int, range);
        lemma_deliverable_add(
            detours(devices, s, p, devices.len() as int),
            direct(devices, s, p, devices.len() as int, range),
            devices.len() as int,
        );
        lemma_deliverable_add(
            device_deliveries(devices, s, k - 1, range),
            packet_deliveries(devices, s, p, range),
            devices.len() as int,
        );
    }
}

/// The deliveries of a round among well-formed engines can be delivered.
pub proof fn lemma_deliveries_deliverable(devices: Seq<DeviceView>, n: int, range: i32)
    requires
        n <= devices.len(),
        all_well_formed(devices),
    ensures
        deliverable(deliveries(devices, n, range), devices.len() as int),
    decreases n,
{
    if n > 0 {
        lemma_deliveries_deliverable(devices, n - 1, range);
        assert(well_formed(devices[n - 1].vcp));
        lemma_device_deliveries_deliverable(
            devices,
            n - 1,
            devices[n - 1].vcp.outgoing_msgs.len() as int,
            range,
        );
        lemma_deliverable_add(
            deliveries(devices, n - 1, range),
            device_deliveries(devices, n - 1, devices[n - 1].vcp.outgoing_msgs.len() as int, range),
            devices.len() as int,
        );
    }
}

/// Emptying the queues keeps engines well-formed and clocks where they are.
pub proof fn lemma_silenced(devices: Seq<DeviceView>, limit: int)
    requires
        all_well_formed(devices),
        all_clocks_below(devices, limit),
    ensures
        all_well_formed(silenced(devices)),
        all_clocks_below(silenced(devices), limit),
{
    let quiet = silenced(devices);
    assert forall|i: int| 0 <= i < quiet.len() implies well_formed((#[trigger] quiet[i]).vcp)
        && clock_below(quiet[i].vcp, limit) by {
        let before = devices[i].vcp;
        let after = quiet[i].vcp;
        assert(well_formed(before));
        assert(clock_below(before, limit));
        assert forall|j: int| 0 <= j < after.virtual_nodes.len() implies well_formed(
            #[trigger] after.virtual_nodes[j],
        ) && clock_below(after.virtual_nodes[j], limit) by {
            assert(well_formed(before.virtual_nodes[j]));
            assert(clock_below(before.virtual_nodes[j], limit));
        }
    }
}

/// Making deliverable deliveries keeps the number of devices, keeps engines
/// well-formed and clocks under the limit.
pub proof fn lemma_delivered(devices: Seq<DeviceView>, sends: Seq<DeliveryView>, n: int, limit: int)
    requires
        all_well_formed(devices),
        all_clocks_below(devices, limit),
        limit >= 1,
        deliverable(sends, devices.len() as int),
        n <= sends.len(),
    ensures
        delivered(devices, sends, n).len() == devices.len(),
        all_well_formed(delivered(devices, sends, n)),
        all_clocks_below(delivered(devices, sends, n), limit),
    decreases n,
{
    if n > 0 {
        lemma_delivered(devices, sends, n - 1, limit);
        let before = delivered(devices, sends, n - 1);
        let d = sends[n - 1];
        let after = delivered(devices, sends, n);
        assert(0 <= d.to < devices.len() && d.packet.sendable());
        assert(well_formed(before[d.to].vcp));
        assert(clock_below(before[d.to].vcp, limit));
        lemma_receive_well_formed(before[d.to].vcp, d.packet);
        lemma_receive_clock(before[d.to].vcp, d.packet, limit);
        assert forall|i: int| 0 <= i < after.len() implies well_formed((#[trigger] after[i]).vcp)
            && clock_below(after[i].vcp, limit) by {
            if i != d.to {
                assert(after[i] == before[i]);
            }
        }
    }
}

/// A tick of every device keeps engines well-formed and advances every
/// clock by one.
pub proof fn lemma_all_ticked(devices: Seq<DeviceView>, limit: int)
    requires
        all_well_formed(devices),
        all_clocks_below(devices, limit),
        limit <= u64::MAX,
    ensures
        all_well_formed(all_ticked(devices)),
        all_clocks_below(all_ticked(devices), limit + 1),
{
    let after = all_ticked(devices);
    assert forall|i: int| 0 <= i < after.len() implies well_formed((#[trigger] after[i]).vcp)
        && clock_below(after[i].vcp, limit + 1) by {
        assert(well_formed(devices[i].vcp));
        assert(clock_below(devices[i].vcp, limit));
        lemma_timer_call_well_formed(devices[i].vcp);
        lemma_timer_call_clock(devices[i].vcp, limit);
    }
}

/// A round keeps the devices in place and their engines well-formed, and
/// advances every clock by one.
pub proof fn lemma_round(m: ManagerView, limit: int)
    requires
        m.well_formed(),
        m.clocks_below(limit),
        1 <= limit <= u64::MAX,
    ensures
        spec_handle_messages(m).devices.len() == m.devices.len(),
        spec_handle_messages(m).range == m.range,
        spec_handle_messages(m).well_formed(),
        spec_handle_messages(m).clocks_below(limit + 1),
{
    let sends = deliveries(m.devices, m.devices.len() as int, m.range);
    lemma_deliveries_deliverable(m.devices, m.devices.len() as int, m.range);
    lemma_silenced(m.devices, limit);
    lemma_delivered(silenced(m.devices), sends, sends.len() as int, limit);
    lemma_all_ticked(delivered(silenced(m.devices), sends, sends.len() as int), limit);
}

/// A device that joins keeps the network well-formed; its clock stands at
/// one.
pub proof fn lemma_add_device(m: ManagerView, pos: (i32, i32), limit: int)
    requires
        m.well_formed(),
        m.clocks_below(limit),
        2 <= limit,
    ensures
        spec_add_device(m, pos).well_formed(),
        spec_add_device(m, pos).clocks_below(limit),
{
    let count = m.devices.len();
    let seed = VcpView {
        debug_name: "Dev: "@ + crate::text::decimal(count),
        ..fresh(count == 0)
    };
    assert(well_formed(seed));
    assert(clock_below(seed, 1));
    lemma_timer_call_well_formed(seed);
    lemma_timer_call_clock(seed, 1);
    let joined = newcomer(count, pos);
    assert(clock_below(joined.vcp, 2));
    lemma_clock_below_more(joined.vcp, 2, limit);
    let after = spec_add_device(m, pos);
    assert forall|i: int| 0 <= i < after.devices.len() implies well_formed(
        (#[trigger] after.devices[i]).vcp,
    ) && clock_below(after.devices[i].vcp, limit) by {
        if i < count {
            assert(after.devices[i] == m.devices[i]);
        }
    }
}

/// A clock under a limit is under every greater one.
pub proof fn lemma_clock_below_more(v: VcpView, limit: int, more: int)
    requires
        clock_below(v, limit),
        limit <= more,
    ensures
        clock_below(v, more),
    decreases v,
{
    assert forall|i: int| 0 <= i < v.virtual_nodes.len() implies clock_below(
        #[trigger] v.virtual_nodes[i],
        more,
    ) by {
        assert(clock_below(v.virtual_nodes[i], limit));
        lemma_clock_below_more(v.virtual_nodes[i], limit, more);
    }
}

/// A request to send data keeps the network well-formed and every clock
/// where it is.
pub proof fn lemma_send_text_data_from(
    m: ManagerView,
    from: u32,
    to: u32,
    text: Seq<char>,
    limit: int,
)
    requires
        m.well_formed(),
        m.clocks_below(limit),
    ensures
        spec_send_text_data_from(m, from, to, text).well_formed(),
        spec_send_text_data_from(m, from, to, text).clocks_below(limit),
        spec_send_text_data_from(m, from, to, text).devices.len() == m.devices.len(),
{
    let after = spec_send_text_data_from(m, from, to, text);
    if let Some(k) = origin(m.devices, from) {
        assert(is_origin(m.devices, from, k));
        assert(well_formed(m.devices[k].vcp));
        assert(clock_below(m.devices[k].vcp, limit));
        lemma_send_text_data_well_formed(m.devices[k].vcp, to, text);
        let sent = after.devices[k].vcp;
        assert forall|j: int| 0 <= j < sent.virtual_nodes.len() implies clock_below(
            #[trigger] sent.virtual_nodes[j],
            limit,
        ) by {
            assert(clock_below(m.devices[k].vcp.virtual_nodes[j], limit));
        }
        assert forall|i: int| 0 <= i < after.devices.len() implies well_formed(
            (#[trigger] after.devices[i]).vcp,
        ) && clock_below(after.devices[i].vcp, limit) by {
            if i != k {
                assert(after.devices[i] == m.devices[i]);
            }
        }
    }
}

/// Every clock is under the first number that a clock cannot hold.
pub proof fn lemma_clock_bounded(v: VcpView)
    ensures
        clock_below(v, u64::MAX + 1),
    decreases v,
{
    assert forall|i: int| 0 <= i < v.virtual_nodes.len() implies clock_below(
        #[trigger] v.virtual_nodes[i],
        u64::MAX + 1,
    ) by {
        lemma_clock_bounded(v.virtual_nodes[i]);
    }
}

/// A round keeps the devices in place and their engines well-formed.
pub proof fn lemma_round_well_formed(m: ManagerView)
    requires
        m.well_formed(),
    ensures
        spec_handle_messages(m).devices.len() == m.devices.len(),
        spec_handle_messages(m).range == m.range,
        spec_handle_messages(m).well_formed(),
        forall|i: int|
            0 <= i < m.devices.len() ==> (#[trigger] spec_handle_messages(m).devices[i]).position
                == m.devices[i].position,
{
    let limit = u64::MAX + 1;
    assert forall|i: int| 0 <= i < m.devices.len() implies clock_below(
        (#[trigger] m.devices[i]).vcp,
        limit,
    ) by {
        lemma_clock_bounded(m.devices[i].vcp);
    }
    let sends = deliveries(m.devices, m.devices.len() as int, m.range);
    lemma_deliveries_deliverable(m.devices, m.devices.len() as int, m.range);
    lemma_silenced(m.devices, limit);
    lemma_delivered(silenced(m.devices), sends, sends.len() as int, limit);
    let met = delivered(silenced(m.devices), sends, sends.len() as int);
    crate::isolation::lemma_delivered_keeps_place(silenced(m.devices), sends, sends.len() as int);
    let after = all_ticked(met);
    assert forall|i: int| 0 <= i < after.len() implies well_formed((#[trigger] after[i]).vcp) by {
        assert(well_formed(met[i].vcp));
        lemma_timer_call_well_formed(met[i].vcp);
    }
    assert forall|i: int| 0 <= i < m.devices.len() implies (#[trigger] spec_handle_messages(
        m,
    ).devices[i]).position == m.devices[i].position by {
        assert(met[i].position == silenced(m.devices)[i].position);
    }
}

/// Rounds keep the devices in place and their engines well-formed.
pub proof fn lemma_rounds_well_formed(m: ManagerView, n: nat)
    requires
        m.well_formed(),
    ensures
        spec_rounds(m, n).devices.len() == m.devices.len(),
        spec_rounds(m, n).range == m.range,
        spec_rounds(m, n).well_formed(),
        forall|i: int|
            0 <= i < m.devices.len() ==> (#[trigger] spec_rounds(m, n).devices[i]).position
                == m.devices[i].position,
    decreases n,
{
    if n > 0 {
        let before = spec_rounds(m, (n - 1) as nat);
        lemma_rounds_well_formed(m, (n - 1) as nat);
        lemma_round_well_formed(before);
        assert forall|i: int| 0 <= i < m.devices.len() implies (#[trigger] spec_rounds(
            m,
            n,
        ).devices[i]).position == m.devices[i].position by {
            assert(before.devices[i].position == m.devices[i].position);
        }
    }
}

/// Clocks under a limit are under every greater one.
pub proof fn lemma_clocks_below_more(m: ManagerView, limit: int, more: int)
    requires
        m.clocks_below(limit),
        limit <= more,
    ensures
        m.clocks_below(more),
{
    assert forall|i: int| 0 <= i < m.devices.len() implies clock_below(
        (#[trigger] m.devices[i]).vcp,
        more,
    ) by {
        lemma_clock_below_more(m.devices[i].vcp, limit, more);
    }
}

} // verus!
