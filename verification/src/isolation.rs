use crate::dummy::{
    delivered, deliveries, detours, detours_in, device_deliveries, direct, hears, in_reach,
    packet_deliveries, silenced, spec_handle_messages, spec_rounds, DeliveryView, DeviceView,
    ManagerView,
};
use crate::neighbors::aged;
use crate::packet::{CordId, NeighborInfo};
use crate::rounds::{lemma_deliveries_deliverable, lemma_rounds_well_formed};
use crate::packet::PacketView;
use vstd::prelude::*;

verus! {

/// Reach is mutual.
pub proof fn lemma_in_reach_mutual(a: (i32, i32), b: (i32, i32), range: i32)
    ensures
        in_reach(a, b, range) == in_reach(b, a, range),
{
    let dx = a.0 - b.0;
    let dy = a.1 - b.1;
    assert(dx * dx == (-dx) * (-dx)) by (nonlinear_arith);
    assert(dy * dy == (-dy) * (-dy)) by (nonlinear_arith);
    assert(b.0 - a.0 == -dx);
    assert(b.1 - a.1 == -dy);
}

/// The device at `r` is out of the reach of every other device.
pub open spec fn isolated(devices: Seq<DeviceView>, r: int, range: i32) -> bool {
    forall|s: int|
        0 <= s < devices.len() && s != r ==> !in_reach(
            (#[trigger] devices[s]).position,
            devices[r].position,
            range,
        )
}

/// Every delivery of the list that goes to the device at `r` carries data.
pub open spec fn only_data_for(sends: Seq<DeliveryView>, r: int) -> bool {
    forall|i: int| 0 <= i < sends.len() && (#[trigger] sends[i]).to == r ==> sends[i].packet.is_data()
}

/// Two lists that bring the device at `r` only data do so together.
pub proof fn lemma_only_data_add(front: Seq<DeliveryView>, back: Seq<DeliveryView>, r: int)
    requires
        only_data_for(front, r),
        only_data_for(back, r),
    ensures
        only_data_for(front + back, r),
{
    let all = front + back;
    assert forall|i: int| 0 <= i < all.len() && (#[trigger] all[i]).to == r implies all[i].packet.is_data() by {
        if i < front.len() {
            assert(all[i] == front[i]);
        } else {
            assert(all[i] == back[i - front.len()]);
        }
    }
}

/// Detours of a data packet carry data.
pub proof fn lemma_detours_in_data(
    devices: Seq<DeviceView>,
    s: int,
    p: PacketView,
    h: int,
    k: int,
    r: int,
)
    requires
        p.is_data(),
    ensures
        only_data_for(detours_in(devices, s, p, h, k), r),
    decreases k,
{
    if k > 0 {
        lemma_detours_in_data(devices, s, p, h, k - 1, r);
        let earlier = detours_in(devices, s, p, h, k - 1);
        let all = detours_in(devices, s, p, h, k);
        assert forall|i: int| 0 <= i < all.len() && (#[trigger] all[i]).to == r implies all[i].packet.is_data() by {
            if i < earlier.len() {
                assert(all[i] == earlier[i]);
            }
        }
    }
}

/// Detours of a data packet carry data.
pub proof fn lemma_detours_data(devices: Seq<DeviceView>, s: int, p: PacketView, n: int, r: int)
    requires
        p.is_data(),
    ensures
        only_data_for(detours(devices, s, p, n), r),
    decreases n,
{
    if n > 0 {
        lemma_detours_data(devices, s, p, n - 1, r);
        lemma_detours_in_data(
            devices,
            s,
            p,
            n - 1,
            devices[n - 1].vcp.virtual_nodes.len() as int,
            r,
        );
        lemma_only_data_add(
            detours(devices, s, p, n - 1),
            detours_in(devices, s, p, n - 1, devices[n - 1].vcp.virtual_nodes.len() as int),
            r,
        );
    }
}

/// No packet is delivered directly to a device out of reach.
pub proof fn lemma_direct_skips(
    devices: Seq<DeviceView>,
    s: int,
    p: PacketView,
    n: int,
    range: i32,
    r: int,
)
    requires
        0 <= s < devices.len(),
        0 <= r < devices.len(),
        n <= devices.len(),
        isolated(devices, r, range),
    ensures
        only_data_for(direct(devices, s, p, n, range), r),
    decreases n,
{
    if n > 0 {
        lemma_direct_skips(devices, s, p, n - 1, range, r);
        let earlier = direct(devices, s, p, n - 1, range);
        let all = direct(devices, s, p, n, range);
        if n - 1 == r && s != r {
            assert(!in_reach(devices[s].position, devices[r].position, range));
            assert(!hears(devices, s, p, r, range));
        }
        assert forall|i: int| 0 <= i < all.len() && (#[trigger] all[i]).to == r implies all[i].packet.is_data() by {
            if i < earlier.len() {
                assert(all[i] == earlier[i]);
            }
        }
    }
}

/// The queue of a device brings a device out of reach only data.
pub proof fn lemma_device_deliveries_data(
    devices: Seq<DeviceView>,
    s: int,
    k: int,
    range: i32,
    r: int,
)
    requires
        0 <= s < devices.len(),
        0 <= r < devices.len(),
        isolated(devices, r, range),
    ensures
        only_data_for(device_deliveries(devices, s, k, range), r),
    decreases k,
{
    if k > 0 {
        lemma_device_deliveries_data(devices, s, k - 1, range, r);
        let p = devices[s].vcp.outgoing_msgs[k - 1];
        lemma_direct_skips(devices, s, p, devices.len() as int, range, r);
        if p.is_data() {
            lemma_detours_data(devices, s, p, devices.len() as int, r);
            lemma_only_data_add(
                detours(devices, s, p, devices.len() as int),
                direct(devices, s, p, devices.len() as int, range),
                r,
            );
        }
        lemma_only_data_add(
            device_deliveries(devices, s, k - 1, range),
            packet_deliveries(devices, s, p, range),
            r,
        );
    }
}

/// A round brings a device out of reach only data.
pub proof fn lemma_deliveries_data(devices: Seq<DeviceView>, n: int, range: i32, r: int)
    requires
        n <= devices.len(),
        0 <= r < devices.len(),
        isolated(devices, r, range),
    ensures
        only_data_for(deliveries(devices, n, range), r),
    decreases n,
{
    if n > 0 {
        lemma_deliveries_data(devices, n - 1, range, r);
        lemma_device_deliveries_data(
            devices,
            n - 1,
            devices[n - 1].vcp.outgoing_msgs.len() as int,
            range,
            r,
        );
        lemma_only_data_add(
            deliveries(devices, n - 1, range),
            device_deliveries(devices, n - 1, devices[n - 1].vcp.outgoing_msgs.len() as int, range),
            r,
        );
    }
}

/// Deliveries of data leave the neighbor table of a device as it is; no
/// delivery moves a device.
pub proof fn lemma_delivered_keeps_table(
    devices: Seq<DeviceView>,
    sends: Seq<DeliveryView>,
    n: int,
    r: int,
)
    requires
        0 <= r < devices.len(),
        n <= sends.len(),
        only_data_for(sends, r),
        forall|i: int| 0 <= i < sends.len() ==> 0 <= (#[trigger] sends[i]).to < devices.len(),
    ensures
        delivered(devices, sends, n).len() == devices.len(),
        delivered(devices, sends, n)[r].vcp.neighbors == devices[r].vcp.neighbors,
        forall|i: int|
            0 <= i < devices.len() ==> (#[trigger] delivered(devices, sends, n)[i]).position
                == devices[i].position,
    decreases n,
{
    if n > 0 {
        lemma_delivered_keeps_table(devices, sends, n - 1, r);
        let before = delivered(devices, sends, n - 1);
        let after = delivered(devices, sends, n);
        let d = sends[n - 1];
        assert(0 <= d.to < devices.len());
        if d.to == r {
            assert(d.packet.is_data());
        }
        assert forall|i: int| 0 <= i < devices.len() implies (#[trigger] after[i]).position
            == devices[i].position by {
            assert(before[i].position == devices[i].position);
        }
    }
}

/// No delivery moves a device.
pub proof fn lemma_delivered_keeps_place(devices: Seq<DeviceView>, sends: Seq<DeliveryView>, n: int)
    requires
        n <= sends.len(),
        forall|i: int| 0 <= i < sends.len() ==> 0 <= (#[trigger] sends[i]).to < devices.len(),
    ensures
        delivered(devices, sends, n).len() == devices.len(),
        forall|i: int|
            0 <= i < devices.len() ==> (#[trigger] delivered(devices, sends, n)[i]).position
                == devices[i].position,
    decreases n,
{
    if n > 0 {
        lemma_delivered_keeps_place(devices, sends, n - 1);
        let before = delivered(devices, sends, n - 1);
        let after = delivered(devices, sends, n);
        let d = sends[n - 1];
        assert(0 <= d.to < devices.len());
        assert forall|i: int| 0 <= i < devices.len() implies (#[trigger] after[i]).position
            == devices[i].position by {
            assert(before[i].position == devices[i].position);
        }
    }
}

/// A device that is out of the reach of every other device learns of no
/// neighbor in a round: its table after the round is its table before, one
/// tick older.
pub proof fn lemma_isolated_learns_nothing(m: ManagerView, r: int)
    requires
        m.well_formed(),
        0 <= r < m.devices.len(),
        isolated(m.devices, r, m.range),
    ensures
        spec_handle_messages(m).devices.len() == m.devices.len(),
        spec_handle_messages(m).devices[r].vcp.neighbors == aged(m.devices[r].vcp.neighbors),
{
    let sends = deliveries(m.devices, m.devices.len() as int, m.range);
    lemma_deliveries_deliverable(m.devices, m.devices.len() as int, m.range);
    lemma_deliveries_data(m.devices, m.devices.len() as int, m.range, r);
    lemma_delivered_keeps_table(silenced(m.devices), sends, sends.len() as int, r);
}

/// The table `after` holds no position that the table `before` does not
/// hold.
pub open spec fn nothing_learned(before: Map<CordId, NeighborInfo>, after: Map<CordId, NeighborInfo>) -> bool {
    forall|k: CordId| #[trigger] after.contains_key(k) ==> before.contains_key(k)
}

/// Devices out of range never learn of each other. However many rounds
/// pass, the neighbor table of a device that stands out of the reach of
/// every other device holds no position that it did not hold at the start:
/// of two devices farther apart than the range, neither ever has an entry
/// for the other.
pub proof fn lemma_out_of_range_never_learn(m: ManagerView, r: int, n: nat)
    requires
        m.well_formed(),
        0 <= r < m.devices.len(),
        isolated(m.devices, r, m.range),
    ensures
        spec_rounds(m, n).devices.len() == m.devices.len(),
        nothing_learned(m.devices[r].vcp.neighbors, spec_rounds(m, n).devices[r].vcp.neighbors),
    decreases n,
{
    if n > 0 {
        let before = spec_rounds(m, (n - 1) as nat);
        lemma_out_of_range_never_learn(m, r, (n - 1) as nat);
        lemma_rounds_well_formed(m, (n - 1) as nat);
        assert forall|s: int| 0 <= s < before.devices.len() && s != r implies !in_reach(
            (#[trigger] before.devices[s]).position,
            before.devices[r].position,
            before.range,
        ) by {
            assert(before.devices[s].position == m.devices[s].position);
            assert(before.devices[r].position == m.devices[r].position);
            assert(!in_reach(m.devices[s].position, m.devices[r].position, m.range));
        }
        lemma_isolated_learns_nothing(before, r);
    }
}

} // verus!
