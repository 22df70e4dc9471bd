use crate::dummy::{
    deliveries, detours, device_deliveries, direct, hears, packet_deliveries, DeliveryView,
    DeviceView, ManagerView,
};
use crate::packet::PacketView;
use vstd::prelude::*;

verus! {

/// What stands in one of two lists stands in the two put together.
pub proof fn lemma_contains_add(front: Seq<DeliveryView>, back: Seq<DeliveryView>, d: DeliveryView)
    requires
        front.contains(d) || back.contains(d),
    ensures
        (front + back).contains(d),
{
    if front.contains(d) {
        let i = choose|i: int| 0 <= i < front.len() && front[i] == d;
        assert((front + back)[i] == d);
    } else {
        let i = choose|i: int| 0 <= i < back.len() && back[i] == d;
        assert((front + back)[front.len() + i] == d);
    }
}

/// A packet is delivered to each device that hears it.
pub proof fn lemma_direct_reaches(
    devices: Seq<DeviceView>,
    s: int,
    p: PacketView,
    n: int,
    range: i32,
    r: int,
)
    requires
        0 <= r < n,
        hears(devices, s, p, r, range),
    ensures
        direct(devices, s, p, n, range).contains(DeliveryView { from: s, packet: p, to: r }),
    decreases n,
{
    let d = DeliveryView { from: s, packet: p, to: r };
    let earlier = direct(devices, s, p, n - 1, range);
    let all = direct(devices, s, p, n, range);
    if r == n - 1 {
        assert(all[all.len() - 1] == d);
    } else {
        lemma_direct_reaches(devices, s, p, n - 1, range, r);
        let i = choose|i: int| 0 <= i < earlier.len() && earlier[i] == d;
        assert(all[i] == d);
    }
}

/// Each of the first `k` packets of a queue is delivered to each device
/// that hears it.
pub proof fn lemma_queue_reaches(
    devices: Seq<DeviceView>,
    s: int,
    k: int,
    range: i32,
    at: int,
    r: int,
)
    requires
        0 <= at < k,
        0 <= r < devices.len(),
        hears(devices, s, devices[s].vcp.outgoing_msgs[at], r, range),
    ensures
        device_deliveries(devices, s, k, range).contains(
            DeliveryView { from: s, packet: devices[s].vcp.outgoing_msgs[at], to: r },
        ),
    decreases k,
{
    let p = devices[s].vcp.outgoing_msgs[at];
    let d = DeliveryView { from: s, packet: p, to: r };
    let earlier = device_deliveries(devices, s, k - 1, range);
    let last = packet_deliveries(devices, s, devices[s].vcp.outgoing_msgs[k - 1], range);
    if at == k - 1 {
        lemma_direct_reaches(devices, s, p, devices.len() as int, range, r);
        if p.is_data() {
            lemma_contains_add(
                detours(devices, s, p, devices.len() as int),
                direct(devices, s, p, devices.len() as int, range),
                d,
            );
        }
        assert(last.contains(d));
    } else {
        lemma_queue_reaches(devices, s, k - 1, range, at, r);
    }
    lemma_contains_add(earlier, last, d);
}

/// The packets of each of the first `n` devices are delivered to each
/// device that hears them.
pub proof fn lemma_round_reaches(
    devices: Seq<DeviceView>,
    n: int,
    range: i32,
    s: int,
    at: int,
    r: int,
)
    requires
        0 <= s < n <= devices.len(),
        0 <= at < devices[s].vcp.outgoing_msgs.len(),
        0 <= r < devices.len(),
        hears(devices, s, devices[s].vcp.outgoing_msgs[at], r, range),
    ensures
        deliveries(devices, n, range).contains(
            DeliveryView { from: s, packet: devices[s].vcp.outgoing_msgs[at], to: r },
        ),
    decreases n,
{
    let d = DeliveryView { from: s, packet: devices[s].vcp.outgoing_msgs[at], to: r };
    let earlier = deliveries(devices, n - 1, range);
    let last = device_deliveries(
        devices,
        n - 1,
        devices[n - 1].vcp.outgoing_msgs.len() as int,
        range,
    );
    if s == n - 1 {
        lemma_queue_reaches(devices, s, devices[s].vcp.outgoing_msgs.len() as int, range, at, r);
    } else {
        lemma_round_reaches(devices, n - 1, range, s, at, r);
    }
    lemma_contains_add(earlier, last, d);
}

/// No hop is lost. Every packet that waits in the queue of a device is, in
/// the next round, delivered as it stands to every other device that is
/// within range and for which, or for a virtual node of which, it is meant.
pub proof fn lemma_heard_packet_is_delivered(m: ManagerView, s: int, at: int, r: int)
    requires
        0 <= s < m.devices.len(),
        0 <= at < m.devices[s].vcp.outgoing_msgs.len(),
        0 <= r < m.devices.len(),
        hears(m.devices, s, m.devices[s].vcp.outgoing_msgs[at], r, m.range),
    ensures
        deliveries(m.devices, m.devices.len() as int, m.range).contains(
            DeliveryView { from: s, packet: m.devices[s].vcp.outgoing_msgs[at], to: r },
        ),
{
    lemma_round_reaches(m.devices, m.devices.len() as int, m.range, s, at, r);
}

} // verus!
