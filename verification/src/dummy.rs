use crate::invariants::well_formed;
use crate::neighbors::distance;
use crate::packet::{meant_for, CordId, PacketView};
use crate::text::decimal;
use crate::vcp::{
    clock_below, fresh, spec_receive, spec_send_text_data, spec_timer_call, Vcp, VcpView,
};
use vstd::prelude::*;

verus! {

/// A simulated device: a protocol engine at a place in the plane.
pub struct VirtDevice {
    pub vcp: Vcp,
    pub position: (i32, i32),
}

/// Mathematical value of a [`VirtDevice`].
pub struct DeviceView {
    pub vcp: VcpView,
    pub position: (i32, i32),
}

impl View for VirtDevice {
    type V = DeviceView;

    open spec fn view(&self) -> DeviceView {
        DeviceView { vcp: self.vcp@, position: self.position }
    }
}

/// The values of a row of devices, in order.
pub open spec fn device_views(devices: Seq<VirtDevice>) -> Seq<DeviceView> {
    Seq::new(devices.len(), |i: int| devices[i]@)
}

/// Holds all devices and carries their packets from one to the other. Two
/// devices hear each other when they are no farther apart than `range`.
pub struct VirtManager {
    pub devices: Vec<VirtDevice>,
    /// The greatest distance over which a packet is heard.
    pub range: i32,
}

/// Mathematical value of a [`VirtManager`].
pub struct ManagerView {
    pub devices: Seq<DeviceView>,
    pub range: i32,
}

impl View for VirtManager {
    type V = ManagerView;

    open spec fn view(&self) -> ManagerView {
        ManagerView { devices: device_views(self.devices@), range: self.range }
    }
}

/// One packet on its way from the device at index `from` to the device at
/// index `to`.
pub struct DeliveryView {
    pub from: int,
    pub packet: PacketView,
    pub to: int,
}

/// Whether two places are within `range` of each other.
pub open spec fn in_reach(a: (i32, i32), b: (i32, i32), range: i32) -> bool {
    (a.0 - b.0) * (a.0 - b.0) + (a.1 - b.1) * (a.1 - b.1) <= range * range
}

/// The detours of the packet `p` through the first `k` virtual nodes of the
/// device at `r`: for each of them that `p` is meant for, one delivery to the
/// device that hosts it, addressed to the position of that device.
pub open spec fn detours_in(devices: Seq<DeviceView>, s: int, p: PacketView, r: int, k: int) -> Seq<
    DeliveryView,
>
    decreases k,
{
    if k <= 0 {
        Seq::empty()
    } else {
        let earlier = detours_in(devices, s, p, r, k - 1);
        if meant_for(p.receiver, devices[r].vcp.virtual_nodes[k - 1].c_id) {
            earlier.push(
                DeliveryView {
                    from: s,
                    packet: p.readdressed(devices[r].vcp.c_id.unwrap()),
                    to: r,
                },
            )
        } else {
            earlier
        }
    }
}

/// The detours of the packet `p` of the device at `s` through the virtual
/// nodes of those of the first `n` devices that are not the sender.
pub open spec fn detours(
    devices: Seq<DeviceView>,
    s: int,
    p: PacketView,
    n: int,
) -> Seq<DeliveryView>
    decreases n,
{
    if n <= 0 {
        Seq::empty()
    } else if n - 1 == s {
        detours(devices, s, p, n - 1)
    } else {
        detours(devices, s, p, n - 1) + detours_in(
            devices,
            s,
            p,
            n - 1,
            devices[n - 1].vcp.virtual_nodes.len() as int,
        )
    }
}

/// Whether the packet `p` is meant for the engine `v` or for one of its
/// virtual nodes.
pub open spec fn listens(v: VcpView, p: PacketView) -> bool {
    ||| meant_for(p.receiver, v.c_id)
    ||| exists|k: int|
        0 <= k < v.virtual_nodes.len() && meant_for(p.receiver, (#[trigger] v.virtual_nodes[k]).c_id)
}

/// Whether the device at `r` hears the packet `p` of the device at `s`: it
/// is another device, the packet is meant for it or for one of its virtual
/// nodes, and it is within range.
pub open spec fn hears(devices: Seq<DeviceView>, s: int, p: PacketView, r: int, range: i32) -> bool {
    &&& r != s
    &&& listens(devices[r].vcp, p)
    &&& in_reach(devices[s].position, devices[r].position, range)
}

/// The deliveries of the packet `p` of the device at `s` to those of the
/// first `n` devices that hear it.
pub open spec fn direct(devices: Seq<DeviceView>, s: int, p: PacketView, n: int, range: i32) -> Seq<
    DeliveryView,
>
    decreases n,
{
    if n <= 0 {
        Seq::empty()
    } else {
        let earlier = direct(devices, s, p, n - 1, range);
        if hears(devices, s, p, n - 1, range) {
            earlier.push(DeliveryView { from: s, packet: p, to: n - 1 })
        } else {
            earlier
        }
    }
}

/// All deliveries of one packet: for data the detours through the virtual
/// nodes of the other devices, then the deliveries to the devices that hear
/// the packet.
pub open spec fn packet_deliveries(
    devices: Seq<DeviceView>,
    s: int,
    p: PacketView,
    range: i32,
) -> Seq<
    DeliveryView,
> {
    if p.is_data() {
        detours(devices, s, p, devices.len() as int) + direct(
            devices,
            s,
            p,
            devices.len() as int,
            range,
        )
    } else {
        direct(devices, s, p, devices.len() as int, range)
    }
}

/// The deliveries of the first `k` packets in the queue of the device at `s`.
pub open spec fn device_deliveries(devices: Seq<DeviceView>, s: int, k: int, range: i32) -> Seq<
    DeliveryView,
>
    decreases k,
{
    if k <= 0 {
        Seq::empty()
    } else {
        device_deliveries(devices, s, k - 1, range) + packet_deliveries(
            devices,
            s,
            devices[s].vcp.outgoing_msgs[k - 1],
            range,
        )
    }
}

/// The deliveries of all packets in the queues of the first `n` devices.
pub open spec fn deliveries(devices: Seq<DeviceView>, n: int, range: i32) -> Seq<DeliveryView>
    decreases n,
{
    if n <= 0 {
        Seq::empty()
    } else {
        deliveries(devices, n - 1, range) + device_deliveries(
            devices,
            n - 1,
            devices[n - 1].vcp.outgoing_msgs.len() as int,
            range,
        )
    }
}

/// The device with an empty queue.
pub open spec fn silent(device: DeviceView) -> DeviceView {
    DeviceView { vcp: VcpView { outgoing_msgs: Seq::empty(), ..device.vcp }, ..device }
}

/// The devices with empty queues.
pub open spec fn silenced(devices: Seq<DeviceView>) -> Seq<DeviceView> {
    Seq::new(devices.len(), |i: int| silent(devices[i]))
}

/// The device after its engine took the packet.
pub open spec fn reached(device: DeviceView, p: PacketView) -> DeviceView {
    DeviceView { vcp: spec_receive(device.vcp, p), ..device }
}

/// The devices after the first `n` of the given deliveries were made, one
/// after the other.
pub open spec fn delivered(devices: Seq<DeviceView>, sends: Seq<DeliveryView>, n: int) -> Seq<
    DeviceView,
>
    decreases n,
{
    if n <= 0 {
        devices
    } else {
        let before = delivered(devices, sends, n - 1);
        let d = sends[n - 1];
        before.update(d.to, reached(before[d.to], d.packet))
    }
}

/// The device after one tick of its engine.
pub open spec fn ticked(device: DeviceView) -> DeviceView {
    DeviceView { vcp: spec_timer_call(device.vcp), ..device }
}

/// The devices after each of them has ticked.
pub open spec fn all_ticked(devices: Seq<DeviceView>) -> Seq<DeviceView> {
    Seq::new(devices.len(), |i: int| ticked(devices[i]))
}

/// One round of the network: the deliveries are worked out from the queues
/// as they stand, the queues are emptied, the deliveries are made, and
/// every device ticks.
pub open spec fn spec_handle_messages(m: ManagerView) -> ManagerView {
    let sends = deliveries(m.devices, m.devices.len() as int, m.range);
    ManagerView {
        devices: all_ticked(delivered(silenced(m.devices), sends, sends.len() as int)),
        ..m
    }
}

/// The network after `n` rounds.
pub open spec fn spec_rounds(m: ManagerView, n: nat) -> ManagerView
    decreases n,
{
    if n == 0 {
        m
    } else {
        spec_handle_messages(spec_rounds(m, (n - 1) as nat))
    }
}

/// The device that joins a network of `count` devices at `pos`: the first
/// one starts at position 0; every one has ticked once.
pub open spec fn newcomer(count: nat, pos: (i32, i32)) -> DeviceView {
    DeviceView {
        vcp: spec_timer_call(
            VcpView { debug_name: "Dev: "@ + decimal(count), ..fresh(count == 0) },
        ),
        position: pos,
    }
}

/// The network with one more device.
pub open spec fn spec_add_device(m: ManagerView, pos: (i32, i32)) -> ManagerView {
    ManagerView { devices: m.devices.push(newcomer(m.devices.len(), pos)), ..m }
}

/// The device at index `i` has a position, and none is closer to `from`; of
/// two equally close devices the earlier one counts as closer.
pub open spec fn is_origin(devices: Seq<DeviceView>, from: CordId, i: int) -> bool {
    &&& 0 <= i < devices.len()
    &&& devices[i].vcp.c_id is Some
    &&& forall|j: int|
        0 <= j < devices.len() && (#[trigger] devices[j]).vcp.c_id is Some ==> {
            let here = distance(devices[i].vcp.c_id.unwrap(), from);
            let there = distance(devices[j].vcp.c_id.unwrap(), from);
            here < there || (here == there && i <= j)
        }
}

/// The index of the device from which data for `from` sets out, if any
/// device has a position.
pub open spec fn origin(devices: Seq<DeviceView>, from: CordId) -> Option<int> {
    if exists|i: int| is_origin(devices, from, i) {
        Some(choose|i: int| is_origin(devices, from, i))
    } else {
        None
    }
}

/// The network after the device closest to `from` was asked to send `text`
/// to `to`.
pub open spec fn spec_send_text_data_from(m: ManagerView, from: CordId, to: CordId, text: Seq<char>) -> ManagerView {
    match origin(m.devices, from) {
        Some(i) => ManagerView {
            devices: m.devices.update(
                i,
                DeviceView {
                    vcp: spec_send_text_data(m.devices[i].vcp, to, text),
                    ..m.devices[i]
                },
            ),
            ..m
        },
        None => m,
    }
}

/// Every engine of the row is well-formed.
pub open spec fn all_well_formed(devices: Seq<DeviceView>) -> bool {
    forall|i: int| 0 <= i < devices.len() ==> well_formed((#[trigger] devices[i]).vcp)
}

/// Every clock of the row is under `limit`.
pub open spec fn all_clocks_below(devices: Seq<DeviceView>, limit: int) -> bool {
    forall|i: int| 0 <= i < devices.len() ==> clock_below((#[trigger] devices[i]).vcp, limit)
}

impl ManagerView {
    /// Every engine of the network is well-formed.
    pub open spec fn well_formed(self) -> bool {
        all_well_formed(self.devices)
    }

    /// Every clock of the network is under `limit`.
    pub open spec fn clocks_below(self, limit: int) -> bool {
        all_clocks_below(self.devices, limit)
    }
}

/// The origin is unique.
pub proof fn lemma_origin_is(devices: Seq<DeviceView>, from: CordId, i: int)
    requires
        is_origin(devices, from, i),
    ensures
        origin(devices, from) == Some(i),
{
    let chosen = choose|j: int| is_origin(devices, from, j);
    assert(is_origin(devices, from, chosen));
    assert(devices[i].vcp.c_id is Some);
    assert(devices[chosen].vcp.c_id is Some);
    assert(chosen <= i && i <= chosen);
}

} // verus!
