use crate::dummy::{
    all_ticked, delivered, deliveries, detours, detours_in, device_deliveries, direct, in_reach,
    is_origin, lemma_origin_is, listens, newcomer, origin, packet_deliveries, reached, silenced,
    silent, spec_add_device, spec_handle_messages, spec_send_text_data_from, ticked, DeliveryView,
    DeviceView, ManagerView, VirtDevice, VirtManager,
};
use crate::invariants::{lemma_sendable_is_received, queue_sound, well_formed};
use crate::neighbors::{distance, gap};
use crate::packet::{meant_for, CordId, Packet, START};
use crate::rounds::{lemma_delivered, lemma_round, lemma_silenced};
use crate::text::decimal_string;
use crate::vcp::{clock_below, fresh, Vcp};
use vstd::prelude::*;
use vstd::string::*;

verus! {

/// One packet on its way from one device of a network to another.
pub struct Delivery {
    pub from: usize,
    pub packet: Packet,
    pub to: usize,
}

impl View for Delivery {
    type V = DeliveryView;

    open spec fn view(&self) -> DeliveryView {
        DeliveryView { from: self.from as int, packet: self.packet@, to: self.to as int }
    }
}

/// The values of a list of deliveries, in order.
pub open spec fn delivery_views(sends: Seq<Delivery>) -> Seq<DeliveryView> {
    Seq::new(sends.len(), |i: int| sends[i]@)
}

/// Every delivery of the list goes to one of `count` devices and carries a
/// packet that a node queues by itself.
pub open spec fn deliverable(sends: Seq<DeliveryView>, count: int) -> bool {
    forall|i: int|
        0 <= i < sends.len() ==> 0 <= (#[trigger] sends[i]).to < count && sends[i].packet.sendable()
}

/// The values of a list grow with the list.
pub proof fn lemma_delivery_views_push(sends: Seq<Delivery>, d: Delivery)
    ensures
        delivery_views(sends.push(d)) == delivery_views(sends).push(d@),
{
    assert(delivery_views(sends.push(d)) =~= delivery_views(sends).push(d@));
}

/// Whether two places are within `range` of each other.
pub fn within_reach(a: (i32, i32), b: (i32, i32), range: i32) -> (near: bool)
    ensures
        near == in_reach(a, b, range),
{
    let dx: i128 = a.0 as i128 - b.0 as i128;
    let dy: i128 = a.1 as i128 - b.1 as i128;
    let r: i128 = range as i128;
    assert(0 <= dx * dx <= 0x1_0000_0000_0000_0000) by (nonlinear_arith)
        requires
            -0x1_0000_0000 <= dx <= 0x1_0000_0000,
    ;
    assert(0 <= dy * dy <= 0x1_0000_0000_0000_0000) by (nonlinear_arith)
        requires
            -0x1_0000_0000 <= dy <= 0x1_0000_0000,
    ;
    assert(0 <= r * r <= 0x1_0000_0000_0000_0000) by (nonlinear_arith)
        requires
            -0x1_0000_0000 <= r <= 0x1_0000_0000,
    ;
    dx * dx + dy * dy <= r * r
}

impl VirtManager {
    /// Adds the detours of one packet through the virtual nodes of the
    /// device at `r`.
    pub fn detour_into(&self, s: usize, packet: &Packet, r: usize, sends: &mut Vec<Delivery>)
        requires
            s < self.devices@.len(),
            r < self.devices@.len(),
            self@.well_formed(),
            packet@.sendable(),
            deliverable(delivery_views(old(sends)@), self.devices@.len() as int),
        ensures
            delivery_views(final(sends)@) == delivery_views(old(sends)@) + detours_in(
                self@.devices,
                s as int,
                packet@,
                r as int,
                self@.devices[r as int].vcp.virtual_nodes.len() as int,
            ),
            deliverable(delivery_views(final(sends)@), self.devices@.len() as int),
    {
        let host = &self.devices[r];
        let count: usize = host.vcp.virtual_nodes.len();
        let ghost devs = self@.devices;
        let ghost p = packet@;
        let ghost start = delivery_views(sends@);
        assert(devs[r as int] == host@);
        assert(well_formed(devs[r as int].vcp));
        assert(start + detours_in(devs, s as int, p, r as int, 0) =~= start);
        let mut k: usize = 0;
        while k < count
            invariant
                k <= count,
                count == host@.vcp.virtual_nodes.len(),
                devs == self@.devices,
                devs[r as int] == host@,
                r < devs.len(),
                devs.len() == self.devices@.len(),
                p == packet@,
                p.sendable(),
                count > 0 ==> host.vcp.c_id is Some,
                delivery_views(sends@) == start + detours_in(devs, s as int, p, r as int, k as int),
                deliverable(delivery_views(sends@), devs.len() as int),
            decreases count - k,
        {
            let virt = &host.vcp.virtual_nodes[k];
            assert(virt@ == host@.vcp.virtual_nodes[k as int]);
            if packet.is_for(virt.c_id) {
                let real_node_cid: CordId = match host.vcp.c_id {
                    Some(c) => c,
                    None => START,
                };
                let d = Delivery { from: s, packet: packet.new_receiver(real_node_cid), to: r };
                proof {
                    lemma_delivery_views_push(sends@, d);
                    let before = delivery_views(sends@);
                    assert forall|i: int| 0 <= i < before.push(d@).len() implies 0 <= (
                    #[trigger] before.push(d@)[i]).to < devs.len() && before.push(
                        d@,
                    )[i].packet.sendable() by {
                        if i < before.len() {
                            assert(before.push(d@)[i] == before[i]);
                        }
                    }
                }
                sends.push(d);
            }
            proof {
                assert(delivery_views(sends@) =~= start + detours_in(
                    devs,
                    s as int,
                    p,
                    r as int,
                    k + 1,
                ));
            }
            k = k + 1;
        }
    }

    /// Adds the detours of one packet of the device at `s` through the
    /// virtual nodes of all other devices.
    pub fn detour_all(&self, s: usize, packet: &Packet, sends: &mut Vec<Delivery>)
        requires
            s < self.devices@.len(),
            self@.well_formed(),
            packet@.sendable(),
            deliverable(delivery_views(old(sends)@), self.devices@.len() as int),
        ensures
            delivery_views(final(sends)@) == delivery_views(old(sends)@) + detours(
                self@.devices,
                s as int,
                packet@,
                self@.devices.len() as int,
            ),
            deliverable(delivery_views(final(sends)@), self.devices@.len() as int),
    {
        let n: usize = self.devices.len();
        let ghost devs = self@.devices;
        let ghost p = packet@;
        let ghost start = delivery_views(sends@);
        assert(start + detours(devs, s as int, p, 0) =~= start);
        let mut r: usize = 0;
        while r < n
            invariant
                r <= n,
                n == self.devices@.len(),
                s < n,
                devs == self@.devices,
                devs.len() == n,
                p == packet@,
                p.sendable(),
                self@.well_formed(),
                delivery_views(sends@) == start + detours(devs, s as int, p, r as int),
                deliverable(delivery_views(sends@), n as int),
            decreases n - r,
        {
            if r != s {
                self.detour_into(s, packet, r, sends);
            }
            proof {
                assert(delivery_views(sends@) =~= start + detours(devs, s as int, p, r + 1));
            }
            r = r + 1;
        }
    }

    /// Adds the deliveries of one packet to the devices that hear it.
    pub fn deliver_direct(&self, s: usize, packet: &Packet, sends: &mut Vec<Delivery>)
        requires
            s < self.devices@.len(),
            packet@.sendable(),
            deliverable(delivery_views(old(sends)@), self.devices@.len() as int),
        ensures
            delivery_views(final(sends)@) == delivery_views(old(sends)@) + direct(
                self@.devices,
                s as int,
                packet@,
                self@.devices.len() as int,
                self.range,
            ),
            deliverable(delivery_views(final(sends)@), self.devices@.len() as int),
    {
        let n: usize = self.devices.len();
        let ghost devs = self@.devices;
        let ghost p = packet@;
        let ghost start = delivery_views(sends@);
        assert(start + direct(devs, s as int, p, 0, self.range) =~= start);
        let mut r: usize = 0;
        while r < n
            invariant
                r <= n,
                n == self.devices@.len(),
                s < n,
                devs == self@.devices,
                devs.len() == n,
                p == packet@,
                p.sendable(),
                delivery_views(sends@) == start + direct(devs, s as int, p, r as int, self.range),
                deliverable(delivery_views(sends@), n as int),
            decreases n - r,
        {
            let ss = &self.devices[s];
            let rr = &self.devices[r];
            assert(devs[s as int] == ss@);
            assert(devs[r as int] == rr@);
            if s != r && rr.listens(packet) && within_reach(
                ss.position,
                rr.position,
                self.range,
            ) {
                let d = Delivery { from: s, packet: packet.clone(), to: r };
                proof {
                    lemma_delivery_views_push(sends@, d);
                    let before = delivery_views(sends@);
                    assert forall|i: int| 0 <= i < before.push(d@).len() implies 0 <= (
                    #[trigger] before.push(d@)[i]).to < devs.len() && before.push(
                        d@,
                    )[i].packet.sendable() by {
                        if i < before.len() {
                            assert(before.push(d@)[i] == before[i]);
                        }
                    }
                }
                sends.push(d);
            }
            proof {
                assert(delivery_views(sends@) =~= start + direct(
                    devs,
                    s as int,
                    p,
                    r + 1,
                    self.range,
                ));
            }
            r = r + 1;
        }
    }

    /// Adds the deliveries of all packets in the queue of the device at `s`.
    pub fn queue_deliveries(&self, s: usize, sends: &mut Vec<Delivery>)
        requires
            s < self.devices@.len(),
            self@.well_formed(),
            deliverable(delivery_views(old(sends)@), self.devices@.len() as int),
        ensures
            delivery_views(final(sends)@) == delivery_views(old(sends)@) + device_deliveries(
                self@.devices,
                s as int,
                self@.devices[s as int].vcp.outgoing_msgs.len() as int,
                self.range,
            ),
            deliverable(delivery_views(final(sends)@), self.devices@.len() as int),
    {
        let ss = &self.devices[s];
        let count: usize = ss.vcp.outgoing_msgs.len();
        let ghost devs = self@.devices;
        let ghost start = delivery_views(sends@);
        assert(devs[s as int] == ss@);
        assert(well_formed(devs[s as int].vcp));
        assert(start + device_deliveries(devs, s as int, 0, self.range) =~= start);
        let mut k: usize = 0;
        while k < count
            invariant
                k <= count,
                count == ss.vcp.outgoing_msgs@.len(),
                count == devs[s as int].vcp.outgoing_msgs.len(),
                s < self.devices@.len(),
                devs == self@.devices,
                devs[s as int] == ss@,
                self@.well_formed(),
                queue_sound(devs[s as int].vcp.outgoing_msgs),
                delivery_views(sends@) == start + device_deliveries(
                    devs,
                    s as int,
                    k as int,
                    self.range,
                ),
                deliverable(delivery_views(sends@), self.devices@.len() as int),
            decreases count - k,
        {
            let m = &ss.vcp.outgoing_msgs[k];
            assert(m@ == devs[s as int].vcp.outgoing_msgs[k as int]);
            assert(m@.sendable());
            let ghost before = delivery_views(sends@);
            if m.is_type_data() {
                self.detour_all(s, m, sends);
            }
            self.deliver_direct(s, m, sends);
            proof {
                assert(delivery_views(sends@) =~= before + packet_deliveries(
                    devs,
                    s as int,
                    m@,
                    self.range,
                ));
                assert(delivery_views(sends@) =~= start + device_deliveries(
                    devs,
                    s as int,
                    k + 1,
                    self.range,
                ));
            }
            k = k + 1;
        }
    }

    /// Works out, from the queues as they stand, every delivery of the
    /// round.
    pub fn collect_deliveries(&self) -> (sends: Vec<Delivery>)
        requires
            self@.well_formed(),
        ensures
            delivery_views(sends@) == deliveries(
                self@.devices,
                self@.devices.len() as int,
                self.range,
            ),
            deliverable(delivery_views(sends@), self.devices@.len() as int),
    {
        let mut sends: Vec<Delivery> = Vec::new();
        let n: usize = self.devices.len();
        let ghost devs = self@.devices;
        assert(delivery_views(sends@) =~= deliveries(devs, 0, self.range));
        let mut s: usize = 0;
        while s < n
            invariant
                s <= n,
                n == self.devices@.len(),
                devs == self@.devices,
                self@.well_formed(),
                delivery_views(sends@) == deliveries(devs, s as int, self.range),
                deliverable(delivery_views(sends@), n as int),
            decreases n - s,
        {
            self.queue_deliveries(s, &mut sends);
            s = s + 1;
        }
        sends
    }
}

impl VirtDevice {
    /// Whether the packet is meant for the device or for one of its virtual
    /// nodes.
    pub fn listens(&self, packet: &Packet) -> (meant: bool)
        ensures
            meant == listens(self@.vcp, packet@),
    {
        if packet.is_for(self.vcp.c_id) {
            return true;
        }
        let count: usize = self.vcp.virtual_nodes.len();
        let mut k: usize = 0;
        while k < count
            invariant
                k <= count,
                count == self@.vcp.virtual_nodes.len(),
                count == self.vcp.virtual_nodes@.len(),
                forall|j: int|
                    0 <= j < k ==> !meant_for(
                        packet@.receiver,
                        (#[trigger] self@.vcp.virtual_nodes[j]).c_id,
                    ),
            decreases count - k,
        {
            let virt = &self.vcp.virtual_nodes[k];
            assert(virt@ == self@.vcp.virtual_nodes[k as int]);
            if packet.is_for(virt.c_id) {
                return true;
            }
            k = k + 1;
        }
        false
    }

    /// A device at the origin of the plane, with an engine that has heard
    /// and sent nothing yet.
    pub fn new(is_first: bool) -> (device: Self)
        ensures
            device@ == (DeviceView { vcp: fresh(is_first), position: (0i32, 0i32) }),
    {
        VirtDevice { vcp: Vcp::new(is_first), position: (0, 0) }
    }
}

impl VirtManager {
    /// A network without devices, in which packets are heard over a
    /// distance of 10.
    pub fn new() -> (manager: Self)
        ensures
            manager@ == (ManagerView { devices: Seq::empty(), range: 10 }),
    {
        let manager = VirtManager { devices: Vec::new(), range: 10 };
        assert(manager@.devices =~= Seq::empty());
        manager
    }

    /// Adds a device at `pos`. The first device of a network starts at
    /// position 0; every new device ticks once before it joins.
    pub fn add_device(&mut self, pos: (i32, i32))
        ensures
            final(self)@ == spec_add_device(old(self)@, pos),
    {
        let count: usize = self.devices.len();
        let mut d = VirtDevice::new(count == 0);
        d.position = pos;
        let mut name = String::from_str("Dev: ");
        name.append(decimal_string(count as u64).as_str());
        d.vcp.debug_name = name;
        proof {
            assert(d.vcp@.virtual_nodes =~= Seq::empty());
            assert(d.vcp@.outgoing_msgs =~= Seq::empty());
            assert(d.vcp@.data_storage =~= Seq::empty());
            assert(clock_below(d.vcp@, u64::MAX as int));
        }
        d.vcp.timer_call();
        let ghost joined = d;
        self.devices.push(d);
        proof {
            assert(joined@ == newcomer(count as nat, pos));
            assert(self@.devices =~= old(self)@.devices.push(joined@));
        }
    }

    /// The index of the device from which data for `from` sets out.
    pub fn find_origin(&self, from: CordId) -> (found: Option<usize>)
        ensures
            match found {
                Some(i) => origin(self@.devices, from) == Some(i as int),
                None => origin(self@.devices, from) is None,
            },
    {
        let n: usize = self.devices.len();
        let ghost devs = self@.devices;
        let mut best: Option<usize> = None;
        let mut smallest: u32 = 0;
        let mut s: usize = 0;
        while s < n
            invariant
                s <= n,
                n == self.devices@.len(),
                devs == self@.devices,
                match best {
                    Some(b) => {
                        &&& b < s
                        &&& devs[b as int].vcp.c_id is Some
                        &&& smallest == distance(devs[b as int].vcp.c_id.unwrap(), from)
                        &&& forall|j: int|
                            0 <= j < s && (#[trigger] devs[j]).vcp.c_id is Some ==> {
                                let there = distance(devs[j].vcp.c_id.unwrap(), from);
                                smallest < there || (smallest == there && b <= j)
                            }
                    },
                    None => forall|j: int| 0 <= j < s ==> (#[trigger] devs[j]).vcp.c_id is None,
                },
            decreases n - s,
        {
            let ss = &self.devices[s];
            assert(devs[s as int] == ss@);
            if let Some(cid) = ss.vcp.c_id {
                let diff: u32 = gap(cid, from);
                let closer: bool = match best {
                    Some(_) => diff < smallest,
                    None => true,
                };
                if closer {
                    smallest = diff;
                    best = Some(s);
                }
            }
            s = s + 1;
        }
        proof {
            match best {
                Some(b) => {
                    assert(is_origin(devs, from, b as int));
                    lemma_origin_is(devs, from, b as int);
                },
                None => {
                    assert forall|i: int| !is_origin(devs, from, i) by {
                        if 0 <= i < devs.len() {
                            assert(devs[i].vcp.c_id is None);
                        }
                    }
                },
            }
        }
        best
    }

    /// Asks the device whose position is closest to `from` to send `text` to
    /// the node at `to`.
    pub fn send_text_data(&mut self, from: u32, to: u32, text: String)
        requires
            exists|i: int|
                0 <= i < old(self)@.devices.len() && (#[trigger] old(self)@.devices[i]).vcp.c_id
                    is Some,
        ensures
            final(self)@ == spec_send_text_data_from(old(self)@, from, to, text@),
    {
        let found = self.find_origin(from);
        match found {
            Some(index) => {
                let ghost devs = self@.devices;
                assert(is_origin(devs, from, index as int));
                assert(devs[index as int] == self.devices@[index as int]@);
                let dev = &mut self.devices[index];
                dev.vcp.send_text_data(to, text);
                proof {
                    assert(self@.devices =~= devs.update(
                        index as int,
                        DeviceView {
                            vcp: crate::vcp::spec_send_text_data(
                                devs[index as int].vcp,
                                to,
                                text@,
                            ),
                            ..devs[index as int]
                        },
                    ));
                }
            },
            None => {
                proof {
                    let i = choose|i: int|
                        0 <= i < old(self)@.devices.len() && (#[trigger] old(
                            self,
                        )@.devices[i]).vcp.c_id is Some;
                    lemma_some_origin(old(self)@.devices, from, old(self)@.devices.len() as int);
                }
            },
        }
    }

    /// One round of the network: every queued packet is delivered to the
    /// devices that are to get it, then every device ticks.
    pub fn handle_messages(&mut self)
        requires
            old(self)@.well_formed(),
            old(self)@.clocks_below(u64::MAX as int),
        ensures
            final(self)@ == spec_handle_messages(old(self)@),
            final(self)@.well_formed(),
    {
        let sends = self.collect_deliveries();
        let ghost start = self@.devices;
        let ghost plan = delivery_views(sends@);
        let n: usize = self.devices.len();
        let mut i: usize = 0;
        while i < n
            invariant
                i <= n,
                n == self.devices@.len(),
                n == start.len(),
                self.range == old(self).range,
                forall|j: int| 0 <= j < i ==> (#[trigger] self.devices@[j])@ == silent(start[j]),
                forall|j: int| i <= j < n ==> (#[trigger] self.devices@[j])@ == start[j],
            decreases n - i,
        {
            let ghost before = self.devices@[i as int]@;
            let dev = &mut self.devices[i];
            dev.vcp.outgoing_msgs.clear();
            proof {
                assert(dev.vcp@.outgoing_msgs =~= Seq::empty());
                assert(dev.vcp@.virtual_nodes =~= before.vcp.virtual_nodes);
                assert(dev@ == silent(start[i as int]));
            }
            i = i + 1;
        }
        proof {
            assert(self@.devices =~= silenced(start));
            lemma_silenced(start, u64::MAX as int);
            lemma_delivered(silenced(start), plan, 0, u64::MAX as int);
        }
        let count: usize = sends.len();
        let mut k: usize = 0;
        while k < count
            invariant
                k <= count,
                count == sends@.len(),
                plan == delivery_views(sends@),
                n == self.devices@.len(),
                n == start.len(),
                self.range == old(self).range,
                deliverable(plan, n as int),
                crate::dummy::all_well_formed(silenced(start)),
                crate::dummy::all_clocks_below(silenced(start), u64::MAX as int),
                self@.devices == delivered(silenced(start), plan, k as int),
            decreases count - k,
        {
            let d = &sends[k];
            let r: usize = d.to;
            let ghost before = self@.devices;
            proof {
                assert(plan[k as int] == d@);
                assert(0 <= plan[k as int].to < n);
                assert(before[r as int] == self.devices@[r as int]@);
                lemma_sendable_is_received(before[r as int].vcp, d.packet@);
            }
            let dev = &mut self.devices[r];
            dev.vcp.receive(&d.packet);
            proof {
                assert(self@.devices =~= before.update(
                    r as int,
                    reached(before[r as int], d.packet@),
                ));
            }
            k = k + 1;
        }
        let ghost reached_all = self@.devices;
        proof {
            lemma_delivered(silenced(start), plan, count as int, u64::MAX as int);
        }
        let mut t: usize = 0;
        while t < n
            invariant
                t <= n,
                n == self.devices@.len(),
                n == reached_all.len(),
                self.range == old(self).range,
                crate::dummy::all_clocks_below(reached_all, u64::MAX as int),
                forall|j: int| 0 <= j < t ==> (#[trigger] self.devices@[j])@ == ticked(reached_all[j]),
                forall|j: int| t <= j < n ==> (#[trigger] self.devices@[j])@ == reached_all[j],
            decreases n - t,
        {
            assert(self.devices@[t as int]@ == reached_all[t as int]);
            assert(clock_below(reached_all[t as int].vcp, u64::MAX as int));
            let dev = &mut self.devices[t];
            dev.vcp.timer_call();
            t = t + 1;
        }
        proof {
            assert(self@.devices =~= all_ticked(reached_all));
            lemma_round(old(self)@, u64::MAX as int);
        }
    }
}

/// Where a device has a position, data has an origin.
pub proof fn lemma_some_origin(devices: Seq<DeviceView>, from: CordId, n: int)
    requires
        exists|i: int| 0 <= i < devices.len() && (#[trigger] devices[i]).vcp.c_id is Some,
        n == devices.len(),
    ensures
        origin(devices, from) is Some,
{
    let first = choose|i: int| 0 <= i < devices.len() && (#[trigger] devices[i]).vcp.c_id is Some;
    lemma_best_origin(devices, from, devices.len() as int, first);
    let best = choose|b: int| is_origin_among(devices, from, devices.len() as int, b);
    assert(is_origin(devices, from, best));
}

/// The device at `b` is the origin if only the first `n` devices count.
pub open spec fn is_origin_among(devices: Seq<DeviceView>, from: CordId, n: int, b: int) -> bool {
    &&& 0 <= b < n
    &&& devices[b].vcp.c_id is Some
    &&& forall|j: int|
        0 <= j < n && (#[trigger] devices[j]).vcp.c_id is Some ==> {
            let here = distance(devices[b].vcp.c_id.unwrap(), from);
            let there = distance(devices[j].vcp.c_id.unwrap(), from);
            here < there || (here == there && b <= j)
        }
}

/// Among the first `n` devices, of which the one at `first` has a position,
/// one is the origin.
pub proof fn lemma_best_origin(devices: Seq<DeviceView>, from: CordId, n: int, first: int)
    requires
        0 <= first < n <= devices.len(),
        devices[first].vcp.c_id is Some,
    ensures
        exists|b: int| is_origin_among(devices, from, n, b),
    decreases n,
{
    if first == n - 1 {
        if exists|i: int| 0 <= i < n - 1 && (#[trigger] devices[i]).vcp.c_id is Some {
            let earlier = choose|i: int| 0 <= i < n - 1 && (#[trigger] devices[i]).vcp.c_id is Some;
            let fewer = n - 1;
            lemma_best_origin(devices, from, fewer, earlier);
            let b = choose|b: int| is_origin_among(devices, from, fewer, b);
            lemma_extend_origin(devices, from, n, b);
        } else {
            assert(is_origin_among(devices, from, n, first));
        }
    } else {
        let fewer = n - 1;
        lemma_best_origin(devices, from, fewer, first);
        let b = choose|b: int| is_origin_among(devices, from, fewer, b);
        lemma_extend_origin(devices, from, n, b);
    }
}

/// The origin among the first `n - 1` devices, or the device at `n - 1`, is
/// the origin among the first `n`.
pub proof fn lemma_extend_origin(devices: Seq<DeviceView>, from: CordId, n: int, b: int)
    requires
        0 < n <= devices.len(),
        is_origin_among(devices, from, n - 1, b),
    ensures
        exists|c: int| is_origin_among(devices, from, n, c),
{
    let last = devices[n - 1];
    if last.vcp.c_id is Some && distance(last.vcp.c_id.unwrap(), from) < distance(
        devices[b].vcp.c_id.unwrap(),
        from,
    ) {
        assert(is_origin_among(devices, from, n, n - 1));
    } else {
        assert(is_origin_among(devices, from, n, b));
    }
}

impl VirtManager {
    /// Whether every engine of the network is well-formed.
    pub fn is_well_formed(&self) -> (ok: bool)
        ensures
            ok == self@.well_formed(),
    {
        let n: usize = self.devices.len();
        let mut i: usize = 0;
        while i < n
            invariant
                i <= n,
                n == self.devices@.len(),
                forall|j: int| 0 <= j < i ==> well_formed((#[trigger] self@.devices[j]).vcp),
            decreases n - i,
        {
            assert(self.devices@[i as int]@ == self@.devices[i as int]);
            if !self.devices[i].vcp.is_well_formed() {
                return false;
            }
            i = i + 1;
        }
        true
    }

    /// Whether every clock of the network is under `limit`.
    pub fn clocks_under(&self, limit: u64) -> (ok: bool)
        ensures
            ok == self@.clocks_below(limit as int),
    {
        let n: usize = self.devices.len();
        let mut i: usize = 0;
        while i < n
            invariant
                i <= n,
                n == self.devices@.len(),
                forall|j: int|
                    0 <= j < i ==> clock_below((#[trigger] self@.devices[j]).vcp, limit as int),
            decreases n - i,
        {
            assert(self.devices@[i as int]@ == self@.devices[i as int]);
            if !self.devices[i].vcp.clock_under(limit) {
                return false;
            }
            i = i + 1;
        }
        true
    }

    /// Whether some device has a position.
    pub fn has_position(&self) -> (ok: bool)
        ensures
            ok == exists|i: int|
                0 <= i < self@.devices.len() && (#[trigger] self@.devices[i]).vcp.c_id is Some,
    {
        let n: usize = self.devices.len();
        let mut i: usize = 0;
        while i < n
            invariant
                i <= n,
                n == self.devices@.len(),
                forall|j: int| 0 <= j < i ==> (#[trigger] self@.devices[j]).vcp.c_id is None,
            decreases n - i,
        {
            assert(self.devices@[i as int]@ == self@.devices[i as int]);
            if self.devices[i].vcp.c_id.is_some() {
                return true;
            }
            i = i + 1;
        }
        false
    }
}

} // verus!
