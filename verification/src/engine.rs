use crate::negotiation::{halfway, negotiate, Placement};
use crate::neighbors::{age_all, aged, closest_to, nearest_above, nearest_below, next_hop};
use crate::packet::{
    data_views, packet_views, CordId, Data, Message, NeighborInfo, Packet, PacketView, END, START,
};
use crate::invariants::{queue_sound, well_formed};
use crate::vcp::{
    dead_end, node_accepts, can_receive, clock_below, collected, drained, fresh, queued,
    received_below, spec_links, spec_receive, spec_send_text_data, spec_set_my_position,
    spec_timer_call, ticked_alone, ticked_below, virtual_node, Vcp, VcpView,
};
use std::collections::BTreeMap;
use vstd::prelude::*;
use vstd::string::*;

verus! {

/// The values of a queue grow with the queue.
pub proof fn lemma_packet_views_push(queue: Seq<Packet>, packet: Packet)
    ensures
        packet_views(queue.push(packet)) == packet_views(queue).push(packet@),
{
    assert(packet_views(queue.push(packet)) =~= packet_views(queue).push(packet@));
}

/// The values of two queues put together.
pub proof fn lemma_packet_views_add(front: Seq<Packet>, back: Seq<Packet>)
    ensures
        packet_views(front + back) == packet_views(front) + packet_views(back),
{
    assert(packet_views(front + back) =~= packet_views(front) + packet_views(back));
}

/// The values of a store grow with the store.
pub proof fn lemma_data_views_push(store: Seq<Data>, data: Data)
    ensures
        data_views(store.push(data)) == data_views(store).push(data@),
{
    assert(data_views(store.push(data)) =~= data_views(store).push(data@));
}

impl Vcp {
    /// A node that has heard and sent nothing yet.
    pub fn new(is_first: bool) -> (node: Self)
        ensures
            node@ == fresh(is_first),
    {
        let id: Option<CordId> = if is_first {
            Some(START)
        } else {
            None
        };
        let node = Vcp {
            c_id: id,
            debug_name: String::new(),
            outgoing_msgs: Vec::new(),
            successor: None,
            predecessor: None,
            neighbors: BTreeMap::new(),
            ticks: 0,
            virtual_nodes: Vec::new(),
            is_virtual: false,
            data_storage: Vec::new(),
        };
        proof {
            assert(node@.outgoing_msgs =~= Seq::empty());
            assert(node@.virtual_nodes =~= Seq::empty());
            assert(node@.data_storage =~= Seq::empty());
        }
        node
    }

    /// Puts a copy of the packet into the queue.
    pub fn send(&mut self, packet: &Packet)
        ensures
            final(self)@ == queued(old(self)@, packet@),
    {
        let copy = packet.clone();
        proof {
            lemma_packet_views_push(self.outgoing_msgs@, copy);
        }
        self.outgoing_msgs.push(copy);
        proof {
            assert(self@.virtual_nodes =~= old(self)@.virtual_nodes);
        }
    }

    /// Successor and predecessor: the nearest neighbor on each side.
    pub fn calc_successor_predecessor(&self) -> (links: (Option<u32>, Option<u32>))
        ensures
            links == spec_links(self.c_id, self.neighbors@),
    {
        match self.c_id {
            Some(cid) => (nearest_above(&self.neighbors, cid), nearest_below(&self.neighbors, cid)),
            None => (None, None),
        }
    }

    /// The position, own or of a neighbor, to which data for `final_cid` goes
    /// next.
    pub fn calc_closesed_to_final(&self, final_cid: CordId) -> (hop: CordId)
        requires
            self.c_id is Some,
        ensures
            hop == next_hop(self.c_id.unwrap(), self.neighbors@, final_cid),
    {
        match self.c_id {
            Some(own) => closest_to(&self.neighbors, own, final_cid),
            None => START,
        }
    }

    /// Lets one tick pass over the neighbor table.
    pub fn update_neighbor_ages(&mut self)
        ensures
            final(self)@ == (VcpView { neighbors: aged(old(self)@.neighbors), ..old(self)@ }),
    {
        age_all(&mut self.neighbors);
        proof {
            assert(self@.virtual_nodes =~= old(self)@.virtual_nodes);
        }
    }

    /// Tries to find a position among the known neighbors and queues the
    /// orders that go with it.
    pub fn set_my_position(&mut self)
        ensures
            final(self)@ == spec_set_my_position(old(self)@),
    {
        match negotiate(&self.neighbors) {
            None => {},
            Some(Placement::AtStart { candidate }) => {
                self.c_id = Some(START);
                self.successor = Some(candidate);
                proof {
                    assert(self@.virtual_nodes =~= old(self)@.virtual_nodes);
                }
                let order = Packet::new_unicast(
                    self,
                    START,
                    Message::SendUpdatePredecessor { new_position: candidate },
                );
                self.send(&order);
            },
            Some(Placement::AtEnd { candidate }) => {
                self.c_id = Some(END);
                self.predecessor = Some(candidate);
                proof {
                    assert(self@.virtual_nodes =~= old(self)@.virtual_nodes);
                }
                let order = Packet::new_unicast(
                    self,
                    END,
                    Message::SendUpdateSuccessor { new_position: candidate },
                );
                self.send(&order);
            },
            Some(Placement::Between { upper, lower }) => {
                self.c_id = Some(halfway(upper, lower));
                self.predecessor = Some(upper);
                self.successor = Some(lower);
                proof {
                    assert(self@.virtual_nodes =~= old(self)@.virtual_nodes);
                }
                let first = Packet::new_unicast(
                    self,
                    upper,
                    Message::SendUpdateSuccessor { new_position: upper },
                );
                self.send(&first);
                let second = Packet::new_unicast(
                    self,
                    lower,
                    Message::SendUpdatePredecessor { new_position: lower },
                );
                self.send(&second);
            },
            Some(Placement::BesideVirtual { host, virtual_position }) => {
                self.c_id = Some(halfway(host, virtual_position));
                self.predecessor = Some(host);
                self.successor = Some(virtual_position);
                proof {
                    assert(self@.virtual_nodes =~= old(self)@.virtual_nodes);
                }
                let order = Packet::new_unicast(
                    self,
                    host,
                    Message::CreateVirtualNode { virtual_position },
                );
                self.send(&order);
            },
        }
    }

    /// Sends `text` on its way to the node at `final_cid`.
    pub fn send_text_data(&mut self, final_cid: CordId, text: String)
        requires
            old(self).c_id is Some,
        ensures
            final(self)@ == spec_send_text_data(old(self)@, final_cid, text@),
    {
        let next_receiver = self.calc_closesed_to_final(final_cid);
        let self_cid: CordId = match self.c_id {
            Some(c) => c,
            None => START,
        };
        if next_receiver != self_cid {
            let packet = Packet::new_unicast_data(
                self,
                next_receiver,
                final_cid,
                Message::Text(text),
            );
            self.send(&packet);
        }
    }
}

/// Collecting the queues of one node more.
pub proof fn lemma_collected_take(nodes: Seq<VcpView>, i: int)
    requires
        0 <= i < nodes.len(),
    ensures
        collected(nodes.take(i + 1)) == collected(nodes.take(i)) + nodes[i].outgoing_msgs,
{
    assert(nodes.take(i + 1).drop_last() =~= nodes.take(i));
}

impl Vcp {
    /// Takes a packet that arrived: the virtual nodes see it first, then the
    /// node deals with it if it is meant for it.
    pub fn receive(&mut self, packet: &Packet)
        requires
            can_receive(old(self)@, packet@),
        ensures
            final(self)@ == spec_receive(old(self)@, packet@),
        decreases old(self)@,
    {
        let n: usize = self.virtual_nodes.len();
        let mut i: usize = 0;
        while i < n
            invariant
                i <= n,
                n == old(self)@.virtual_nodes.len(),
                self.virtual_nodes@.len() == n,
                can_receive(old(self)@, packet@),
                self.c_id == old(self).c_id,
                self.debug_name == old(self).debug_name,
                self.outgoing_msgs == old(self).outgoing_msgs,
                self.predecessor == old(self).predecessor,
                self.successor == old(self).successor,
                self.neighbors == old(self).neighbors,
                self.ticks == old(self).ticks,
                self.is_virtual == old(self).is_virtual,
                self.data_storage == old(self).data_storage,
                forall|j: int|
                    i <= j < n ==> (#[trigger] self.virtual_nodes@[j])@ == old(
                        self,
                    )@.virtual_nodes[j],
                forall|j: int|
                    0 <= j < i ==> (#[trigger] self.virtual_nodes@[j])@ == spec_receive(
                        old(self)@.virtual_nodes[j],
                        packet@,
                    ),
            decreases n - i,
        {
            assert(self.virtual_nodes@[i as int]@ == old(self)@.virtual_nodes[i as int]);
            assert(decreases_to!(old(self)@ => old(self)@.virtual_nodes[i as int]));
            assert(can_receive(old(self)@.virtual_nodes[i as int], packet@));
            let kid = &mut self.virtual_nodes[i];
            kid.receive(packet);
            i = i + 1;
        }
        let ghost below = VcpView {
            virtual_nodes: received_below(old(self)@, packet@),
            ..old(self)@
        };
        proof {
            assert(self@.virtual_nodes =~= below.virtual_nodes);
            assert(self@ == below);
        }
        if !packet.is_for(self.c_id) {
            return ;
        }
        match &packet.message {
            Message::Text(msg) => {
                let final_cid: CordId = match packet.final_cid {
                    Some(c) => c,
                    None => START,
                };
                let self_cid: CordId = match self.c_id {
                    Some(c) => c,
                    None => START,
                };
                let sender_cid: CordId = match packet.sender_cid {
                    Some(c) => c,
                    None => START,
                };
                let next_receiver = self.calc_closesed_to_final(final_cid);
                if next_receiver == self_cid {
                    let data = Data::new(msg.clone(), sender_cid);
                    proof {
                        lemma_data_views_push(self.data_storage@, data);
                    }
                    self.data_storage.push(data);
                    proof {
                        assert(self@.virtual_nodes =~= below.virtual_nodes);
                    }
                } else {
                    let forward = Packet::new_unicast_data(
                        self,
                        next_receiver,
                        final_cid,
                        packet.message.clone(),
                    );
                    self.send(&forward);
                }
            },
            Message::Hello(neigh) => {
                let sender_cid: CordId = match packet.sender_cid {
                    Some(c) => c,
                    None => START,
                };
                self.neighbors.insert(
                    sender_cid,
                    NeighborInfo {
                        predecessor: neigh.predecessor,
                        successor: neigh.successor,
                        is_virtual: neigh.is_virtual,
                        age: 0,
                    },
                );
                proof {
                    assert(self@.virtual_nodes =~= below.virtual_nodes);
                }
            },
            Message::SendUpdatePredecessor { new_position } => {
                self.c_id = Some(*new_position);
                self.predecessor = packet.sender_cid;
                proof {
                    assert(self@.virtual_nodes =~= below.virtual_nodes);
                }
            },
            Message::SendUpdateSuccessor { new_position } => {
                self.c_id = Some(*new_position);
                self.successor = packet.sender_cid;
                proof {
                    assert(self@.virtual_nodes =~= below.virtual_nodes);
                }
            },
            Message::CreateVirtualNode { virtual_position } => {
                let mut new_vcp = Vcp::new(false);
                new_vcp.c_id = Some(*virtual_position);
                let mut name = String::from_str("Virt ");
                name.append(self.debug_name.as_str());
                new_vcp.debug_name = name;
                new_vcp.is_virtual = true;
                proof {
                    assert(new_vcp@.virtual_nodes =~= Seq::empty());
                    assert(new_vcp@.outgoing_msgs =~= Seq::empty());
                    assert(new_vcp@.data_storage =~= Seq::empty());
                    assert(new_vcp@ == virtual_node(below, *virtual_position));
                }
                let ghost made = new_vcp;
                self.virtual_nodes.push(new_vcp);
                proof {
                    assert(self@.virtual_nodes =~= below.virtual_nodes.push(made@));
                }
            },
        }
    }

    /// The periodic tick. It has to be called regularly.
    pub fn timer_call(&mut self)
        requires
            clock_below(old(self)@, u64::MAX as int),
        ensures
            final(self)@ == spec_timer_call(old(self)@),
        decreases old(self)@,
    {
        self.ticks += 1;
        proof {
            assert(self@.virtual_nodes =~= old(self)@.virtual_nodes);
        }
        if self.c_id.is_none() {
            if self.ticks > 1 {
                self.set_my_position();
            }
        } else {
            let hello = Packet::new(
                self,
                Message::Hello(
                    NeighborInfo {
                        predecessor: self.predecessor,
                        successor: self.successor,
                        is_virtual: self.is_virtual,
                        age: 0,
                    },
                ),
            );
            self.send(&hello);
        }
        self.update_neighbor_ages();
        let (s, p) = self.calc_successor_predecessor();
        self.successor = s;
        self.predecessor = p;
        proof {
            assert(self@.virtual_nodes =~= old(self)@.virtual_nodes);
            assert(self@ == (VcpView {
                virtual_nodes: old(self)@.virtual_nodes,
                ..ticked_alone(old(self)@)
            }));
        }
        let ghost own = ticked_alone(old(self)@);
        let ghost below = ticked_below(old(self)@);
        let n: usize = self.virtual_nodes.len();
        let mut i: usize = 0;
        assert(collected(below.take(0)) =~= Seq::empty());
        assert(own.outgoing_msgs + Seq::<PacketView>::empty() =~= own.outgoing_msgs);
        while i < n
            invariant
                i <= n,
                n == old(self)@.virtual_nodes.len(),
                self.virtual_nodes@.len() == n,
                clock_below(old(self)@, u64::MAX as int),
                own == ticked_alone(old(self)@),
                below.len() == n,
                forall|j: int|
                    0 <= j < n ==> #[trigger] below[j] == spec_timer_call(
                        old(self)@.virtual_nodes[j],
                    ),
                self.c_id == own.c_id,
                self.debug_name@ == own.debug_name,
                packet_views(self.outgoing_msgs@) == own.outgoing_msgs + collected(
                    below.take(i as int),
                ),
                self.predecessor == own.predecessor,
                self.successor == own.successor,
                self.neighbors@ == own.neighbors,
                self.ticks == own.ticks,
                self.is_virtual == own.is_virtual,
                data_views(self.data_storage@) == own.data_storage,
                forall|j: int|
                    i <= j < n ==> (#[trigger] self.virtual_nodes@[j])@ == old(
                        self,
                    )@.virtual_nodes[j],
                forall|j: int|
                    0 <= j < i ==> (#[trigger] self.virtual_nodes@[j])@ == drained(below)[j],
            decreases n - i,
        {
            assert(self.virtual_nodes@[i as int]@ == old(self)@.virtual_nodes[i as int]);
            assert(decreases_to!(old(self)@ => old(self)@.virtual_nodes[i as int]));
            assert(clock_below(old(self)@.virtual_nodes[i as int], u64::MAX as int));
            let ghost queue_before = self.outgoing_msgs@;
            let kid = &mut self.virtual_nodes[i];
            kid.timer_call();
            let ghost handed = kid.outgoing_msgs@;
            proof {
                assert(packet_views(handed) == below[i as int].outgoing_msgs);
                lemma_packet_views_add(queue_before, handed);
                lemma_collected_take(below, i as int);
            }
            self.outgoing_msgs.append(&mut kid.outgoing_msgs);
            proof {
                assert(packet_views(self.outgoing_msgs@) =~= own.outgoing_msgs + collected(
                    below.take(i + 1),
                ));
                assert(packet_views(kid.outgoing_msgs@) =~= Seq::empty());
                assert(kid@.virtual_nodes =~= below[i as int].virtual_nodes);
                assert(kid@ == drained(below)[i as int]);
            }
            i = i + 1;
        }
        proof {
            assert(below.take(n as int) =~= below);
            assert(self@.virtual_nodes =~= drained(below));
        }
    }
}

impl Packet {
    /// Whether the packet is one that a node queues by itself.
    pub fn is_sendable(&self) -> (ok: bool)
        ensures
            ok == self@.sendable(),
    {
        let unicast: bool = match self.receiver {
            crate::packet::Receiver::Unicast(_) => true,
            crate::packet::Receiver::Broadcast => false,
        };
        match self.message {
            Message::Hello(_) => self.sender_cid.is_some(),
            Message::Text(_) => unicast && self.sender_cid.is_some() && self.final_cid.is_some(),
            Message::CreateVirtualNode { .. } => unicast,
            _ => true,
        }
    }
}

impl Vcp {
    /// Whether the packet is data that the node would keep although it was
    /// sent to another position.
    pub fn is_dead_end(&self, packet: &Packet) -> (stray: bool)
        ensures
            stray == dead_end(self@, packet@),
    {
        if !packet.is_type_data() || !packet.is_for(self.c_id) {
            return false;
        }
        match (self.c_id, packet.final_cid) {
            (Some(own), Some(target)) => {
                let hop = self.calc_closesed_to_final(target);
                hop == own && target != own
            },
            _ => false,
        }
    }

    /// Whether the node and all the virtual nodes below it can take the
    /// packet.
    pub fn accepts(&self, packet: &Packet) -> (ok: bool)
        ensures
            ok == can_receive(self@, packet@),
        decreases self@,
    {
        if packet.is_for(self.c_id) {
            let complete: bool = match packet.message {
                Message::Hello(_) => packet.sender_cid.is_some(),
                Message::Text(_) => self.c_id.is_some() && packet.sender_cid.is_some()
                    && packet.final_cid.is_some(),
                _ => true,
            };
            if !complete {
                return false;
            }
        }
        assert(node_accepts(self@, packet@));
        let n: usize = self.virtual_nodes.len();
        let mut i: usize = 0;
        while i < n
            invariant
                i <= n,
                n == self.virtual_nodes@.len(),
                n == self@.virtual_nodes.len(),
                node_accepts(self@, packet@),
                forall|j: int| 0 <= j < i ==> can_receive(#[trigger] self@.virtual_nodes[j], packet@),
            decreases n - i,
        {
            assert(self.virtual_nodes@[i as int]@ == self@.virtual_nodes[i as int]);
            assert(decreases_to!(self@ => self@.virtual_nodes[i as int]));
            if !self.virtual_nodes[i].accepts(packet) {
                return false;
            }
            i = i + 1;
        }
        true
    }

    /// Whether the clocks of the node and of all nodes below it are under
    /// `limit`.
    pub fn clock_under(&self, limit: u64) -> (ok: bool)
        ensures
            ok == clock_below(self@, limit as int),
        decreases self@,
    {
        if self.ticks >= limit {
            return false;
        }
        let n: usize = self.virtual_nodes.len();
        let mut i: usize = 0;
        while i < n
            invariant
                i <= n,
                n == self.virtual_nodes@.len(),
                n == self@.virtual_nodes.len(),
                self.ticks < limit,
                forall|j: int|
                    0 <= j < i ==> clock_below(#[trigger] self@.virtual_nodes[j], limit as int),
            decreases n - i,
        {
            assert(self.virtual_nodes@[i as int]@ == self@.virtual_nodes[i as int]);
            assert(decreases_to!(self@ => self@.virtual_nodes[i as int]));
            if !self.virtual_nodes[i].clock_under(limit) {
                return false;
            }
            i = i + 1;
        }
        true
    }

    /// Whether the state of the node holds together.
    pub fn is_well_formed(&self) -> (ok: bool)
        ensures
            ok == well_formed(self@),
        decreases self@,
    {
        let count: usize = self.outgoing_msgs.len();
        let mut k: usize = 0;
        while k < count
            invariant
                k <= count,
                count == self.outgoing_msgs@.len(),
                count == self@.outgoing_msgs.len(),
                forall|j: int| 0 <= j < k ==> (#[trigger] self@.outgoing_msgs[j]).sendable(),
            decreases count - k,
        {
            assert(self.outgoing_msgs@[k as int]@ == self@.outgoing_msgs[k as int]);
            if !self.outgoing_msgs[k].is_sendable() {
                return false;
            }
            k = k + 1;
        }
        assert(queue_sound(self@.outgoing_msgs));
        let n: usize = self.virtual_nodes.len();
        if n > 0 && self.c_id.is_none() {
            return false;
        }
        let mut i: usize = 0;
        while i < n
            invariant
                i <= n,
                n == self.virtual_nodes@.len(),
                n == self@.virtual_nodes.len(),
                queue_sound(self@.outgoing_msgs),
                n > 0 ==> self@.c_id is Some,
                forall|j: int| 0 <= j < i ==> well_formed(#[trigger] self@.virtual_nodes[j]),
            decreases n - i,
        {
            assert(self.virtual_nodes@[i as int]@ == self@.virtual_nodes[i as int]);
            assert(decreases_to!(self@ => self@.virtual_nodes[i as int]));
            if !self.virtual_nodes[i].is_well_formed() {
                return false;
            }
            i = i + 1;
        }
        true
    }
}

} // verus!
