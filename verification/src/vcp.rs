use crate::negotiation::{placement, Placement};
use crate::neighbors::{aged, next_hop, predecessor_of, successor_of, NeighborMap};
use crate::packet::{
    data_views, meant_for, packet_views, CordId, Data, DataView, Message, MessageView,
    NeighborInfo, Packet, PacketView, Receiver, END, START,
};
use vstd::prelude::*;
use vstd::string::*;

verus! {

/// The protocol engine of one node. A node owns the virtual nodes that it
/// was asked to create; they are engines of the same kind.
pub struct Vcp {
    /// The position. `None` means not assigned; 0 is the first device.
    pub c_id: Option<CordId>,
    pub debug_name: String,
    /// All packets that wait to be sent.
    pub outgoing_msgs: Vec<Packet>,
    pub predecessor: Option<CordId>,
    pub successor: Option<CordId>,
    pub neighbors: NeighborMap,
    /// The clock of the node.
    pub ticks: u64,
    pub virtual_nodes: Vec<Vcp>,
    pub is_virtual: bool,
    /// Data that was addressed to this node.
    pub data_storage: Vec<Data>,
}

/// Mathematical value of a [`Vcp`].
pub struct VcpView {
    pub c_id: Option<CordId>,
    pub debug_name: Seq<char>,
    pub outgoing_msgs: Seq<PacketView>,
    pub predecessor: Option<CordId>,
    pub successor: Option<CordId>,
    pub neighbors: Map<CordId, NeighborInfo>,
    pub ticks: u64,
    pub virtual_nodes: Seq<VcpView>,
    pub is_virtual: bool,
    pub data_storage: Seq<DataView>,
}

/// The value of a node: its own fields, and the values of its virtual nodes.
pub open spec fn value_of(node: Vcp) -> VcpView
    decreases node,
{
    VcpView {
        c_id: node.c_id,
        debug_name: node.debug_name@,
        outgoing_msgs: packet_views(node.outgoing_msgs@),
        predecessor: node.predecessor,
        successor: node.successor,
        neighbors: node.neighbors@,
        ticks: node.ticks,
        virtual_nodes: Seq::new(
            node.virtual_nodes@.len(),
            |i: int|
                if 0 <= i < node.virtual_nodes@.len() {
                    value_of(node.virtual_nodes@[i])
                } else {
                    arbitrary()
                },
        ),
        is_virtual: node.is_virtual,
        data_storage: data_views(node.data_storage@),
    }
}

impl View for Vcp {
    type V = VcpView;

    open spec fn view(&self) -> VcpView {
        value_of(*self)
    }
}

/// A node that has heard and sent nothing yet; the first node of a network
/// starts at position 0, every other one without a position.
pub open spec fn fresh(is_first: bool) -> VcpView {
    VcpView {
        c_id: if is_first {
            Some(START)
        } else {
            None
        },
        debug_name: Seq::empty(),
        outgoing_msgs: Seq::empty(),
        predecessor: None,
        successor: None,
        neighbors: Map::empty(),
        ticks: 0,
        virtual_nodes: Seq::empty(),
        is_virtual: false,
        data_storage: Seq::empty(),
    }
}

/// The virtual node that the node `host` creates at `position`.
pub open spec fn virtual_node(host: VcpView, position: CordId) -> VcpView {
    VcpView {
        c_id: Some(position),
        debug_name: "Virt "@ + host.debug_name,
        is_virtual: true,
        ..fresh(false)
    }
}

/// A broadcast packet from the node `src`.
pub open spec fn broadcast_from(src: VcpView, message: MessageView) -> PacketView {
    PacketView {
        receiver: Receiver::Broadcast,
        sender_name: src.debug_name,
        sender_cid: src.c_id,
        final_cid: None,
        message,
    }
}

/// A packet from the node `src` to the node at `dst`.
pub open spec fn unicast_from(src: VcpView, dst: CordId, message: MessageView) -> PacketView {
    PacketView {
        receiver: Receiver::Unicast(dst),
        sender_name: src.debug_name,
        sender_cid: src.c_id,
        final_cid: None,
        message,
    }
}

/// A packet from the node `src` to the node at `dst`, on its way to the node
/// at `final_dst`.
pub open spec fn data_from(src: VcpView, dst: CordId, final_dst: CordId, message: MessageView) -> PacketView {
    PacketView {
        receiver: Receiver::Unicast(dst),
        sender_name: src.debug_name,
        sender_cid: src.c_id,
        final_cid: Some(final_dst),
        message,
    }
}

/// The node with one more packet in its queue.
pub open spec fn queued(v: VcpView, packet: PacketView) -> VcpView {
    VcpView { outgoing_msgs: v.outgoing_msgs.push(packet), ..v }
}

/// The beacon by which a node advertises its links.
pub open spec fn hello_of(v: VcpView) -> PacketView {
    broadcast_from(
        v,
        MessageView::Hello(
            NeighborInfo {
                predecessor: v.predecessor,
                successor: v.successor,
                is_virtual: v.is_virtual,
                age: 0,
            },
        ),
    )
}

/// The node after it has carried out a placement: it holds its new position
/// and links, and the orders to the neighbors concerned are queued.
pub open spec fn placed(v: VcpView, decision: Placement) -> VcpView {
    match decision {
        Placement::AtStart { candidate } => {
            let at = VcpView { c_id: Some(START), successor: Some(candidate), ..v };
            queued(
                at,
                unicast_from(at, START, MessageView::SendUpdatePredecessor { new_position: candidate }),
            )
        },
        Placement::AtEnd { candidate } => {
            let at = VcpView { c_id: Some(END), predecessor: Some(candidate), ..v };
            queued(
                at,
                unicast_from(at, END, MessageView::SendUpdateSuccessor { new_position: candidate }),
            )
        },
        Placement::Between { upper, lower } => {
            let at = VcpView {
                c_id: Some(crate::negotiation::midpoint(upper, lower)),
                predecessor: Some(upper),
                successor: Some(lower),
                ..v
            };
            queued(
                queued(
                    at,
                    unicast_from(at, upper, MessageView::SendUpdateSuccessor { new_position: upper }),
                ),
                unicast_from(at, lower, MessageView::SendUpdatePredecessor { new_position: lower }),
            )
        },
        Placement::BesideVirtual { host, virtual_position } => {
            let at = VcpView {
                c_id: Some(crate::negotiation::midpoint(host, virtual_position)),
                predecessor: Some(host),
                successor: Some(virtual_position),
                ..v
            };
            queued(
                at,
                unicast_from(at, host, MessageView::CreateVirtualNode { virtual_position }),
            )
        },
    }
}

/// The node after one attempt to find a position: placed by the first rule
/// that its neighbor table allows, unchanged when none applies.
pub open spec fn spec_set_my_position(v: VcpView) -> VcpView {
    match placement(v.neighbors) {
        Some(decision) => placed(v, decision),
        None => v,
    }
}

/// Successor and predecessor of a node at `c_id` among its neighbors: the
/// nearest neighbor on each side; none for a node without a position.
pub open spec fn spec_links(c_id: Option<CordId>, n: Map<CordId, NeighborInfo>) -> (Option<CordId>, Option<CordId>) {
    match c_id {
        Some(c) => (successor_of(n, c), predecessor_of(n, c)),
        None => (None, None),
    }
}

/// What a node does with a packet that is meant for it.
pub open spec fn handled(v: VcpView, p: PacketView) -> VcpView {
    match p.message {
        MessageView::Text(text) => {
            let hop = next_hop(v.c_id.unwrap(), v.neighbors, p.final_cid.unwrap());
            if hop == v.c_id.unwrap() {
                VcpView {
                    data_storage: v.data_storage.push(
                        DataView { text, sender_cid: p.sender_cid.unwrap() },
                    ),
                    ..v
                }
            } else {
                queued(v, data_from(v, hop, p.final_cid.unwrap(), p.message))
            }
        },
        MessageView::Hello(info) => VcpView {
            neighbors: v.neighbors.insert(p.sender_cid.unwrap(), NeighborInfo { age: 0, ..info }),
            ..v
        },
        MessageView::SendUpdatePredecessor { new_position } => VcpView {
            c_id: Some(new_position),
            predecessor: p.sender_cid,
            ..v
        },
        MessageView::SendUpdateSuccessor { new_position } => VcpView {
            c_id: Some(new_position),
            successor: p.sender_cid,
            ..v
        },
        MessageView::CreateVirtualNode { virtual_position } => VcpView {
            virtual_nodes: v.virtual_nodes.push(virtual_node(v, virtual_position)),
            ..v
        },
    }
}

/// Whether the packet is data that comes to rest at the node although it
/// was sent to another position: it is meant for the node, and the node
/// knows no position closer to the destination than its own.
pub open spec fn dead_end(v: VcpView, p: PacketView) -> bool {
    &&& p.message is Text
    &&& meant_for(p.receiver, v.c_id)
    &&& v.c_id is Some
    &&& p.final_cid is Some
    &&& next_hop(v.c_id.unwrap(), v.neighbors, p.final_cid.unwrap()) == v.c_id.unwrap()
    &&& p.final_cid != v.c_id
}

/// Whether the packet is data that comes to rest, although it was sent to
/// another position, at the node or at one of the virtual nodes below it.
pub open spec fn strays(v: VcpView, p: PacketView) -> bool
    decreases v,
{
    ||| dead_end(v, p)
    ||| exists|i: int|
        0 <= i < v.virtual_nodes.len() && strays(#[trigger] v.virtual_nodes[i], p)
}

/// Whether one node, its virtual nodes left aside, can take the packet: a
/// beacon that is meant for it names its sender, and data that is meant for
/// it names sender and destination and finds the node with a position.
pub open spec fn node_accepts(v: VcpView, p: PacketView) -> bool {
    meant_for(p.receiver, v.c_id) ==> match p.message {
        MessageView::Hello(_) => p.sender_cid is Some,
        MessageView::Text(_) => v.c_id is Some && p.sender_cid is Some && p.final_cid is Some,
        _ => true,
    }
}

/// Whether the node and all the virtual nodes below it can take the packet.
pub open spec fn can_receive(v: VcpView, p: PacketView) -> bool
    decreases v,
{
    &&& node_accepts(v, p)
    &&& forall|i: int|
        0 <= i < v.virtual_nodes.len() ==> can_receive(#[trigger] v.virtual_nodes[i], p)
}

/// The virtual nodes of a node after each of them has received the packet.
pub open spec fn received_below(v: VcpView, p: PacketView) -> Seq<VcpView>
    decreases v, 0int,
{
    Seq::new(
        v.virtual_nodes.len(),
        |i: int|
            if 0 <= i < v.virtual_nodes.len() {
                spec_receive(v.virtual_nodes[i], p)
            } else {
                arbitrary()
            },
    )
}

/// The node after a packet arrived: first every virtual node that the node
/// owned on arrival has received it, then the node itself has dealt with it
/// if it is meant for it.
pub open spec fn spec_receive(v: VcpView, p: PacketView) -> VcpView
    decreases v, 1int,
{
    let below = VcpView { virtual_nodes: received_below(v, p), ..v };
    if meant_for(p.receiver, v.c_id) {
        handled(below, p)
    } else {
        below
    }
}

/// All packets that wait in the queues of the given nodes, node by node.
pub open spec fn collected(nodes: Seq<VcpView>) -> Seq<PacketView>
    decreases nodes.len(),
{
    if nodes.len() == 0 {
        Seq::empty()
    } else {
        collected(nodes.drop_last()) + nodes.last().outgoing_msgs
    }
}

/// The given nodes with empty queues.
pub open spec fn drained(nodes: Seq<VcpView>) -> Seq<VcpView> {
    Seq::new(nodes.len(), |i: int| VcpView { outgoing_msgs: Seq::empty(), ..nodes[i] })
}

/// One tick of a node, its virtual nodes left aside: the clock advances; a
/// node without a position tries to find one from its second tick on, a node
/// with a position queues a beacon; the neighbor table ages; the links are
/// derived anew from it.
pub open spec fn ticked_alone(v: VcpView) -> VcpView {
    let clock = (v.ticks + 1) as u64;
    let woken = VcpView { ticks: clock, ..v };
    let acted = if woken.c_id is None {
        if clock > 1 {
            spec_set_my_position(woken)
        } else {
            woken
        }
    } else {
        queued(woken, hello_of(woken))
    };
    let known = aged(acted.neighbors);
    let links = spec_links(acted.c_id, known);
    VcpView { neighbors: known, successor: links.0, predecessor: links.1, ..acted }
}

/// The virtual nodes of a node after each of them has ticked.
pub open spec fn ticked_below(v: VcpView) -> Seq<VcpView>
    decreases v, 0int,
{
    Seq::new(
        v.virtual_nodes.len(),
        |i: int|
            if 0 <= i < v.virtual_nodes.len() {
                spec_timer_call(v.virtual_nodes[i])
            } else {
                arbitrary()
            },
    )
}

/// One tick of a node: the node itself ticks, then each of its virtual nodes
/// ticks in turn and hands its queue over to the node.
pub open spec fn spec_timer_call(v: VcpView) -> VcpView
    decreases v, 1int,
{
    let own = ticked_alone(v);
    let below = ticked_below(v);
    VcpView {
        outgoing_msgs: own.outgoing_msgs + collected(below),
        virtual_nodes: drained(below),
        ..own
    }
}

/// Whether the clocks of the node and of all nodes below it are under
/// `limit`.
pub open spec fn clock_below(v: VcpView, limit: int) -> bool
    decreases v,
{
    &&& v.ticks < limit
    &&& forall|i: int|
        0 <= i < v.virtual_nodes.len() ==> clock_below(#[trigger] v.virtual_nodes[i], limit)
}

/// The node after it was asked to send `text` to the node at `final_cid`:
/// the data waits in its queue for the next hop, unless the node itself is
/// the closest one it knows.
pub open spec fn spec_send_text_data(v: VcpView, final_cid: CordId, text: Seq<char>) -> VcpView {
    let hop = next_hop(v.c_id.unwrap(), v.neighbors, final_cid);
    if hop == v.c_id.unwrap() {
        v
    } else {
        queued(v, data_from(v, hop, final_cid, MessageView::Text(text)))
    }
}

impl Packet {
    /// A broadcast packet from `src`.
    pub fn new(src: &Vcp, mesage: Message) -> (packet: Self)
        ensures
            packet@ == broadcast_from(src@, mesage@),
    {
        Packet {
            receiver: Receiver::Broadcast,
            sender_name: src.debug_name.clone(),
            sender_cid: src.c_id,
            final_cid: None,
            message: mesage,
        }
    }

    /// A packet from `src` to the node at `dst`.
    pub fn new_unicast(src: &Vcp, dst: CordId, mesage: Message) -> (packet: Self)
        ensures
            packet@ == unicast_from(src@, dst, mesage@),
    {
        Packet {
            receiver: Receiver::Unicast(dst),
            sender_name: src.debug_name.clone(),
            sender_cid: src.c_id,
            final_cid: None,
            message: mesage,
        }
    }

    /// A data packet from `src` to the node at `dst`, on its way to the node
    /// at `final_dst`.
    pub fn new_unicast_data(src: &Vcp, dst: CordId, final_dst: CordId, mesage: Message) -> (packet:
        Self)
        ensures
            packet@ == data_from(src@, dst, final_dst, mesage@),
    {
        Packet {
            receiver: Receiver::Unicast(dst),
            sender_name: src.debug_name.clone(),
            sender_cid: src.c_id,
            final_cid: Some(final_dst),
            message: mesage,
        }
    }

    /// The same packet, addressed to the node at `new_dst`.
    pub fn new_receiver(&self, new_dst: CordId) -> (packet: Packet)
        ensures
            packet@ == self@.readdressed(new_dst),
    {
        let mut new_pkt = self.clone();
        new_pkt.receiver = Receiver::Unicast(new_dst);
        new_pkt
    }

    /// Whether the packet carries application data.
    pub fn is_type_data(&self) -> (data: bool)
        ensures
            data == self@.is_data(),
    {
        match self.message {
            Message::Text(_) => true,
            _ => false,
        }
    }

    /// Whether the packet is meant for a node at `dst`: a unicast packet
    /// for its addressee, a broadcast for everyone.
    pub fn is_for(&self, dst: Option<CordId>) -> (meant: bool)
        ensures
            meant == meant_for(self.receiver, dst),
    {
        match self.receiver {
            Receiver::Unicast(cid) => match dst {
                Some(d) => d == cid,
                None => false,
            },
            Receiver::Broadcast => true,
        }
    }
}

} // verus!
