use vstd::prelude::*;

verus! {

/// A position in the shared virtual coordinate space.
pub type CordId = u32;

/// Lowest position of the coordinate space.
pub const START: CordId = 0;

/// Highest position of the coordinate space.
pub const END: CordId = 1000;

/// What a node remembers about one neighbor.
#[derive(Clone, Copy, Debug)]
pub struct NeighborInfo {
    pub predecessor: Option<CordId>,
    pub successor: Option<CordId>,
    pub is_virtual: bool,
    /// Ticks since the neighbor was last heard.
    pub age: u64,
}

/// Payload of a packet.
#[derive(Debug)]
pub enum Message {
    Hello(NeighborInfo),
    SendUpdatePredecessor { new_position: CordId },
    SendUpdateSuccessor { new_position: CordId },
    CreateVirtualNode { virtual_position: CordId },
    Text(String),
}

/// Mathematical value of a [`Message`].
pub enum MessageView {
    Hello(NeighborInfo),
    SendUpdatePredecessor { new_position: CordId },
    SendUpdateSuccessor { new_position: CordId },
    CreateVirtualNode { virtual_position: CordId },
    Text(Seq<char>),
}

impl View for Message {
    type V = MessageView;

    open spec fn view(&self) -> MessageView {
        match *self {
            Message::Hello(info) => MessageView::Hello(info),
            Message::SendUpdatePredecessor { new_position } => MessageView::SendUpdatePredecessor {
                new_position,
            },
            Message::SendUpdateSuccessor { new_position } => MessageView::SendUpdateSuccessor {
                new_position,
            },
            Message::CreateVirtualNode { virtual_position } => MessageView::CreateVirtualNode {
                virtual_position,
            },
            Message::Text(text) => MessageView::Text(text@),
        }
    }
}

impl Clone for Message {
    fn clone(&self) -> (copy: Self)
        ensures
            copy == *self,
    {
        match self {
            Message::Hello(info) => Message::Hello(*info),
            Message::SendUpdatePredecessor { new_position } => Message::SendUpdatePredecessor {
                new_position: *new_position,
            },
            Message::SendUpdateSuccessor { new_position } => Message::SendUpdateSuccessor {
                new_position: *new_position,
            },
            Message::CreateVirtualNode { virtual_position } => Message::CreateVirtualNode {
                virtual_position: *virtual_position,
            },
            Message::Text(text) => Message::Text(text.clone()),
        }
    }
}

/// Who a packet is meant for.
#[derive(Clone, Copy, Debug)]
pub enum Receiver {
    Broadcast,
    Unicast(CordId),
}

/// Whether a packet with this receiver is meant for a node at `dst`:
/// a broadcast is meant for everyone, a unicast for its addressee only.
pub open spec fn meant_for(receiver: Receiver, dst: Option<CordId>) -> bool {
    match receiver {
        Receiver::Broadcast => true,
        Receiver::Unicast(cid) => dst == Some(cid),
    }
}

/// A packet that is sent over the air.
#[derive(Debug)]
pub struct Packet {
    pub receiver: Receiver,
    pub sender_name: String,
    pub sender_cid: Option<CordId>,
    pub final_cid: Option<CordId>,
    pub message: Message,
}

/// Mathematical value of a [`Packet`].
pub struct PacketView {
    pub receiver: Receiver,
    pub sender_name: Seq<char>,
    pub sender_cid: Option<CordId>,
    pub final_cid: Option<CordId>,
    pub message: MessageView,
}

impl PacketView {
    /// The same packet readdressed to `new_dst`.
    pub open spec fn readdressed(self, new_dst: CordId) -> PacketView {
        PacketView { receiver: Receiver::Unicast(new_dst), ..self }
    }

    /// Whether the payload is application data.
    pub open spec fn is_data(self) -> bool {
        self.message is Text
    }

    /// What every packet that a node queues by itself satisfies: a beacon
    /// names its sender; data is unicast and names sender and destination; a
    /// request for a virtual node is unicast.
    pub open spec fn sendable(self) -> bool {
        match self.message {
            MessageView::Hello(_) => self.sender_cid is Some,
            MessageView::Text(_) => {
                &&& self.receiver is Unicast
                &&& self.sender_cid is Some
                &&& self.final_cid is Some
            },
            MessageView::CreateVirtualNode { .. } => self.receiver is Unicast,
            _ => true,
        }
    }
}

impl View for Packet {
    type V = PacketView;

    open spec fn view(&self) -> PacketView {
        PacketView {
            receiver: self.receiver,
            sender_name: self.sender_name@,
            sender_cid: self.sender_cid,
            final_cid: self.final_cid,
            message: self.message@,
        }
    }
}

impl Clone for Packet {
    fn clone(&self) -> (copy: Self)
        ensures
            copy == *self,
    {
        Packet {
            receiver: self.receiver,
            sender_name: self.sender_name.clone(),
            sender_cid: self.sender_cid,
            final_cid: self.final_cid,
            message: self.message.clone(),
        }
    }
}

/// The values of a queue of packets, in order.
pub open spec fn packet_views(queue: Seq<Packet>) -> Seq<PacketView> {
    Seq::new(queue.len(), |i: int| queue[i]@)
}

/// A piece of application data that reached its destination.
#[derive(Debug)]
pub struct Data {
    pub text: String,
    pub sender_cid: CordId,
}

/// Mathematical value of a [`Data`].
pub struct DataView {
    pub text: Seq<char>,
    pub sender_cid: CordId,
}

impl View for Data {
    type V = DataView;

    open spec fn view(&self) -> DataView {
        DataView { text: self.text@, sender_cid: self.sender_cid }
    }
}

impl Clone for Data {
    fn clone(&self) -> (copy: Self)
        ensures
            copy == *self,
    {
        Data { text: self.text.clone(), sender_cid: self.sender_cid }
    }
}

/// The values of a store of data items, in order.
pub open spec fn data_views(store: Seq<Data>) -> Seq<DataView> {
    Seq::new(store.len(), |i: int| store[i]@)
}

impl Data {
    /// A piece of data with its text and the position of its sender.
    pub fn new(ttext: String, ssender_cid: CordId) -> (data: Self)
        ensures
            data.text == ttext,
            data.sender_cid == ssender_cid,
    {
        Data { text: ttext, sender_cid: ssender_cid }
    }
}

} // verus!
