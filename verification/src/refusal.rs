use crate::dummy::{spec_handle_messages, spec_send_text_data_from, ManagerView, VirtManager};
use crate::packet::{meant_for, CordId, Message, MessageView, Packet, PacketView};
use crate::vcp::{
    can_receive, clock_below, dead_end, spec_receive, spec_send_text_data, spec_timer_call,
    strays, Vcp, VcpView,
};
use vstd::prelude::*;
use vstd::string::*;

verus! {

/// Why an engine or a network does not carry out what it was asked to do.
#[derive(Clone, Copy, Debug)]
pub enum VcpError {
    /// Data arrived that does not name its destination.
    MissingDestination,
    /// The node has no position, and the operation needs one.
    Unassigned,
    /// A beacon or data arrived that does not name its sender.
    MissingSender,
    /// A clock has reached the greatest value that it can hold.
    ClockFull,
    /// An engine of the network is not well-formed.
    Malformed,
    /// No device of the network has a position.
    NoSender,
}

/// The report on an error.
pub open spec fn error_text(error: VcpError) -> Seq<char> {
    match error {
        VcpError::MissingDestination => "the data packet names no destination"@,
        VcpError::Unassigned => "the node has no position yet"@,
        VcpError::MissingSender => "the packet names no sender"@,
        VcpError::ClockFull => "a clock cannot advance any further"@,
        VcpError::Malformed => "an engine holds a packet that no engine queues"@,
        VcpError::NoSender => "no device has a position to send from"@,
    }
}

/// Why one node, its virtual nodes left aside, cannot take the packet; none
/// if it can. For data the destination is looked at first, then the node's
/// own position, then the sender.
pub open spec fn node_refusal(v: VcpView, p: PacketView) -> Option<VcpError> {
    if !meant_for(p.receiver, v.c_id) {
        None
    } else {
        match p.message {
            MessageView::Hello(_) => if p.sender_cid is None {
                Some(VcpError::MissingSender)
            } else {
                None
            },
            MessageView::Text(_) => if p.final_cid is None {
                Some(VcpError::MissingDestination)
            } else if v.c_id is None {
                Some(VcpError::Unassigned)
            } else if p.sender_cid is None {
                Some(VcpError::MissingSender)
            } else {
                None
            },
            _ => None,
        }
    }
}

/// Why the first `k` virtual nodes of a node cannot take the packet: the
/// reason of the first of them that cannot.
pub open spec fn refusal_below(v: VcpView, p: PacketView, k: int) -> Option<VcpError>
    decreases v, 0int, k,
{
    if k <= 0 || k > v.virtual_nodes.len() {
        None
    } else {
        match refusal_below(v, p, k - 1) {
            Some(error) => Some(error),
            None => refusal(v.virtual_nodes[k - 1], p),
        }
    }
}

/// Why a node cannot take the packet; none if it can. The virtual nodes
/// come first, in their order, then the node itself.
pub open spec fn refusal(v: VcpView, p: PacketView) -> Option<VcpError>
    decreases v, 1int, 0int,
{
    match refusal_below(v, p, v.virtual_nodes.len() as int) {
        Some(error) => Some(error),
        None => node_refusal(v, p),
    }
}

/// Why a network cannot play a round; none if it can. An engine that is
/// not well-formed comes before a clock that cannot advance.
pub open spec fn round_refusal(m: ManagerView) -> Option<VcpError> {
    if !m.well_formed() {
        Some(VcpError::Malformed)
    } else if !m.clocks_below(u64::MAX as int) {
        Some(VcpError::ClockFull)
    } else {
        None
    }
}

/// The first `k` virtual nodes are not refused exactly if each can take the
/// packet.
pub proof fn lemma_refusal_below(v: VcpView, p: PacketView, k: int)
    requires
        0 <= k <= v.virtual_nodes.len(),
    ensures
        refusal_below(v, p, k) is None <==> forall|i: int|
            0 <= i < k ==> can_receive(#[trigger] v.virtual_nodes[i], p),
    decreases v, 0int, k,
{
    if k > 0 {
        lemma_refusal_below(v, p, k - 1);
        lemma_refusal(v.virtual_nodes[k - 1], p);
        if refusal_below(v, p, k) is None {
            assert forall|i: int| 0 <= i < k implies can_receive(
                #[trigger] v.virtual_nodes[i],
                p,
            ) by {
                if i < k - 1 {
                }
            }
        }
    }
}

/// A node is not refused a packet exactly if it can take it.
pub proof fn lemma_refusal(v: VcpView, p: PacketView)
    ensures
        refusal(v, p) is None <==> can_receive(v, p),
    decreases v, 1int, 0int,
{
    lemma_refusal_below(v, p, v.virtual_nodes.len() as int);
}

impl VcpError {
    /// The report on the error.
    pub fn message(&self) -> (text: String)
        ensures
            text@ == error_text(*self),
    {
        match self {
            VcpError::MissingDestination => String::from_str("the data packet names no destination"),
            VcpError::Unassigned => String::from_str("the node has no position yet"),
            VcpError::MissingSender => String::from_str("the packet names no sender"),
            VcpError::ClockFull => String::from_str("a clock cannot advance any further"),
            VcpError::Malformed => String::from_str(
                "an engine holds a packet that no engine queues",
            ),
            VcpError::NoSender => String::from_str("no device has a position to send from"),
        }
    }
}

impl Vcp {
    /// Why the node cannot take the packet; none if it can.
    pub fn find_refusal(&self, packet: &Packet) -> (found: Option<VcpError>)
        ensures
            found == refusal(self@, packet@),
        decreases self@,
    {
        let n: usize = self.virtual_nodes.len();
        let mut i: usize = 0;
        while i < n
            invariant
                i <= n,
                n == self.virtual_nodes@.len(),
                n == self@.virtual_nodes.len(),
                refusal_below(self@, packet@, i as int) is None,
            decreases n - i,
        {
            assert(self.virtual_nodes@[i as int]@ == self@.virtual_nodes[i as int]);
            assert(decreases_to!(self@ => self@.virtual_nodes[i as int]));
            let below = self.virtual_nodes[i].find_refusal(packet);
            if below.is_some() {
                proof {
                    lemma_first_refusal(self@, packet@, i + 1, n as int);
                }
                return below;
            }
            i = i + 1;
        }
        if !packet.is_for(self.c_id) {
            return None;
        }
        match packet.message {
            Message::Hello(_) => if packet.sender_cid.is_none() {
                Some(VcpError::MissingSender)
            } else {
                None
            },
            Message::Text(_) => if packet.final_cid.is_none() {
                Some(VcpError::MissingDestination)
            } else if self.c_id.is_none() {
                Some(VcpError::Unassigned)
            } else if packet.sender_cid.is_none() {
                Some(VcpError::MissingSender)
            } else {
                None
            },
            _ => None,
        }
    }

    /// Whether the packet is data that would come to rest, although it was
    /// sent to another position, at the node or at a virtual node below it.
    pub fn finds_stray(&self, packet: &Packet) -> (stray: bool)
        ensures
            stray == strays(self@, packet@),
        decreases self@,
    {
        if self.is_dead_end(packet) {
            return true;
        }
        let n: usize = self.virtual_nodes.len();
        let mut i: usize = 0;
        while i < n
            invariant
                i <= n,
                n == self.virtual_nodes@.len(),
                n == self@.virtual_nodes.len(),
                !dead_end(self@, packet@),
                forall|j: int| 0 <= j < i ==> !strays(#[trigger] self@.virtual_nodes[j], packet@),
            decreases n - i,
        {
            assert(self.virtual_nodes@[i as int]@ == self@.virtual_nodes[i as int]);
            assert(decreases_to!(self@ => self@.virtual_nodes[i as int]));
            if self.virtual_nodes[i].finds_stray(packet) {
                return true;
            }
            i = i + 1;
        }
        false
    }

    /// Takes a packet that arrived, if the node can take it, and says
    /// whether data came to rest away from its destination; says why the
    /// packet cannot be taken otherwise, and leaves the node as it is.
    pub fn try_receive(&mut self, packet: &Packet) -> (done: Result<bool, VcpError>)
        ensures
            match done {
                Ok(stray) => {
                    &&& refusal(old(self)@, packet@) is None
                    &&& final(self)@ == spec_receive(old(self)@, packet@)
                    &&& stray == strays(old(self)@, packet@)
                },
                Err(error) => refusal(old(self)@, packet@) == Some(error) && final(self)@ == old(
                    self,
                )@,
            },
    {
        proof {
            lemma_refusal(self@, packet@);
        }
        match self.find_refusal(packet) {
            Some(error) => Err(error),
            None => {
                let stray = self.finds_stray(packet);
                self.receive(packet);
                Ok(stray)
            },
        }
    }

    /// Sends `text` on its way to the node at `final_cid`, if the node has a
    /// position.
    pub fn try_send_text_data(&mut self, final_cid: CordId, text: String) -> (done: Result<
        (),
        VcpError,
    >)
        ensures
            match done {
                Ok(_) => old(self).c_id is Some && final(self)@ == spec_send_text_data(
                    old(self)@,
                    final_cid,
                    text@,
                ),
                Err(error) => old(self).c_id is None && error is Unassigned && final(self)@ == old(
                    self,
                )@,
            },
    {
        if self.c_id.is_none() {
            return Err(VcpError::Unassigned);
        }
        self.send_text_data(final_cid, text);
        Ok(())
    }

    /// The periodic tick, if every clock of the node can still advance.
    pub fn try_timer_call(&mut self) -> (done: Result<(), VcpError>)
        ensures
            match done {
                Ok(_) => clock_below(old(self)@, u64::MAX as int) && final(self)@
                    == spec_timer_call(old(self)@),
                Err(error) => !clock_below(old(self)@, u64::MAX as int) && error is ClockFull
                    && final(self)@ == old(self)@,
            },
    {
        if !self.clock_under(u64::MAX) {
            return Err(VcpError::ClockFull);
        }
        self.timer_call();
        Ok(())
    }
}

impl VirtManager {
    /// One round of the network, if every engine is well-formed and every
    /// clock can still advance; says why not otherwise, and leaves the
    /// network as it is.
    pub fn try_handle_messages(&mut self) -> (done: Result<(), VcpError>)
        ensures
            match done {
                Ok(_) => {
                    &&& round_refusal(old(self)@) is None
                    &&& final(self)@ == spec_handle_messages(old(self)@)
                    &&& final(self)@.well_formed()
                },
                Err(error) => {
                    &&& round_refusal(old(self)@) == Some(error)
                    &&& final(self)@ == old(self)@
                },
            },
    {
        if !self.is_well_formed() {
            return Err(VcpError::Malformed);
        }
        if !self.clocks_under(u64::MAX) {
            return Err(VcpError::ClockFull);
        }
        self.handle_messages();
        Ok(())
    }

    /// Asks the device whose position is closest to `from` to send `text` to
    /// the node at `to`, if any device has a position.
    pub fn try_send_text_data(&mut self, from: u32, to: u32, text: String) -> (done: Result<
        (),
        VcpError,
    >)
        ensures
            match done {
                Ok(_) => final(self)@ == spec_send_text_data_from(old(self)@, from, to, text@)
                    && exists|i: int|
                    0 <= i < old(self)@.devices.len() && (#[trigger] old(
                        self,
                    )@.devices[i]).vcp.c_id is Some,
                Err(error) => error is NoSender && final(self)@ == old(self)@ && forall|i: int|
                    0 <= i < old(self)@.devices.len() ==> (#[trigger] old(
                        self,
                    )@.devices[i]).vcp.c_id is None,
            },
    {
        if !self.has_position() {
            return Err(VcpError::NoSender);
        }
        self.send_text_data(from, to, text);
        Ok(())
    }
}

/// Once one of the first virtual nodes is refused, that refusal stands for
/// all of them.
pub proof fn lemma_first_refusal(v: VcpView, p: PacketView, k: int, n: int)
    requires
        0 < k <= n <= v.virtual_nodes.len(),
        refusal_below(v, p, k) is Some,
    ensures
        refusal_below(v, p, n) == refusal_below(v, p, k),
    decreases n - k,
{
    if k < n {
        lemma_first_refusal(v, p, k, n - 1);
    }
}

} // verus!
