
use crate::packet::{meant_for, PacketView};
use crate::vcp::{
    can_receive, clock_below, collected, handled, queued, received_below, spec_receive,
    spec_send_text_data, spec_set_my_position, spec_timer_call, ticked_alone, ticked_below,
    VcpView,
};
use vstd::prelude::*;

verus! {

/// Every packet of the queue is one that a node queues by itself.
pub open spec fn queue_sound(queue: Seq<PacketView>) -> bool {
    forall|i: int| 0 <= i < queue.len() ==> (#[trigger] queue[i]).sendable()
}

/// The state of a node holds together: its queue is sound, it has a
/// position if it owns virtual nodes, and the same holds of each of them.
pub open spec fn well_formed(v: VcpView) -> bool
    decreases v,
{
    &&& queue_sound(v.outgoing_msgs)
    &&& v.virtual_nodes.len() > 0 ==> v.c_id is Some
    &&& forall|i: int|
        0 <= i < v.virtual_nodes.len() ==> well_formed(#[trigger] v.virtual_nodes[i])
}

/// A packet that a node queued by itself can be taken by every node.
pub proof fn lemma_sendable_is_received(v: VcpView, p: PacketView)
    requires
        p.sendable(),
    ensures
        can_receive(v, p),
    decreases v,
{
    assert forall|i: int| 0 <= i < v.virtual_nodes.len() implies can_receive(
        #[trigger] v.virtual_nodes[i],
        p,
    ) by {
        lemma_sendable_is_received(v.virtual_nodes[i], p);
    }
}

/// A node that was asked to send data stays well-formed.
pub proof fn lemma_send_text_data_well_formed(v: VcpView, final_cid: u32, text: Seq<char>)
    requires
        well_formed(v),
        v.c_id is Some,
    ensures
        well_formed(spec_send_text_data(v, final_cid, text)),
{
    let after = spec_send_text_data(v, final_cid, text);
    assert forall|i: int| 0 <= i < after.outgoing_msgs.len() implies (
    #[trigger] after.outgoing_msgs[i]).sendable() by {
        if i < v.outgoing_msgs.len() {
            assert(after.outgoing_msgs[i] == v.outgoing_msgs[i]);
        }
    }
    assert forall|i: int| 0 <= i < after.virtual_nodes.len() implies well_formed(
        #[trigger] after.virtual_nodes[i],
    ) by {
        assert(after.virtual_nodes[i] == v.virtual_nodes[i]);
    }
}

/// A well-formed node that takes a sendable packet stays well-formed.
pub proof fn lemma_receive_well_formed(v: VcpView, p: PacketView)
    requires
        well_formed(v),
        p.sendable(),
    ensures
        well_formed(spec_receive(v, p)),
    decreases v,
{
    let kids = received_below(v, p);
    assert forall|i: int| 0 <= i < kids.len() implies well_formed(#[trigger] kids[i]) by {
        assert(well_formed(v.virtual_nodes[i]));
        lemma_receive_well_formed(v.virtual_nodes[i], p);
    }
    let below = VcpView { virtual_nodes: kids, ..v };
    assert(well_formed(below));
    if meant_for(p.receiver, v.c_id) {
        let after = handled(below, p);
        assert forall|i: int| 0 <= i < after.outgoing_msgs.len() implies (
        #[trigger] after.outgoing_msgs[i]).sendable() by {
            if i < below.outgoing_msgs.len() {
                assert(after.outgoing_msgs[i] == below.outgoing_msgs[i]);
            }
        }
        assert forall|i: int| 0 <= i < after.virtual_nodes.len() implies well_formed(
            #[trigger] after.virtual_nodes[i],
        ) by {
            if i < below.virtual_nodes.len() {
                assert(after.virtual_nodes[i] == below.virtual_nodes[i]);
            } else {
                assert(after.virtual_nodes[i].virtual_nodes.len() == 0);
                assert(after.virtual_nodes[i].outgoing_msgs.len() == 0);
            }
        }
    }
}

/// The queues of well-formed nodes, put together, are sound.
pub proof fn lemma_collected_sound(nodes: Seq<VcpView>)
    requires
        forall|i: int| 0 <= i < nodes.len() ==> well_formed(#[trigger] nodes[i]),
    ensures
        queue_sound(collected(nodes)),
    decreases nodes.len(),
{
    if nodes.len() > 0 {
        assert forall|i: int| 0 <= i < nodes.drop_last().len() implies well_formed(
            #[trigger] nodes.drop_last()[i],
        ) by {
            assert(nodes.drop_last()[i] == nodes[i]);
        }
        lemma_collected_sound(nodes.drop_last());
        assert(well_formed(nodes.last()));
        let all = collected(nodes);
        assert forall|i: int| 0 <= i < all.len() implies (#[trigger] all[i]).sendable() by {
            let head = collected(nodes.drop_last());
            if i < head.len() {
                assert(all[i] == head[i]);
            } else {
                assert(all[i] == nodes.last().outgoing_msgs[i - head.len()]);
            }
        }
    }
}

/// A node that tried to find a position keeps a sound queue.
pub proof fn lemma_set_my_position_sound(v: VcpView)
    requires
        queue_sound(v.outgoing_msgs),
    ensures
        queue_sound(spec_set_my_position(v).outgoing_msgs),
{
    let after = spec_set_my_position(v);
    assert forall|i: int| 0 <= i < after.outgoing_msgs.len() implies (
    #[trigger] after.outgoing_msgs[i]).sendable() by {
        if i < v.outgoing_msgs.len() {
            assert(after.outgoing_msgs[i] == v.outgoing_msgs[i]);
        }
    }
}

/// A well-formed node stays well-formed over a tick.
pub proof fn lemma_timer_call_well_formed(v: VcpView)
    requires
        well_formed(v),
    ensures
        well_formed(spec_timer_call(v)),
    decreases v,
{
    let own = ticked_alone(v);
    let below = ticked_below(v);
    let after = spec_timer_call(v);
    assert forall|i: int| 0 <= i < below.len() implies well_formed(#[trigger] below[i]) by {
        assert(well_formed(v.virtual_nodes[i]));
        lemma_timer_call_well_formed(v.virtual_nodes[i]);
    }
    lemma_collected_sound(below);
    let woken = VcpView { ticks: (v.ticks + 1) as u64, ..v };
    lemma_set_my_position_sound(woken);
    assert forall|i: int| 0 <= i < own.outgoing_msgs.len() implies (
    #[trigger] own.outgoing_msgs[i]).sendable() by {
        if i < v.outgoing_msgs.len() {
            assert(own.outgoing_msgs[i] == v.outgoing_msgs[i]);
        }
    }
    assert forall|i: int| 0 <= i < after.outgoing_msgs.len() implies (
    #[trigger] after.outgoing_msgs[i]).sendable() by {
        if i < own.outgoing_msgs.len() {
            assert(after.outgoing_msgs[i] == own.outgoing_msgs[i]);
        } else {
            assert(after.outgoing_msgs[i] == collected(below)[i - own.outgoing_msgs.len()]);
        }
    }
    assert forall|i: int| 0 <= i < after.virtual_nodes.len() implies well_formed(
        #[trigger] after.virtual_nodes[i],
    ) by {
        let kid = below[i];
        assert(well_formed(kid));
        assert(after.virtual_nodes[i] == (VcpView { outgoing_msgs: Seq::empty(), ..kid }));
        assert forall|j: int| 0 <= j < kid.virtual_nodes.len() implies well_formed(
            #[trigger] after.virtual_nodes[i].virtual_nodes[j],
        ) by {
            assert(well_formed(kid.virtual_nodes[j]));
        }
    }
}

/// A tick advances every clock of a node by one.
pub proof fn lemma_timer_call_clock(v: VcpView, limit: int)
    requires
        clock_below(v, limit),
        limit <= u64::MAX,
    ensures
        clock_below(spec_timer_call(v), limit + 1),
    decreases v,
{
    let below = ticked_below(v);
    let after = spec_timer_call(v);
    assert forall|i: int| 0 <= i < after.virtual_nodes.len() implies clock_below(
        #[trigger] after.virtual_nodes[i],
        limit + 1,
    ) by {
        assert(clock_below(v.virtual_nodes[i], limit));
        lemma_timer_call_clock(v.virtual_nodes[i], limit);
        let kid = below[i];
        assert(clock_below(kid, limit + 1));
        assert forall|j: int| 0 <= j < kid.virtual_nodes.len() implies clock_below(
            #[trigger] after.virtual_nodes[i].virtual_nodes[j],
            limit + 1,
        ) by {
            assert(clock_below(kid.virtual_nodes[j], limit + 1));
        }
    }
}

/// Taking a packet leaves every clock of a node where it was; the clock of
/// a virtual node that the packet brings about stands at zero.
pub proof fn lemma_receive_clock(v: VcpView, p: PacketView, limit: int)
    requires
        clock_below(v, limit),
        limit >= 1,
    ensures
        clock_below(spec_receive(v, p), limit),
    decreases v,
{
    let kids = received_below(v, p);
    assert forall|i: int| 0 <= i < kids.len() implies clock_below(#[trigger] kids[i], limit) by {
        assert(clock_below(v.virtual_nodes[i], limit));
        lemma_receive_clock(v.virtual_nodes[i], p, limit);
    }
    let below = VcpView { virtual_nodes: kids, ..v };
    assert(clock_below(below, limit));
    if meant_for(p.receiver, v.c_id) {
        let after = handled(below, p);
        assert forall|i: int| 0 <= i < after.virtual_nodes.len() implies clock_below(
            #[trigger] after.virtual_nodes[i],
            limit,
        ) by {
            if i < below.virtual_nodes.len() {
                assert(after.virtual_nodes[i] == below.virtual_nodes[i]);
            } else {
                assert(after.virtual_nodes[i].virtual_nodes.len() == 0);
            }
        }
    }
}

} // verus!
