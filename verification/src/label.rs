use crate::packet::CordId;
use crate::text::{decimal, decimal_string};
use crate::vcp::{Vcp, VcpView};
use vstd::prelude::*;
use vstd::string::*;

verus! {

/// A link as text: the position that it names, or a question mark.
pub open spec fn link_text(link: Option<CordId>) -> Seq<char> {
    match link {
        Some(c) => decimal(c as nat),
        None => "?"@,
    }
}

/// The positions of the first `k` virtual nodes of a node, each followed by
/// a comma.
pub open spec fn virtual_list(v: VcpView, k: int) -> Seq<char>
    decreases k,
{
    if k <= 0 {
        Seq::empty()
    } else {
        virtual_list(v, k - 1) + decimal(v.virtual_nodes[k - 1].c_id.unwrap() as nat) + ","@
    }
}

/// The first line of the label of a node: a `v` if it is virtual, then its
/// position if it has one.
pub open spec fn label_head(v: VcpView) -> Seq<char> {
    let mark = if v.is_virtual {
        "v"@
    } else {
        Seq::empty()
    };
    match v.c_id {
        Some(c) => mark + decimal(c as nat),
        None => mark,
    }
}

/// The line of the label that lists the virtual nodes; empty for a node
/// without virtual nodes.
pub open spec fn label_virtual(v: VcpView) -> Seq<char> {
    if v.virtual_nodes.len() > 0 {
        "\nvirt{"@ + virtual_list(v, v.virtual_nodes.len() as int) + "}"@
    } else {
        Seq::empty()
    }
}

/// The label of a node: its position, its virtual nodes, and in a line of
/// their own its predecessor and successor.
pub open spec fn label(v: VcpView) -> Seq<char> {
    label_head(v) + label_virtual(v) + ":\np"@ + link_text(v.predecessor) + " s"@ + link_text(
        v.successor,
    )
}

/// Every virtual node of the node has a position.
pub open spec fn virtual_nodes_placed(v: VcpView) -> bool {
    forall|i: int| 0 <= i < v.virtual_nodes.len() ==> (#[trigger] v.virtual_nodes[i]).c_id is Some
}

/// Writes a link as text.
pub fn link_string(link: Option<CordId>) -> (text: String)
    ensures
        text@ == link_text(link),
{
    match link {
        Some(c) => decimal_string(c as u64),
        None => String::from_str("?"),
    }
}

impl Vcp {
    /// The label of the node, as a diagram shows it.
    pub fn to_string(&self) -> (text: String)
        requires
            virtual_nodes_placed(self@),
        ensures
            text@ == label(self@),
    {
        let mut text = String::new();
        if self.is_virtual {
            text.append("v");
        }
        if let Some(cid) = self.c_id {
            text.append(decimal_string(cid as u64).as_str());
        }
        assert(text@ =~= label_head(self@));
        let count: usize = self.virtual_nodes.len();
        if count > 0 {
            text.append("\nvirt{");
            let mut k: usize = 0;
            let ghost opened = text@;
            assert(opened + virtual_list(self@, 0) =~= opened);
            while k < count
                invariant
                    k <= count,
                    count == self.virtual_nodes@.len(),
                    count == self@.virtual_nodes.len(),
                    virtual_nodes_placed(self@),
                    text@ == opened + virtual_list(self@, k as int),
                decreases count - k,
            {
                let virt = &self.virtual_nodes[k];
                assert(virt@ == self@.virtual_nodes[k as int]);
                let cid: CordId = match virt.c_id {
                    Some(c) => c,
                    None => 0,
                };
                text.append(decimal_string(cid as u64).as_str());
                text.append(",");
                assert(text@ =~= opened + virtual_list(self@, k + 1));
                k = k + 1;
            }
            text.append("}");
            assert(text@ =~= label_head(self@) + label_virtual(self@));
        } else {
            assert(text@ =~= label_head(self@) + label_virtual(self@));
        }
        text.append(":\np");
        text.append(link_string(self.predecessor).as_str());
        text.append(" s");
        text.append(link_string(self.successor).as_str());
        assert(text@ =~= label(self@));
        text
    }
}

} // verus!
