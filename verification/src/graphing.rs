use crate::consistency::{engine_stations, stations, Station};
use crate::dummy::{DeviceView, VirtDevice, VirtManager};
use crate::graph::{
    add_edge, add_node, dot_text, edges_in, new_graph, nodes_in, render_content, text_views,
};
use crate::label::{label, virtual_nodes_placed};
use crate::packet::{CordId, DataView, Message, Packet, PacketView};
use crate::text::{decimal, decimal_string};
use crate::vcp::VcpView;
use petgraph::graph::Graph;
use vstd::prelude::*;
use vstd::string::*;

verus! {

/// Lays a network out as a graph: one node for each device, one edge for
/// each link of an engine that leads to an engine.
pub struct GraphViz {}

/// Which link an edge shows.
#[derive(Clone, Copy, Debug)]
pub enum LinkKind {
    Successor,
    Predecessor,
}

/// An edge of the graph, from the device that hosts the engine that names
/// the link to the device that hosts the engine that the link names.
#[derive(Clone, Copy, Debug)]
pub struct GraphEdge {
    pub from: usize,
    pub to: usize,
    pub kind: LinkKind,
}

/// Mathematical value of a [`GraphEdge`].
pub struct EdgeView {
    pub from: int,
    pub to: int,
    pub kind: LinkKind,
}

impl View for GraphEdge {
    type V = EdgeView;

    open spec fn view(&self) -> EdgeView {
        EdgeView { from: self.from as int, to: self.to as int, kind: self.kind }
    }
}

/// The values of a list of edges, in order.
pub open spec fn edge_views(edges: Seq<GraphEdge>) -> Seq<EdgeView> {
    Seq::new(edges.len(), |i: int| edges[i]@)
}

/// For each engine of the first `n` devices, in the order of
/// [`stations`], the index of the device that hosts it.
pub open spec fn hosts(devices: Seq<DeviceView>, n: int) -> Seq<int>
    decreases n,
{
    if n <= 0 {
        Seq::empty()
    } else {
        hosts(devices, n - 1) + Seq::new(engine_stations(devices[n - 1].vcp).len(), |i: int| n - 1)
    }
}

/// The index of the first engine from index `from` on that stands at `cid`.
pub open spec fn first_at(row: Seq<Station>, cid: CordId, from: int) -> Option<int>
    decreases row.len() - from,
{
    if from < 0 || from >= row.len() {
        None
    } else if row[from].c_id == Some(cid) {
        Some(from)
    } else {
        first_at(row, cid, from + 1)
    }
}

/// The link of the given kind that an engine names.
pub open spec fn link_of(station: Station, kind: LinkKind) -> Option<CordId> {
    match kind {
        LinkKind::Successor => station.successor,
        LinkKind::Predecessor => station.predecessor,
    }
}

/// The edge for one link of the engine at index `k`: none if the engine
/// does not name that link, or if no engine stands where it leads.
pub open spec fn link_edge(row: Seq<Station>, host: Seq<int>, k: int, kind: LinkKind) -> Seq<EdgeView> {
    match link_of(row[k], kind) {
        Some(cid) => match first_at(row, cid, 0) {
            Some(j) => seq![EdgeView { from: host[k], to: host[j], kind }],
            None => Seq::empty(),
        },
        None => Seq::empty(),
    }
}

/// The edges for the links of the first `k` engines: for each engine its
/// successor, then its predecessor.
pub open spec fn edges_of(row: Seq<Station>, host: Seq<int>, k: int) -> Seq<EdgeView>
    decreases k,
{
    if k <= 0 {
        Seq::empty()
    } else {
        edges_of(row, host, k - 1) + link_edge(row, host, k - 1, LinkKind::Successor) + link_edge(
            row,
            host,
            k - 1,
            LinkKind::Predecessor,
        )
    }
}

/// The edges of the graph of a network.
pub open spec fn graph_edges(devices: Seq<DeviceView>) -> Seq<EdgeView> {
    let row = stations(devices, devices.len() as int);
    edges_of(row, hosts(devices, devices.len() as int), row.len() as int)
}

/// The name that an edge carries in the graph.
pub open spec fn edge_name(kind: LinkKind) -> Seq<char> {
    match kind {
        LinkKind::Successor => "s"@,
        LinkKind::Predecessor => "p"@,
    }
}

/// An edge as the graph holds it: from where, to where, and its name.
pub open spec fn named(edge: EdgeView) -> (int, int, Seq<char>) {
    (edge.from, edge.to, edge_name(edge.kind))
}

/// The edges as the graph holds them.
pub open spec fn named_edges(edges: Seq<EdgeView>) -> Seq<(int, int, Seq<char>)> {
    Seq::new(edges.len(), |i: int| named(edges[i]))
}

/// The index of the first engine of the row that stands at `cid`.
pub fn find_first(row: &Vec<Station>, cid: CordId) -> (found: Option<usize>)
    ensures
        match found {
            Some(j) => first_at(row@, cid, 0) == Some(j as int) && j < row@.len(),
            None => first_at(row@, cid, 0) is None,
        },
{
    let mut j: usize = 0;
    while j < row.len()
        invariant
            j <= row@.len(),
            first_at(row@, cid, 0) == first_at(row@, cid, j as int),
        decreases row@.len() - j,
    {
        if let Some(c) = row[j].c_id {
            if c == cid {
                return Some(j);
            }
        }
        j = j + 1;
    }
    None
}

impl GraphViz {
    /// The labels of the nodes of the graph: for each device the label of
    /// its engine.
    pub fn node_labels(virt: &VirtManager) -> (labels: Vec<String>)
        requires
            forall|i: int|
                0 <= i < virt@.devices.len() ==> virtual_nodes_placed(
                    (#[trigger] virt@.devices[i]).vcp,
                ),
        ensures
            labels@.len() == virt@.devices.len(),
            forall|i: int|
                0 <= i < labels@.len() ==> (#[trigger] labels@[i])@ == label(virt@.devices[i].vcp),
    {
        let mut labels: Vec<String> = Vec::new();
        let n: usize = virt.devices.len();
        let mut i: usize = 0;
        while i < n
            invariant
                i <= n,
                n == virt.devices@.len(),
                labels@.len() == i,
                forall|j: int|
                    0 <= j < virt@.devices.len() ==> virtual_nodes_placed(
                        (#[trigger] virt@.devices[j]).vcp,
                    ),
                forall|j: int|
                    0 <= j < i ==> (#[trigger] labels@[j])@ == label(virt@.devices[j].vcp),
            decreases n - i,
        {
            let dev = &virt.devices[i];
            assert(virt@.devices[i as int] == dev@);
            labels.push(dev.vcp.to_string());
            i = i + 1;
        }
        labels
    }

    /// The edges of the graph.
    pub fn edges(virt: &VirtManager) -> (edges: Vec<GraphEdge>)
        ensures
            edge_views(edges@) == graph_edges(virt@.devices),
            forall|i: int|
                0 <= i < edges@.len() ==> (#[trigger] edges@[i]).from < virt@.devices.len()
                    && edges@[i].to < virt@.devices.len(),
    {
        let mut row: Vec<Station> = Vec::new();
        let mut host: Vec<usize> = Vec::new();
        let n: usize = virt.devices.len();
        let ghost devs = virt@.devices;
        let mut i: usize = 0;
        assert(Seq::new(host@.len(), |t: int| host@[t] as int) =~= hosts(devs, 0));
        while i < n
            invariant
                i <= n,
                n == virt.devices@.len(),
                devs == virt@.devices,
                row@ == stations(devs, i as int),
                host@.len() == row@.len(),
                Seq::new(host@.len(), |t: int| host@[t] as int) == hosts(devs, i as int),
                forall|t: int| 0 <= t < host@.len() ==> (#[trigger] host@[t]) < n,
            decreases n - i,
        {
            let dev = &virt.devices[i];
            assert(devs[i as int] == dev@);
            let ghost before = host@;
            dev.vcp.collect_stations(&mut row);
            while host.len() < row.len()
                invariant
                    i < n,
                    before.len() <= host@.len() <= row@.len(),
                    forall|t: int| 0 <= t < before.len() ==> host@[t] == before[t],
                    forall|t: int| before.len() <= t < host@.len() ==> host@[t] == i,
                    forall|t: int| 0 <= t < before.len() ==> (#[trigger] before[t]) < n,
                decreases row@.len() - host@.len(),
            {
                host.push(i);
            }
            assert(Seq::new(host@.len(), |t: int| host@[t] as int) =~= hosts(devs, i + 1));
            assert forall|t: int| 0 <= t < host@.len() implies (#[trigger] host@[t]) < n by {
                if t < before.len() {
                    assert(host@[t] == before[t]);
                }
            }
            i = i + 1;
        }
        let count: usize = row.len();
        let ghost owner = hosts(devs, n as int);
        let mut edges: Vec<GraphEdge> = Vec::new();
        let mut k: usize = 0;
        assert(edge_views(edges@) =~= edges_of(row@, owner, 0));
        while k < count
            invariant
                k <= count,
                count == row@.len(),
                host@.len() == count,
                owner == Seq::new(host@.len(), |t: int| host@[t] as int),
                forall|t: int| 0 <= t < host@.len() ==> (#[trigger] host@[t]) < n,
                n == virt@.devices.len(),
                edge_views(edges@) == edges_of(row@, owner, k as int),
                forall|t: int|
                    0 <= t < edges@.len() ==> (#[trigger] edges@[t]).from < n && edges@[t].to < n,
            decreases count - k,
        {
            let ghost before = edge_views(edges@);
            if let Some(cid) = row[k].successor {
                if let Some(j) = find_first(&row, cid) {
                    edges.push(GraphEdge { from: host[k], to: host[j], kind: LinkKind::Successor });
                }
            }
            assert(edge_views(edges@) =~= before + link_edge(
                row@,
                owner,
                k as int,
                LinkKind::Successor,
            ));
            let ghost between = edge_views(edges@);
            if let Some(cid) = row[k].predecessor {
                if let Some(j) = find_first(&row, cid) {
                    edges.push(GraphEdge { from: host[k], to: host[j], kind: LinkKind::Predecessor });
                }
            }
            assert(edge_views(edges@) =~= between + link_edge(
                row@,
                owner,
                k as int,
                LinkKind::Predecessor,
            ));
            k = k + 1;
        }
        edges
    }
}

/// One line for a piece of stored data: who sent it, and the text.
pub open spec fn data_line(data: DataView) -> Seq<char> {
    decimal(data.sender_cid as nat) + ": "@ + data.text + "\n"@
}

/// The lines for the first `k` pieces of a store.
pub open spec fn data_lines(store: Seq<DataView>, k: int) -> Seq<char>
    decreases k,
{
    if k <= 0 {
        Seq::empty()
    } else {
        data_lines(store, k - 1) + data_line(store[k - 1])
    }
}

/// The note on the data that a device has stored: a heading and one line
/// for each piece; none for a device without data.
pub open spec fn data_note(device: DeviceView) -> Option<Seq<char>> {
    if device.vcp.data_storage.len() == 0 {
        None
    } else {
        Some(
            "Data: \n"@ + data_lines(
                device.vcp.data_storage,
                device.vcp.data_storage.len() as int,
            ),
        )
    }
}

/// One line for a data packet on its way: from where to where, and the
/// text; nothing for any other packet.
pub open spec fn packet_line(p: PacketView) -> Seq<char> {
    match p.message {
        crate::packet::MessageView::Text(text) => "["@ + decimal(p.sender_cid.unwrap() as nat)
            + " -> "@ + decimal(p.final_cid.unwrap() as nat) + "] "@ + text + "\n"@,
        _ => Seq::empty(),
    }
}

/// The lines for the first `k` packets of a queue.
pub open spec fn packet_lines(queue: Seq<PacketView>, k: int) -> Seq<char>
    decreases k,
{
    if k <= 0 {
        Seq::empty()
    } else {
        packet_lines(queue, k - 1) + packet_line(queue[k - 1])
    }
}

/// The lines for the queues of the first `k` virtual nodes of an engine.
pub open spec fn virtual_packet_lines(v: VcpView, k: int) -> Seq<char>
    decreases k,
{
    if k <= 0 {
        Seq::empty()
    } else {
        virtual_packet_lines(v, k - 1) + packet_lines(
            v.virtual_nodes[k - 1].outgoing_msgs,
            v.virtual_nodes[k - 1].outgoing_msgs.len() as int,
        )
    }
}

/// The note on the data packets that wait in a device: one line for each
/// data packet in the queue of the device, then in the queues of its
/// virtual nodes; none for a device without such packets.
pub open spec fn packet_note(device: DeviceView) -> Option<Seq<char>> {
    let lines = packet_lines(device.vcp.outgoing_msgs, device.vcp.outgoing_msgs.len() as int)
        + virtual_packet_lines(device.vcp, device.vcp.virtual_nodes.len() as int);
    if lines.len() == 0 {
        None
    } else {
        Some(lines)
    }
}

/// Every data packet of the queue names its sender and its destination.
pub open spec fn data_packets_named(queue: Seq<PacketView>) -> bool {
    forall|i: int|
        0 <= i < queue.len() && (#[trigger] queue[i]).is_data() ==> queue[i].sender_cid is Some
            && queue[i].final_cid is Some
}

/// Every data packet that waits in the device, in its own queue or in the
/// queue of one of its virtual nodes, names its sender and its destination.
pub open spec fn notes_writable(device: DeviceView) -> bool {
    &&& data_packets_named(device.vcp.outgoing_msgs)
    &&& forall|k: int|
        0 <= k < device.vcp.virtual_nodes.len() ==> data_packets_named(
            (#[trigger] device.vcp.virtual_nodes[k]).outgoing_msgs,
        )
}

/// The notes of every device of the row can be written.
pub open spec fn all_notes_writable(devices: Seq<DeviceView>) -> bool {
    forall|i: int| 0 <= i < devices.len() ==> notes_writable(#[trigger] devices[i])
}

/// Adds the lines for the data packets of a queue to `text`; says whether
/// it added any.
pub fn write_packet_lines(queue: &Vec<Packet>, text: &mut String) -> (any: bool)
    requires
        data_packets_named(crate::packet::packet_views(queue@)),
    ensures
        final(text)@ == old(text)@ + packet_lines(
            crate::packet::packet_views(queue@),
            queue@.len() as int,
        ),
        any == (packet_lines(crate::packet::packet_views(queue@), queue@.len() as int).len() > 0),
{
    let ghost start = text@;
    let ghost views = crate::packet::packet_views(queue@);
    let mut any: bool = false;
    let mut k: usize = 0;
    assert(start + packet_lines(views, 0) =~= start);
    while k < queue.len()
        invariant
            k <= queue@.len(),
            views == crate::packet::packet_views(queue@),
            data_packets_named(views),
            text@ == start + packet_lines(views, k as int),
            any == (packet_lines(views, k as int).len() > 0),
        decreases queue@.len() - k,
    {
        let m = &queue[k];
        assert(views[k as int] == m@);
        let ghost before = text@;
        if let Message::Text(s) = &m.message {
            let sender: CordId = match m.sender_cid {
                Some(c) => c,
                None => 0,
            };
            let target: CordId = match m.final_cid {
                Some(c) => c,
                None => 0,
            };
            text.append("[");
            text.append(decimal_string(sender as u64).as_str());
            text.append(" -> ");
            text.append(decimal_string(target as u64).as_str());
            text.append("] ");
            text.append(s.as_str());
            text.append("\n");
            proof {
                reveal_strlit("\n");
                assert(packet_line(m@).len() > 0);
            }
            any = true;
        }
        assert(text@ =~= before + packet_line(m@));
        assert(text@ =~= start + packet_lines(views, k + 1));
        k = k + 1;
    }
    any
}

/// Whether every data packet of the queue names its sender and its
/// destination.
pub fn check_data_packets(queue: &Vec<Packet>) -> (ok: bool)
    ensures
        ok == data_packets_named(crate::packet::packet_views(queue@)),
{
    let ghost views = crate::packet::packet_views(queue@);
    let mut k: usize = 0;
    while k < queue.len()
        invariant
            k <= queue@.len(),
            views == crate::packet::packet_views(queue@),
            forall|i: int|
                0 <= i < k && (#[trigger] views[i]).is_data() ==> views[i].sender_cid is Some
                    && views[i].final_cid is Some,
        decreases queue@.len() - k,
    {
        let m = &queue[k];
        assert(views[k as int] == m@);
        if m.is_type_data() && (m.sender_cid.is_none() || m.final_cid.is_none()) {
            return false;
        }
        k = k + 1;
    }
    true
}

impl GraphViz {
    /// Whether the diagram of the network can be written: no device is
    /// left without coordinates, every virtual node has a position, every
    /// data packet that waits names its sender and its destination, and the
    /// graph has room for the devices and their links.
    pub fn can_draw(virt: &VirtManager, places: &Vec<String>) -> (ok: bool)
        ensures
            ok == {
                &&& all_notes_writable(virt@.devices)
                &&& forall|i: int|
                    0 <= i < virt@.devices.len() ==> virtual_nodes_placed(
                        (#[trigger] virt@.devices[i]).vcp,
                    )
                &&& virt@.devices.len() < u32::MAX
                &&& graph_edges(virt@.devices).len() < u32::MAX
                &&& places@.len() == virt@.devices.len()
            },
    {
        let n: usize = virt.devices.len();
        if places.len() != n || n >= u32::MAX as usize {
            return false;
        }
        let mut i: usize = 0;
        while i < n
            invariant
                i <= n,
                n == virt.devices@.len(),
                forall|j: int| 0 <= j < i ==> notes_writable(#[trigger] virt@.devices[j]),
                forall|j: int|
                    0 <= j < i ==> virtual_nodes_placed((#[trigger] virt@.devices[j]).vcp),
            decreases n - i,
        {
            let dev = &virt.devices[i];
            assert(virt@.devices[i as int] == dev@);
            if !check_data_packets(&dev.vcp.outgoing_msgs) {
                assert(!notes_writable(virt@.devices[i as int]));
                return false;
            }
            let count: usize = dev.vcp.virtual_nodes.len();
            let mut k: usize = 0;
            while k < count
                invariant
                    k <= count,
                    i < n,
                    n == virt.devices@.len(),
                    virt@.devices[i as int] == dev@,
                    count == dev.vcp.virtual_nodes@.len(),
                    count == dev@.vcp.virtual_nodes.len(),
                    forall|j: int|
                        0 <= j < k ==> data_packets_named(
                            (#[trigger] dev@.vcp.virtual_nodes[j]).outgoing_msgs,
                        ),
                    forall|j: int|
                        0 <= j < k ==> (#[trigger] dev@.vcp.virtual_nodes[j]).c_id is Some,
                decreases count - k,
            {
                let virt_node = &dev.vcp.virtual_nodes[k];
                assert(virt_node@ == dev@.vcp.virtual_nodes[k as int]);
                if virt_node.c_id.is_none() {
                    assert(!virtual_nodes_placed(virt@.devices[i as int].vcp));
                    return false;
                }
                if !check_data_packets(&virt_node.outgoing_msgs) {
                    assert(!notes_writable(virt@.devices[i as int]));
                    return false;
                }
                k = k + 1;
            }
            i = i + 1;
        }
        let edges = GraphViz::edges(virt);
        edges.len() < u32::MAX as usize
    }

    /// The network as a graph: one node for each device, which carries the
    /// label of its engine, and the edges of the links, each named `s` or
    /// `p` after its kind.
    pub fn build_graph(virt: &VirtManager) -> (g: Graph<String, String>)
        requires
            forall|i: int|
                0 <= i < virt@.devices.len() ==> virtual_nodes_placed(
                    (#[trigger] virt@.devices[i]).vcp,
                ),
            virt@.devices.len() < u32::MAX,
            graph_edges(virt@.devices).len() < u32::MAX,
        ensures
            nodes_in(g).len() == virt@.devices.len(),
            forall|i: int|
                0 <= i < virt@.devices.len() ==> #[trigger] nodes_in(g)[i] == label(
                    virt@.devices[i].vcp,
                ),
            edges_in(g) == named_edges(graph_edges(virt@.devices)),
    {
        let labels = GraphViz::node_labels(virt);
        let edges = GraphViz::edges(virt);
        let mut g = new_graph();
        let n: usize = labels.len();
        let mut i: usize = 0;
        while i < n
            invariant
                i <= n,
                n == labels@.len(),
                n < u32::MAX,
                nodes_in(g).len() == i,
                forall|j: int| 0 <= j < i ==> #[trigger] nodes_in(g)[j] == labels@[j]@,
                edges_in(g) == Seq::<(int, int, Seq<char>)>::empty(),
            decreases n - i,
        {
            add_node(&mut g, labels[i].clone());
            i = i + 1;
        }
        let count: usize = edges.len();
        let ghost planned = named_edges(edge_views(edges@));
        let mut k: usize = 0;
        assert(edges_in(g) =~= planned.take(0));
        while k < count
            invariant
                k <= count,
                count == edges@.len(),
                count < u32::MAX,
                n < u32::MAX,
                nodes_in(g).len() == n,
                forall|j: int| 0 <= j < n ==> #[trigger] nodes_in(g)[j] == labels@[j]@,
                forall|t: int|
                    0 <= t < edges@.len() ==> (#[trigger] edges@[t]).from < n && edges@[t].to < n,
                planned == named_edges(edge_views(edges@)),
                edges_in(g) == planned.take(k as int),
            decreases count - k,
        {
            let edge = &edges[k];
            let name = match edge.kind {
                LinkKind::Successor => String::from_str("s"),
                LinkKind::Predecessor => String::from_str("p"),
            };
            assert(name@ == edge_name(edge.kind));
            add_edge(&mut g, edge.from, edge.to, name);
            assert(edges_in(g) =~= planned.take(k + 1));
            k = k + 1;
        }
        assert(planned.take(count as int) =~= planned);
        g
    }

    /// The note on the data that a device has stored.
    pub fn data_label(dev: &VirtDevice) -> (note: Option<String>)
        ensures
            match note {
                Some(text) => data_note(dev@) == Some(text@),
                None => data_note(dev@) is None,
            },
    {
        let count: usize = dev.vcp.data_storage.len();
        if count == 0 {
            return None;
        }
        let ghost store = dev@.vcp.data_storage;
        let mut text = String::from_str("Data: \n");
        let ghost head = text@;
        let mut k: usize = 0;
        assert(head + data_lines(store, 0) =~= head);
        while k < count
            invariant
                k <= count,
                count == dev.vcp.data_storage@.len(),
                store == dev@.vcp.data_storage,
                text@ == head + data_lines(store, k as int),
            decreases count - k,
        {
            let m = &dev.vcp.data_storage[k];
            assert(store[k as int] == m@);
            let ghost before = text@;
            text.append(decimal_string(m.sender_cid as u64).as_str());
            text.append(": ");
            text.append(m.text.as_str());
            text.append("\n");
            assert(text@ =~= before + data_line(m@));
            assert(text@ =~= head + data_lines(store, k + 1));
            k = k + 1;
        }
        Some(text)
    }

    /// The note on the data packets that wait in a device.
    pub fn message_label(dev: &VirtDevice) -> (note: Option<String>)
        requires
            notes_writable(dev@),
        ensures
            match note {
                Some(text) => packet_note(dev@) == Some(text@),
                None => packet_note(dev@) is None,
            },
    {
        let mut text = String::new();
        let mut any: bool = write_packet_lines(&dev.vcp.outgoing_msgs, &mut text);
        let ghost own = text@;
        let ghost v = dev@.vcp;
        let count: usize = dev.vcp.virtual_nodes.len();
        let mut k: usize = 0;
        assert(own + virtual_packet_lines(v, 0) =~= own);
        while k < count
            invariant
                k <= count,
                count == dev.vcp.virtual_nodes@.len(),
                count == v.virtual_nodes.len(),
                v == dev@.vcp,
                notes_writable(dev@),
                text@ == own + virtual_packet_lines(v, k as int),
                any == (text@.len() > 0),
            decreases count - k,
        {
            let virt = &dev.vcp.virtual_nodes[k];
            assert(virt@ == v.virtual_nodes[k as int]);
            assert(data_packets_named(v.virtual_nodes[k as int].outgoing_msgs));
            let ghost before = text@;
            let more = write_packet_lines(&virt.outgoing_msgs, &mut text);
            any = any || more;
            assert(text@ =~= own + virtual_packet_lines(v, k + 1));
            k = k + 1;
        }
        if any {
            Some(text)
        } else {
            None
        }
    }
}

/// The attribute that puts a node at its place on the sheet.
pub open spec fn place_attribute(place: Seq<char>) -> Seq<char> {
    "pos = \""@ + place + "!\""@
}

/// The attributes of the nodes of the graph, one for each place.
pub open spec fn place_attributes(places: Seq<Seq<char>>) -> Seq<Seq<char>> {
    Seq::new(places.len(), |i: int| place_attribute(places[i]))
}

/// The node that shows the data packets waiting in the device at index `i`,
/// tied to the node of the device and put at its place.
pub open spec fn packet_node(i: nat, place: Seq<char>, note: Seq<char>) -> Seq<char> {
    "\n                msg"@ + decimal(i) + " -> "@ + decimal(i)
        + " [style=\"rounded,dotted\" dir=none]\n                msg"@ + decimal(i)
        + " \n                [ \n                    shape=box, \n                    color=blue\n                    _pos = \""@
        + place + "!\",\n                    label = \""@ + note + "\"]"@
}

/// The node that shows the data stored in the device at index `i`, tied to
/// the node of the device and put at its place.
pub open spec fn data_node(i: nat, place: Seq<char>, note: Seq<char>) -> Seq<char> {
    "\n                data"@ + decimal(i) + " -> "@ + decimal(i)
        + "[style=\"rounded,dotted\" dir=none]\n                data"@ + decimal(i)
        + " \n                [ \n                    shape=box, \n                    color=red\n                    _pos = \""@
        + place + "!\",\n                    label = \""@ + note + "\"]"@
}

/// The nodes for the waiting data packets of the first `k` devices.
pub open spec fn packet_nodes(devices: Seq<DeviceView>, places: Seq<Seq<char>>, k: int) -> Seq<char>
    decreases k,
{
    if k <= 0 {
        Seq::empty()
    } else {
        match packet_note(devices[k - 1]) {
            Some(note) => packet_nodes(devices, places, k - 1) + packet_node(
                (k - 1) as nat,
                places[k - 1],
                note,
            ),
            None => packet_nodes(devices, places, k - 1),
        }
    }
}

/// The nodes for the stored data of the first `k` devices.
pub open spec fn data_nodes(devices: Seq<DeviceView>, places: Seq<Seq<char>>, k: int) -> Seq<char>
    decreases k,
{
    if k <= 0 {
        Seq::empty()
    } else {
        match data_note(devices[k - 1]) {
            Some(note) => data_nodes(devices, places, k - 1) + data_node(
                (k - 1) as nat,
                places[k - 1],
                note,
            ),
            None => data_nodes(devices, places, k - 1),
        }
    }
}

/// The labels of the engines of the devices.
pub open spec fn device_labels(devices: Seq<DeviceView>) -> Seq<Seq<char>> {
    Seq::new(devices.len(), |i: int| label(devices[i].vcp))
}

/// The diagram of a network in the dot format: the graph of the devices
/// and their links as `petgraph` writes it, each device at its place,
/// then the nodes for the waiting data packets, then the nodes for the
/// stored data.
pub open spec fn diagram(devices: Seq<DeviceView>, places: Seq<Seq<char>>) -> Seq<char> {
    "digraph {\n "@ + dot_text(
        device_labels(devices),
        named_edges(graph_edges(devices)),
        place_attributes(places),
    ) + " \n"@ + packet_nodes(devices, places, devices.len() as int) + data_nodes(
        devices,
        places,
        devices.len() as int,
    ) + "\n }"@
}

impl GraphViz {
    /// Adds the nodes for the waiting data packets of all devices.
    pub fn get_data_messages(virt: &VirtManager, places: &Vec<String>, text: &mut String)
        requires
            all_notes_writable(virt@.devices),
            places@.len() == virt@.devices.len(),
        ensures
            final(text)@ == old(text)@ + packet_nodes(
                virt@.devices,
                text_views(places@),
                virt@.devices.len() as int,
            ),
    {
        let ghost start = text@;
        let ghost devs = virt@.devices;
        let ghost spots = text_views(places@);
        let n: usize = virt.devices.len();
        let mut i: usize = 0;
        assert(start + packet_nodes(devs, spots, 0) =~= start);
        while i < n
            invariant
                i <= n,
                n == virt.devices@.len(),
                n == places@.len(),
                devs == virt@.devices,
                spots == text_views(places@),
                all_notes_writable(virt@.devices),
                text@ == start + packet_nodes(devs, spots, i as int),
            decreases n - i,
        {
            let dev = &virt.devices[i];
            assert(devs[i as int] == dev@);
            assert(notes_writable(devs[i as int]));
            let ghost before = text@;
            if let Some(note) = GraphViz::message_label(dev) {
                let index = decimal_string(i as u64);
                text.append("\n                msg");
                text.append(index.as_str());
                text.append(" -> ");
                text.append(index.as_str());
                text.append(" [style=\"rounded,dotted\" dir=none]\n                msg");
                text.append(index.as_str());
                text.append(
                    " \n                [ \n                    shape=box, \n                    color=blue\n                    _pos = \"",
                );
                text.append(places[i].as_str());
                text.append("!\",\n                    label = \"");
                text.append(note.as_str());
                text.append("\"]");
                assert(text@ =~= before + packet_node(i as nat, spots[i as int], note@));
            }
            assert(text@ =~= start + packet_nodes(devs, spots, i + 1));
            i = i + 1;
        }
    }

    /// Adds the nodes for the stored data of all devices.
    pub fn get_data_storage(virt: &VirtManager, places: &Vec<String>, text: &mut String)
        requires
            places@.len() == virt@.devices.len(),
        ensures
            final(text)@ == old(text)@ + data_nodes(
                virt@.devices,
                text_views(places@),
                virt@.devices.len() as int,
            ),
    {
        let ghost start = text@;
        let ghost devs = virt@.devices;
        let ghost spots = text_views(places@);
        let n: usize = virt.devices.len();
        let mut i: usize = 0;
        assert(start + data_nodes(devs, spots, 0) =~= start);
        while i < n
            invariant
                i <= n,
                n == virt.devices@.len(),
                n == places@.len(),
                devs == virt@.devices,
                spots == text_views(places@),
                text@ == start + data_nodes(devs, spots, i as int),
            decreases n - i,
        {
            let dev = &virt.devices[i];
            assert(devs[i as int] == dev@);
            let ghost before = text@;
            if let Some(note) = GraphViz::data_label(dev) {
                let index = decimal_string(i as u64);
                text.append("\n                data");
                text.append(index.as_str());
                text.append(" -> ");
                text.append(index.as_str());
                text.append("[style=\"rounded,dotted\" dir=none]\n                data");
                text.append(index.as_str());
                text.append(
                    " \n                [ \n                    shape=box, \n                    color=red\n                    _pos = \"",
                );
                text.append(places[i].as_str());
                text.append("!\",\n                    label = \"");
                text.append(note.as_str());
                text.append("\"]");
                assert(text@ =~= before + data_node(i as nat, spots[i as int], note@));
            }
            assert(text@ =~= start + data_nodes(devs, spots, i + 1));
            i = i + 1;
        }
    }

    /// Writes the diagram of the network in the dot format; `places` holds
    /// for each device the text of its coordinates on the sheet.
    pub fn generate_graph(virt: &VirtManager, places: &Vec<String>) -> (text: String)
        requires
            all_notes_writable(virt@.devices),
            forall|i: int|
                0 <= i < virt@.devices.len() ==> virtual_nodes_placed(
                    (#[trigger] virt@.devices[i]).vcp,
                ),
            virt@.devices.len() < u32::MAX,
            graph_edges(virt@.devices).len() < u32::MAX,
            places@.len() == virt@.devices.len(),
        ensures
            text@ == diagram(virt@.devices, text_views(places@)),
    {
        let g = GraphViz::build_graph(virt);
        let n: usize = places.len();
        let mut attributes: Vec<String> = Vec::new();
        let mut i: usize = 0;
        while i < n
            invariant
                i <= n,
                n == places@.len(),
                attributes@.len() == i,
                forall|j: int|
                    0 <= j < i ==> (#[trigger] attributes@[j])@ == place_attribute(places@[j]@),
            decreases n - i,
        {
            let mut attribute = String::from_str("pos = \"");
            attribute.append(places[i].as_str());
            attribute.append("!\"");
            attributes.push(attribute);
            i = i + 1;
        }
        proof {
            assert(text_views(attributes@) =~= place_attributes(text_views(places@)));
            assert(nodes_in(g) =~= device_labels(virt@.devices));
        }
        let content = render_content(&g, &attributes);
        let mut text = String::from_str("digraph {\n ");
        text.append(content.as_str());
        text.append(" \n");
        GraphViz::get_data_messages(virt, places, &mut text);
        GraphViz::get_data_storage(virt, places, &mut text);
        text.append("\n }");
        text
    }
}

} // verus!
