use petgraph::dot::{Config, Dot};
use petgraph::graph::{Graph, NodeIndex};
use vcp::dummy::{VirtDevice, VirtManager};
use vcp::graphing::GraphViz;
use vcp::packet::{Data, Message, Packet};
use vcp::vcp::Vcp;

fn device(at: (i32, i32), cid: u32, predecessor: Option<u32>, successor: Option<u32>) -> VirtDevice {
    let mut d = VirtDevice::new(false);
    d.position = at;
    d.vcp.c_id = Some(cid);
    d.vcp.predecessor = predecessor;
    d.vcp.successor = successor;
    d
}

fn places(mgr: &VirtManager) -> Vec<String> {
    mgr.devices
        .iter()
        .map(|d| format!("{},{}", d.position.0 as f64 / 3.0, d.position.1 as f64 / 3.0))
        .collect()
}

fn sample() -> VirtManager {
    let mut mgr = VirtManager::new();
    mgr.devices.push(device((2, -2), 0, None, Some(500)));
    mgr.devices.push(device((3, 6), 1000, Some(500), None));
    let asker = Vcp::new(true);
    mgr.devices[1].vcp.receive(&Packet::new_unicast(
        &asker,
        1000,
        Message::CreateVirtualNode { virtual_position: 500 },
    ));
    mgr.devices[1].vcp.virtual_nodes[0].predecessor = Some(0);
    mgr.devices[1].vcp.virtual_nodes[0].successor = Some(1000);
    mgr
}

#[test]
fn built_graph_holds_the_devices_and_their_links() {
    let mgr = sample();
    let g = GraphViz::build_graph(&mgr);
    assert_eq!(g.node_count(), 2);
    assert_eq!(g.edge_count(), 4);
    assert_eq!(g.node_weight(NodeIndex::new(0)).unwrap(), "0:\np? s500");
    assert_eq!(g.node_weight(NodeIndex::new(1)).unwrap(), "1000\nvirt{500,}:\np500 s?");
    let edges: Vec<(usize, usize, String)> = g
        .raw_edges()
        .iter()
        .map(|e| (e.source().index(), e.target().index(), e.weight.clone()))
        .collect();
    assert_eq!(
        edges,
        vec![
            (0, 1, String::from("s")),
            (1, 1, String::from("p")),
            (1, 1, String::from("s")),
            (1, 0, String::from("p")),
        ]
    );
}

#[test]
fn empty_network_gives_an_empty_graph() {
    let mgr = VirtManager::new();
    let g = GraphViz::build_graph(&mgr);
    assert_eq!(g.node_count(), 0);
    assert_eq!(g.edge_count(), 0);
    assert_eq!(GraphViz::generate_graph(&mgr, &Vec::new()), "digraph {\n  \n\n }");
}

#[test]
fn diagram_puts_every_device_at_its_place() {
    let mgr = sample();
    let mut g = Graph::<String, String>::new();
    g.add_node(String::from("0:\np? s500"));
    g.add_node(String::from("1000\nvirt{500,}:\np500 s?"));
    g.add_edge(NodeIndex::new(0), NodeIndex::new(1), String::from("s"));
    g.add_edge(NodeIndex::new(1), NodeIndex::new(1), String::from("p"));
    g.add_edge(NodeIndex::new(1), NodeIndex::new(1), String::from("s"));
    g.add_edge(NodeIndex::new(1), NodeIndex::new(0), String::from("p"));
    let spots = places(&mgr);
    let get_edge = |_, _b: petgraph::graph::EdgeReference<'_, String, _>| String::from("");
    let get_node = |_, b: (NodeIndex, &String)| format!("pos = \"{}!\"", spots[b.0.index()]);
    let dot_g = Dot::with_attr_getters(&g, &[Config::GraphContentOnly], &get_edge, &get_node);
    let expected = format!("digraph {{\n {} \n\n }}", dot_g);
    let text = GraphViz::generate_graph(&mgr, &spots);
    assert_eq!(text, expected);
    assert!(text.contains("pos = \"0.6666666666666666,-0.6666666666666666!\""));
    assert!(text.contains("pos = \"1,2!\""));
    assert!(text.contains("0 -> 1 [ label = \"s\" ]"));
}

#[test]
fn diagram_shows_waiting_packets_and_stored_data() {
    let mut mgr = sample();
    mgr.devices[0].vcp.neighbors.insert(
        1000,
        vcp::packet::NeighborInfo { predecessor: None, successor: None, is_virtual: false, age: 0 },
    );
    mgr.devices[0].vcp.send_text_data(900, String::from("on its way"));
    mgr.devices[1].vcp.data_storage.push(Data::new(String::from("kept"), 7));
    mgr.devices[1].vcp.data_storage.push(Data::new(String::from("too"), 8));
    let spots = places(&mgr);
    let text = GraphViz::generate_graph(&mgr, &spots);
    let packets = format!(
        r#"
                msg{i} -> {i} [style="rounded,dotted" dir=none]
                msg{i} 
                [ 
                    shape=box, 
                    color=blue
                    _pos = "{},{}!",
                    label = "[0 -> 900] on its way
"]"#,
        2.0 / 3.0,
        -2.0 / 3.0,
        i = 0
    );
    let data = format!(
        r#"
                data{i} -> {i}[style="rounded,dotted" dir=none]
                data{i} 
                [ 
                    shape=box, 
                    color=red
                    _pos = "{},{}!",
                    label = "Data: 
7: kept
8: too
"]"#,
        3.0 / 3.0,
        6.0 / 3.0,
        i = 1
    );
    let mut extras = String::new();
    GraphViz::get_data_messages(&mgr, &spots, &mut extras);
    assert_eq!(extras, packets);
    let mut stored = String::new();
    GraphViz::get_data_storage(&mgr, &spots, &mut stored);
    assert_eq!(stored, data);
    assert!(text.ends_with(&format!(" \n{}{}\n }}", packets, data)));
    assert!(text.starts_with("digraph {\n     0 [ label = \"0:"));
}

#[test]
fn a_network_is_checked_before_it_is_drawn() {
    let mut mgr = sample();
    let spots = places(&mgr);
    assert!(GraphViz::can_draw(&mgr, &spots));
    assert!(!GraphViz::can_draw(&mgr, &Vec::new()));
    mgr.devices[1].vcp.virtual_nodes[0].c_id = None;
    assert!(!GraphViz::can_draw(&mgr, &spots));
    mgr.devices[1].vcp.virtual_nodes[0].c_id = Some(500);
    let unplaced = Vcp::new(false);
    mgr.devices[0].vcp.outgoing_msgs.push(Packet::new(&unplaced, Message::Text(String::from("x"))));
    assert!(!GraphViz::can_draw(&mgr, &spots));
    mgr.devices[0].vcp.outgoing_msgs.clear();
    mgr.devices[0].vcp.outgoing_msgs.push(Packet::new(
        &unplaced,
        Message::SendUpdateSuccessor { new_position: 1 },
    ));
    assert!(GraphViz::can_draw(&mgr, &spots));
}
