use vcp::consistency::{find_fault, Fault, Station};
use vcp::dummy::{VirtDevice, VirtManager};
use vcp::packet::{Message, Packet};
use vcp::simulator::within_reach;
use vcp::vcp::Vcp;

fn ticks(n: i32, mgr: &mut VirtManager) {
    for _ in 0..n {
        mgr.handle_messages();
    }
}

fn device(cid: Option<u32>, predecessor: Option<u32>, successor: Option<u32>) -> VirtDevice {
    let mut d = VirtDevice::new(false);
    d.vcp.c_id = cid;
    d.vcp.predecessor = predecessor;
    d.vcp.successor = successor;
    d
}

fn network(devices: Vec<VirtDevice>) -> VirtManager {
    let mut mgr = VirtManager::new();
    mgr.devices = devices;
    mgr
}

fn line() -> VirtManager {
    let mut mgr = VirtManager::new();
    for x in [0, 8, 16, 24] {
        mgr.add_device((x, 0));
        ticks(20, &mut mgr);
    }
    mgr
}

#[test]
fn it_works2() {
    let dev1 = VirtDevice::new(true);
    let dev2 = VirtDevice::new(false);
    assert_eq!(dev1.vcp.c_id, Some(0));
    assert_eq!(dev2.vcp.c_id, None);
}

#[test]
fn unicast() {
    let dev1 = VirtDevice::new(true);
    let dev2 = VirtDevice::new(false);
    assert_eq!(dev1.position, (0, 0));
    assert_eq!(dev2.position, (0, 0));
}

#[test]
fn dummy_complex_example() {
    let mut mgr = VirtManager::new();
    mgr.add_device((2, -2));
    ticks(10, &mut mgr);
    mgr.add_device((3, 5));
    ticks(10, &mut mgr);
    mgr.add_device((0, 14));
    ticks(10, &mut mgr);
    mgr.add_device((4, 20));

    ticks(10, &mut mgr);
    mgr.add_device((3, -8));
    ticks(20, &mut mgr);
    mgr.add_device((10, 8));
    ticks(30, &mut mgr);
    mgr.add_device((10, 4));
    ticks(30, &mut mgr);
    mgr.add_device((-7, 5));
    ticks(30, &mut mgr);
    assert!(mgr.find_inconsitency().is_none());
}

#[test]
fn new_network_is_empty_with_range_ten() {
    let mgr = VirtManager::new();
    assert!(mgr.devices.is_empty());
    assert_eq!(mgr.range, 10);
}

#[test]
fn first_device_starts_at_zero_and_has_ticked_once() {
    let mut mgr = VirtManager::new();
    mgr.add_device((2, -2));
    assert_eq!(mgr.devices.len(), 1);
    let d = &mgr.devices[0];
    assert_eq!(d.position, (2, -2));
    assert_eq!(d.vcp.c_id, Some(0));
    assert_eq!(d.vcp.debug_name, "Dev: 0");
    assert_eq!(d.vcp.ticks, 1);
    assert_eq!(d.vcp.outgoing_msgs.len(), 1);
    assert!(mgr.find_inconsitency().is_none());
}

#[test]
fn later_devices_start_without_a_position() {
    let mut mgr = VirtManager::new();
    mgr.add_device((0, 0));
    mgr.add_device((1, 1));
    let d = &mgr.devices[1];
    assert_eq!(d.vcp.c_id, None);
    assert_eq!(d.vcp.debug_name, "Dev: 1");
    assert_eq!(d.vcp.ticks, 1);
    assert!(d.vcp.outgoing_msgs.is_empty());
    assert_eq!(mgr.find_inconsitency(), Some(String::from("Some nodes don't have a valid cid")));
}

#[test]
fn two_devices_in_range_share_the_space() {
    let mut mgr = VirtManager::new();
    mgr.add_device((0, 0));
    mgr.add_device((3, 4));
    ticks(1, &mut mgr);
    assert_eq!(mgr.devices[1].vcp.c_id, Some(0));
    assert_eq!(mgr.find_inconsitency(), Some(String::from("Some cids are not unique")));
    ticks(1, &mut mgr);
    assert_eq!(mgr.devices[0].vcp.c_id, Some(1000));
    assert_eq!(mgr.find_inconsitency(), Some(String::from("Too many loose ends")));
    ticks(1, &mut mgr);
    for _ in 0..20 {
        assert_eq!(mgr.devices[0].vcp.c_id, Some(1000));
        assert_eq!(mgr.devices[0].vcp.predecessor, Some(0));
        assert_eq!(mgr.devices[0].vcp.successor, None);
        assert_eq!(mgr.devices[1].vcp.c_id, Some(0));
        assert_eq!(mgr.devices[1].vcp.successor, Some(1000));
        assert_eq!(mgr.devices[1].vcp.predecessor, None);
        assert!(mgr.find_inconsitency().is_none());
        ticks(1, &mut mgr);
    }
}

#[test]
fn three_devices_in_range_form_one_chain() {
    let mut mgr = VirtManager::new();
    mgr.add_device((0, 0));
    ticks(10, &mut mgr);
    mgr.add_device((3, 4));
    ticks(10, &mut mgr);
    mgr.add_device((6, 0));
    ticks(10, &mut mgr);
    assert!(mgr.find_inconsitency().is_none());
    let without_successor = mgr.devices.iter().filter(|d| d.vcp.successor.is_none()).count();
    let without_predecessor = mgr.devices.iter().filter(|d| d.vcp.predecessor.is_none()).count();
    assert_eq!(without_successor, 1);
    assert_eq!(without_predecessor, 1);
    let mut cids: Vec<u32> = mgr.devices.iter().map(|d| d.vcp.c_id.unwrap()).collect();
    cids.sort();
    assert_eq!(cids, vec![0, 500, 1000]);
}

#[test]
fn devices_out_of_range_never_learn_of_each_other() {
    let mut mgr = VirtManager::new();
    mgr.add_device((0, 0));
    mgr.add_device((11, 0));
    for _ in 0..60 {
        ticks(1, &mut mgr);
        assert!(mgr.devices[0].vcp.neighbors.is_empty());
        assert!(mgr.devices[1].vcp.neighbors.is_empty());
        assert_eq!(mgr.devices[0].vcp.c_id, Some(0));
        assert_eq!(mgr.devices[1].vcp.c_id, None);
    }
}

#[test]
fn range_includes_its_border() {
    assert!(within_reach((0, 0), (6, 8), 10));
    assert!(within_reach((0, 0), (10, 0), 10));
    assert!(!within_reach((0, 0), (6, 9), 10));
    assert!(!within_reach((0, 0), (-10, 1), 10));
    assert!(within_reach((5, 5), (5, 5), 0));
    assert!(!within_reach((i32::MIN, i32::MIN), (i32::MAX, i32::MAX), i32::MAX));
    assert!(within_reach((i32::MIN, 0), (i32::MIN + 3, 4), -5));
    let mut mgr = VirtManager::new();
    mgr.add_device((0, 0));
    mgr.add_device((10, 0));
    ticks(3, &mut mgr);
    assert_eq!(mgr.devices[1].vcp.c_id, Some(0));
    assert_eq!(mgr.devices[0].vcp.c_id, Some(1000));
}

#[test]
fn a_line_of_devices_converges() {
    let mgr = line();
    let cids: Vec<Option<u32>> = mgr.devices.iter().map(|d| d.vcp.c_id).collect();
    assert_eq!(cids, vec![Some(1000), Some(500), Some(250), Some(0)]);
    assert!(mgr.find_inconsitency().is_none());
    assert!(mgr.is_well_formed());
    assert!(mgr.clocks_under(100));
}

#[test]
fn data_travels_hop_by_hop_to_the_closest_device() {
    let mut mgr = line();
    mgr.send_text_data(0, 1000, String::from("a"));
    assert_eq!(mgr.devices[3].vcp.outgoing_msgs.len(), 2);
    ticks(2, &mut mgr);
    assert!(mgr.devices[0].vcp.data_storage.is_empty());
    ticks(1, &mut mgr);
    assert_eq!(mgr.devices[0].vcp.data_storage.len(), 1);
    assert_eq!(mgr.devices[0].vcp.data_storage[0].text, "a");
    assert_eq!(mgr.devices[0].vcp.data_storage[0].sender_cid, 500);
    ticks(5, &mut mgr);
    assert_eq!(mgr.devices[0].vcp.data_storage.len(), 1);
    for d in &mgr.devices[1..] {
        assert!(d.vcp.data_storage.is_empty());
    }
}

#[test]
fn data_for_a_place_between_devices_stops_at_the_nearest() {
    let mut mgr = line();
    mgr.send_text_data(999, 260, String::from("b"));
    ticks(4, &mut mgr);
    assert_eq!(mgr.devices[2].vcp.data_storage.len(), 1);
    assert_eq!(mgr.devices[2].vcp.data_storage[0].text, "b");
    assert_eq!(mgr.devices[2].vcp.data_storage[0].sender_cid, 500);
    assert!(mgr.devices[0].vcp.data_storage.is_empty());
    assert!(mgr.devices[1].vcp.data_storage.is_empty());
    assert!(mgr.devices[3].vcp.data_storage.is_empty());
}

#[test]
fn data_for_the_sender_itself_is_not_sent() {
    let mut mgr = line();
    let queued: Vec<usize> = mgr.devices.iter().map(|d| d.vcp.outgoing_msgs.len()).collect();
    mgr.send_text_data(490, 510, String::from("c"));
    let after: Vec<usize> = mgr.devices.iter().map(|d| d.vcp.outgoing_msgs.len()).collect();
    assert_eq!(queued, after);
}

#[test]
fn data_sets_out_from_the_device_closest_to_from() {
    let mut mgr = network(vec![
        device(None, None, None),
        device(Some(700), None, None),
        device(Some(300), None, None),
        device(Some(300), None, None),
    ]);
    mgr.devices[2].vcp.neighbors.insert(
        900,
        vcp::packet::NeighborInfo { predecessor: None, successor: None, is_virtual: false, age: 0 },
    );
    mgr.devices[3].vcp.neighbors.insert(
        900,
        vcp::packet::NeighborInfo { predecessor: None, successor: None, is_virtual: false, age: 0 },
    );
    assert_eq!(mgr.find_origin(0), Some(2));
    assert_eq!(mgr.find_origin(500), Some(1));
    assert_eq!(mgr.find_origin(501), Some(1));
    assert_eq!(mgr.find_origin(499), Some(2));
    assert_eq!(mgr.find_origin(u32::MAX), Some(1));
    mgr.send_text_data(10, 1000, String::from("x"));
    assert_eq!(mgr.devices[2].vcp.outgoing_msgs.len(), 1);
    assert!(mgr.devices[3].vcp.outgoing_msgs.is_empty());
    assert!(mgr.has_position());
    assert!(!network(vec![device(None, None, None)]).has_position());
    assert_eq!(network(vec![device(None, None, None)]).find_origin(5), None);
    assert_eq!(VirtManager::new().find_origin(5), None);
}

#[test]
fn data_for_a_virtual_node_is_handed_to_its_host() {
    let mut mgr = network(vec![device(Some(0), None, None), device(Some(1000), None, None)]);
    mgr.devices[1].position = (100, 100);
    let asker = {
        let mut v = Vcp::new(false);
        v.c_id = Some(900);
        v
    };
    mgr.devices[1].vcp.receive(&Packet::new_unicast(
        &asker,
        1000,
        Message::CreateVirtualNode { virtual_position: 500 },
    ));
    mgr.devices[0].vcp.neighbors.insert(
        500,
        vcp::packet::NeighborInfo { predecessor: None, successor: None, is_virtual: true, age: 0 },
    );
    mgr.devices[0].vcp.send_text_data(500, String::from("v"));
    let sends = mgr.collect_deliveries();
    assert_eq!(sends.len(), 1);
    assert_eq!(sends[0].from, 0);
    assert_eq!(sends[0].to, 1);
    assert!(matches!(sends[0].packet.receiver, vcp::packet::Receiver::Unicast(1000)));
    assert_eq!(sends[0].packet.final_cid, Some(500));
    ticks(1, &mut mgr);
    assert_eq!(mgr.devices[1].vcp.data_storage.len(), 1);
    assert_eq!(mgr.devices[1].vcp.data_storage[0].text, "v");
    assert_eq!(mgr.devices[1].vcp.data_storage[0].sender_cid, 0);
    assert!(mgr.devices[1].vcp.virtual_nodes[0].data_storage.is_empty());
}

#[test]
fn a_packet_for_a_virtual_node_reaches_it_through_its_host() {
    let mut mgr = network(vec![device(Some(0), None, None), device(Some(1000), None, None)]);
    mgr.devices[1].position = (3, 4);
    let asker = {
        let mut v = Vcp::new(false);
        v.c_id = Some(900);
        v
    };
    mgr.devices[1].vcp.receive(&Packet::new_unicast(
        &asker,
        1000,
        Message::CreateVirtualNode { virtual_position: 500 },
    ));
    let order = Packet::new_unicast(
        &mgr.devices[0].vcp,
        500,
        Message::SendUpdateSuccessor { new_position: 400 },
    );
    mgr.devices[0].vcp.send(&order);
    ticks(1, &mut mgr);
    assert_eq!(mgr.devices[1].vcp.c_id, Some(1000));
    assert_eq!(mgr.devices[1].vcp.virtual_nodes[0].c_id, Some(400));
    assert_eq!(mgr.devices[1].vcp.virtual_nodes[0].successor, None);
    assert!(!mgr.devices[0].vcp.neighbors.contains_key(&400));
    ticks(1, &mut mgr);
    assert!(mgr.devices[0].vcp.neighbors.contains_key(&400));
    assert!(mgr.devices[0].vcp.neighbors[&400].is_virtual);
}

#[test]
fn a_round_delivers_only_what_was_queued_before_it() {
    let mut mgr = VirtManager::new();
    mgr.add_device((0, 0));
    mgr.add_device((3, 4));
    ticks(1, &mut mgr);
    assert!(mgr.devices[0].vcp.neighbors.is_empty());
    assert_eq!(mgr.devices[0].vcp.c_id, Some(0));
    assert_eq!(mgr.devices[1].vcp.outgoing_msgs.len(), 1);
    assert_eq!(mgr.devices[0].vcp.outgoing_msgs.len(), 1);
    assert_eq!(mgr.devices[0].vcp.ticks, 2);
    assert_eq!(mgr.devices[1].vcp.ticks, 2);
}

#[test]
fn report_names_a_device_without_position() {
    let mgr = network(vec![device(Some(0), None, None), device(None, None, None)]);
    assert_eq!(mgr.find_inconsitency(), Some(String::from("Some nodes don't have a valid cid")));
}

#[test]
fn report_names_a_position_taken_twice() {
    let mgr = network(vec![device(Some(5), None, None), device(Some(5), None, None)]);
    assert_eq!(mgr.find_inconsitency(), Some(String::from("Some cids are not unique")));
}

#[test]
fn report_names_the_first_broken_link() {
    let mgr = network(vec![device(Some(5), Some(7), Some(9)), device(Some(6), Some(8), None)]);
    assert_eq!(mgr.find_inconsitency(), Some(String::from("5 successor does not exist")));
    let mgr = network(vec![device(Some(5), Some(7), Some(6)), device(Some(6), Some(5), None)]);
    assert_eq!(mgr.find_inconsitency(), Some(String::from("5 predecessor does not exist")));
    let mgr = network(vec![device(Some(1000), Some(0), None), device(Some(0), Some(4), Some(1))]);
    assert_eq!(mgr.find_inconsitency(), Some(String::from("0 successor does not exist")));
}

#[test]
fn report_names_loose_ends() {
    let mgr = network(vec![device(Some(5), None, None), device(Some(6), None, None)]);
    assert_eq!(mgr.find_inconsitency(), Some(String::from("Too many loose ends")));
    let mgr = network(vec![device(Some(5), Some(6), Some(6)), device(Some(6), Some(5), Some(5))]);
    assert_eq!(mgr.find_inconsitency(), Some(String::from("Too many loose ends")));
    let mgr = network(vec![device(Some(5), None, Some(6)), device(Some(6), None, Some(5))]);
    assert_eq!(mgr.find_inconsitency(), Some(String::from("Too many loose ends")));
    assert_eq!(VirtManager::new().find_inconsitency(), Some(String::from("Too many loose ends")));
}

#[test]
fn a_chain_is_consistent() {
    let mgr = network(vec![
        device(Some(500), Some(0), Some(1000)),
        device(Some(1000), Some(500), None),
        device(Some(0), None, Some(500)),
    ]);
    assert_eq!(mgr.find_inconsitency(), None);
    let mgr = network(vec![device(Some(3), None, None)]);
    assert_eq!(mgr.find_inconsitency(), None);
}

#[test]
fn virtual_nodes_count_as_engines() {
    let mut mgr = network(vec![device(Some(0), None, Some(500)), device(Some(1000), Some(500), None)]);
    assert_eq!(mgr.find_inconsitency(), Some(String::from("0 successor does not exist")));
    let asker = Vcp::new(true);
    mgr.devices[1].vcp.receive(&Packet::new_unicast(
        &asker,
        1000,
        Message::CreateVirtualNode { virtual_position: 500 },
    ));
    mgr.devices[1].vcp.virtual_nodes[0].predecessor = Some(0);
    mgr.devices[1].vcp.virtual_nodes[0].successor = Some(1000);
    assert_eq!(mgr.find_inconsitency(), None);
    let row = mgr.engines();
    assert_eq!(row.len(), 3);
    assert_eq!(row[1].c_id, Some(1000));
    assert_eq!(row[2].c_id, Some(500));
    mgr.devices[1].vcp.virtual_nodes[0].c_id = Some(0);
    assert_eq!(mgr.find_inconsitency(), Some(String::from("Some cids are not unique")));
}

#[test]
fn faults_are_found_in_order() {
    let row = vec![
        Station { c_id: Some(1), successor: Some(9), predecessor: None },
        Station { c_id: None, successor: None, predecessor: None },
        Station { c_id: Some(1), successor: None, predecessor: None },
    ];
    assert!(matches!(find_fault(&row), Some(Fault::Unplaced)));
    let row = vec![
        Station { c_id: Some(1), successor: Some(9), predecessor: None },
        Station { c_id: Some(1), successor: None, predecessor: None },
    ];
    assert!(matches!(find_fault(&row), Some(Fault::Duplicate)));
    let row = vec![
        Station { c_id: Some(1), successor: None, predecessor: None },
        Station { c_id: Some(2), successor: Some(1), predecessor: Some(3) },
        Station { c_id: Some(4), successor: Some(3), predecessor: None },
    ];
    assert!(matches!(find_fault(&row), Some(Fault::NoPredecessor(2))));
    assert_eq!(Fault::NoPredecessor(2).message(), "2 predecessor does not exist");
    assert_eq!(Fault::NoSuccessor(1000).message(), "1000 successor does not exist");
    assert_eq!(Fault::Unplaced.message(), "Some nodes don't have a valid cid");
    assert_eq!(Fault::Duplicate.message(), "Some cids are not unique");
    assert_eq!(Fault::LooseEnds.message(), "Too many loose ends");
}

#[test]
fn graph_has_a_node_for_each_device_and_an_edge_for_each_link() {
    let mut mgr = network(vec![
        device(Some(500), Some(0), Some(1000)),
        device(Some(1000), Some(500), None),
        device(Some(0), None, Some(700)),
    ]);
    let asker = Vcp::new(true);
    mgr.devices[1].vcp.receive(&Packet::new_unicast(
        &asker,
        1000,
        Message::CreateVirtualNode { virtual_position: 700 },
    ));
    mgr.devices[1].vcp.virtual_nodes[0].predecessor = Some(0);
    mgr.devices[1].vcp.virtual_nodes[0].successor = Some(9);
    let labels = vcp::graphing::GraphViz::node_labels(&mgr);
    assert_eq!(labels, vec!["500:\np0 s1000", "1000\nvirt{700,}:\np500 s?", "0:\np? s700"]);
    let edges = vcp::graphing::GraphViz::edges(&mgr);
    let plain: Vec<(usize, usize, bool)> = edges
        .iter()
        .map(|e| (e.from, e.to, matches!(e.kind, vcp::graphing::LinkKind::Successor)))
        .collect();
    assert_eq!(
        plain,
        vec![(0, 1, true), (0, 2, false), (1, 0, false), (1, 2, false), (2, 1, true)]
    );
    assert!(vcp::graphing::GraphViz::edges(&VirtManager::new()).is_empty());
}

#[test]
fn notes_list_stored_data_and_waiting_packets() {
    let mut mgr = line();
    assert_eq!(vcp::graphing::GraphViz::data_label(&mgr.devices[0]), None);
    assert_eq!(vcp::graphing::GraphViz::message_label(&mgr.devices[3]), None);
    mgr.send_text_data(0, 1000, String::from("a"));
    mgr.send_text_data(0, 600, String::from("b c"));
    assert_eq!(
        vcp::graphing::GraphViz::message_label(&mgr.devices[3]),
        Some(String::from("[0 -> 1000] a\n[0 -> 600] b c\n"))
    );
    ticks(4, &mut mgr);
    assert_eq!(
        vcp::graphing::GraphViz::data_label(&mgr.devices[0]),
        Some(String::from("Data: \n500: a\n"))
    );
    assert_eq!(
        vcp::graphing::GraphViz::data_label(&mgr.devices[1]),
        Some(String::from("Data: \n250: b c\n"))
    );
    assert_eq!(vcp::graphing::GraphViz::message_label(&mgr.devices[3]), None);
}

#[test]
fn stray_data_is_told_from_data_at_its_destination() {
    let mut node = Vcp::new(false);
    node.c_id = Some(500);
    let sender = Vcp::new(true);
    let at_home = Packet::new_unicast_data(&sender, 500, 500, Message::Text(String::from("x")));
    let stray = Packet::new_unicast_data(&sender, 500, 520, Message::Text(String::from("x")));
    let passing = Packet::new_unicast_data(&sender, 500, 900, Message::Text(String::from("x")));
    node.neighbors.insert(
        800,
        vcp::packet::NeighborInfo { predecessor: None, successor: None, is_virtual: false, age: 0 },
    );
    assert!(!node.is_dead_end(&at_home));
    assert!(node.is_dead_end(&stray));
    assert!(!node.is_dead_end(&passing));
    assert!(!node.is_dead_end(&Packet::new_unicast_data(&sender, 7, 520, Message::Text(String::new()))));
    assert!(!node.is_dead_end(&Packet::new_unicast(&sender, 500, Message::SendUpdateSuccessor { new_position: 1 })));
}
