use vcp::add;
use vcp::negotiation::{halfway, negotiate, Placement};
use vcp::neighbors::{age_all, closest_to, gap, nearest_above, nearest_below, NeighborMap};
use vcp::packet::{Data, Message, NeighborInfo, Packet, Receiver, END, START};
use vcp::vcp::Vcp;

fn info(predecessor: Option<u32>, successor: Option<u32>, is_virtual: bool) -> NeighborInfo {
    NeighborInfo { predecessor, successor, is_virtual, age: 0 }
}

fn node_at(cid: u32) -> Vcp {
    let mut node = Vcp::new(false);
    node.c_id = Some(cid);
    node
}

fn hello_from(cid: u32, predecessor: Option<u32>, successor: Option<u32>) -> Packet {
    let sender = node_at(cid);
    Packet::new(&sender, Message::Hello(info(predecessor, successor, false)))
}

#[test]
fn it_works() {
    let result = add(2, 2);
    assert_eq!(result, 4);
}

#[test]
fn calc_successor_predecessor() {
    let mut slf = Vcp::new(false);
    slf.c_id = Some(50);

    let ni = NeighborInfo { predecessor: None, successor: None, is_virtual: false, age: 0 };
    slf.neighbors.insert(60, ni);
    slf.neighbors.insert(70, ni);
    slf.neighbors.insert(55, ni);
    slf.neighbors.insert(45, ni);
    slf.neighbors.insert(10, ni);
    let (s, p) = Vcp::calc_successor_predecessor(&slf);

    assert_eq!(s, Some(55));
    assert_eq!(p, Some(45));
}

#[test]
fn calc_successor_predecessor_virtual() {
    let mut slf = Vcp::new(false);
    slf.c_id = Some(50);

    let ni = NeighborInfo { predecessor: None, successor: None, is_virtual: true, age: 0 };
    slf.neighbors.insert(0, ni);
    slf.neighbors.insert(60, ni);
    slf.neighbors.insert(100, ni);
    let (s, p) = Vcp::calc_successor_predecessor(&slf);

    assert_eq!(s, Some(60));
    assert_eq!(p, Some(0));
}

#[test]
fn links_of_a_node_without_position_are_empty() {
    let mut node = Vcp::new(false);
    node.neighbors.insert(60, info(None, None, false));
    assert_eq!(node.calc_successor_predecessor(), (None, None));
}

#[test]
fn links_skip_a_neighbor_at_the_own_position() {
    let mut node = node_at(50);
    node.neighbors.insert(50, info(None, None, false));
    assert_eq!(node.calc_successor_predecessor(), (None, None));
    assert_eq!(nearest_above(&node.neighbors, 49), Some(50));
    assert_eq!(nearest_below(&node.neighbors, 51), Some(50));
}

#[test]
fn new_node_is_blank() {
    let first = Vcp::new(true);
    assert_eq!(first.c_id, Some(0));
    let later = Vcp::new(false);
    assert_eq!(later.c_id, None);
    assert_eq!(later.debug_name, "");
    assert!(later.outgoing_msgs.is_empty());
    assert_eq!(later.predecessor, None);
    assert_eq!(later.successor, None);
    assert!(later.neighbors.is_empty());
    assert_eq!(later.ticks, 0);
    assert!(later.virtual_nodes.is_empty());
    assert!(!later.is_virtual);
    assert!(later.data_storage.is_empty());
}

#[test]
fn halfway_rounds_down_and_does_not_overflow() {
    assert_eq!(halfway(0, 1000), 500);
    assert_eq!(halfway(1000, 0), 500);
    assert_eq!(halfway(3, 4), 3);
    assert_eq!(halfway(u32::MAX, u32::MAX), u32::MAX);
    assert_eq!(halfway(u32::MAX, u32::MAX - 1), u32::MAX - 1);
}

#[test]
fn gap_is_symmetric() {
    assert_eq!(gap(3, 10), 7);
    assert_eq!(gap(10, 3), 7);
    assert_eq!(gap(0, u32::MAX), u32::MAX);
    assert_eq!(gap(5, 5), 0);
}

#[test]
fn neighbor_at_start_without_successor_is_sent_to_end() {
    let mut n = NeighborMap::new();
    n.insert(START, info(None, None, false));
    match negotiate(&n) {
        Some(Placement::AtStart { candidate }) => assert_eq!(candidate, END),
        other => panic!("unexpected {:?}", other),
    }
}

#[test]
fn neighbor_at_start_with_successor_at_end_is_sent_to_the_middle() {
    let mut n = NeighborMap::new();
    n.insert(START, info(None, Some(END), false));
    match negotiate(&n) {
        Some(Placement::AtStart { candidate }) => assert_eq!(candidate, 500),
        other => panic!("unexpected {:?}", other),
    }
}

#[test]
fn neighbor_at_start_is_sent_halfway_to_its_successor() {
    let mut n = NeighborMap::new();
    n.insert(START, info(None, Some(301), false));
    match negotiate(&n) {
        Some(Placement::AtStart { candidate }) => assert_eq!(candidate, 150),
        other => panic!("unexpected {:?}", other),
    }
}

#[test]
fn start_rule_comes_before_end_rule() {
    let mut n = NeighborMap::new();
    n.insert(END, info(Some(0), None, false));
    n.insert(START, info(None, Some(END), false));
    assert!(matches!(negotiate(&n), Some(Placement::AtStart { candidate: 500 })));
}

#[test]
fn neighbor_at_end_is_sent_halfway_to_its_predecessor() {
    let mut n = NeighborMap::new();
    n.insert(END, info(Some(401), None, false));
    match negotiate(&n) {
        Some(Placement::AtEnd { candidate }) => assert_eq!(candidate, 700),
        other => panic!("unexpected {:?}", other),
    }
}

#[test]
fn neighbor_at_end_with_successor_at_start_is_sent_to_the_middle() {
    let mut n = NeighborMap::new();
    n.insert(END, info(Some(900), Some(START), false));
    match negotiate(&n) {
        Some(Placement::AtEnd { candidate }) => assert_eq!(candidate, 500),
        other => panic!("unexpected {:?}", other),
    }
}

#[test]
fn neighbor_at_end_without_predecessor_is_sent_to_start() {
    let mut n = NeighborMap::new();
    n.insert(END, info(None, None, false));
    match negotiate(&n) {
        Some(Placement::AtEnd { candidate }) => assert_eq!(candidate, START),
        other => panic!("unexpected {:?}", other),
    }
}

#[test]
fn linked_neighbors_make_room_between_them() {
    let mut n = NeighborMap::new();
    n.insert(200, info(None, Some(600), false));
    n.insert(600, info(Some(200), None, false));
    n.insert(800, info(Some(600), None, false));
    match negotiate(&n) {
        Some(Placement::Between { upper, lower }) => {
            assert_eq!(upper, 600);
            assert_eq!(lower, 200);
        },
        other => panic!("unexpected {:?}", other),
    }
}

#[test]
fn a_neighbor_that_names_itself_is_not_linked() {
    let mut n = NeighborMap::new();
    n.insert(200, info(Some(200), None, true));
    assert!(negotiate(&n).is_none());
}

#[test]
fn a_lone_neighbor_is_asked_for_a_virtual_node() {
    let mut n = NeighborMap::new();
    n.insert(100, info(None, Some(300), true));
    n.insert(200, info(Some(50), Some(600), false));
    match negotiate(&n) {
        Some(Placement::BesideVirtual { host, virtual_position }) => {
            assert_eq!(host, 200);
            assert_eq!(virtual_position, 400);
        },
        other => panic!("unexpected {:?}", other),
    }
}

#[test]
fn no_rule_applies_without_neighbors_or_without_a_host() {
    let n = NeighborMap::new();
    assert!(negotiate(&n).is_none());
    let mut n = NeighborMap::new();
    n.insert(200, info(None, None, false));
    n.insert(300, info(None, Some(400), true));
    assert!(negotiate(&n).is_none());
}

#[test]
fn set_my_position_takes_start_and_orders_the_neighbor_away() {
    let mut node = Vcp::new(false);
    node.debug_name = String::from("n");
    node.neighbors.insert(START, info(None, None, false));
    node.set_my_position();
    assert_eq!(node.c_id, Some(START));
    assert_eq!(node.successor, Some(END));
    assert_eq!(node.predecessor, None);
    assert_eq!(node.outgoing_msgs.len(), 1);
    let order = &node.outgoing_msgs[0];
    assert!(matches!(order.receiver, Receiver::Unicast(0)));
    assert_eq!(order.sender_cid, Some(START));
    assert_eq!(order.sender_name, "n");
    assert_eq!(order.final_cid, None);
    assert!(matches!(order.message, Message::SendUpdatePredecessor { new_position: 1000 }));
}

#[test]
fn set_my_position_takes_end() {
    let mut node = Vcp::new(false);
    node.neighbors.insert(END, info(Some(600), None, false));
    node.set_my_position();
    assert_eq!(node.c_id, Some(END));
    assert_eq!(node.predecessor, Some(800));
    assert_eq!(node.successor, None);
    assert_eq!(node.outgoing_msgs.len(), 1);
    let order = &node.outgoing_msgs[0];
    assert!(matches!(order.receiver, Receiver::Unicast(1000)));
    assert_eq!(order.sender_cid, Some(END));
    assert!(matches!(order.message, Message::SendUpdateSuccessor { new_position: 800 }));
}

#[test]
fn set_my_position_goes_between_linked_neighbors() {
    let mut node = Vcp::new(false);
    node.neighbors.insert(200, info(None, Some(600), false));
    node.neighbors.insert(600, info(Some(200), None, false));
    node.set_my_position();
    assert_eq!(node.c_id, Some(400));
    assert_eq!(node.predecessor, Some(600));
    assert_eq!(node.successor, Some(200));
    assert_eq!(node.outgoing_msgs.len(), 2);
    let first = &node.outgoing_msgs[0];
    assert!(matches!(first.receiver, Receiver::Unicast(600)));
    assert!(matches!(first.message, Message::SendUpdateSuccessor { new_position: 600 }));
    assert_eq!(first.sender_cid, Some(400));
    let second = &node.outgoing_msgs[1];
    assert!(matches!(second.receiver, Receiver::Unicast(200)));
    assert!(matches!(second.message, Message::SendUpdatePredecessor { new_position: 200 }));
    assert_eq!(second.sender_cid, Some(400));
}

#[test]
fn set_my_position_asks_for_a_virtual_node() {
    let mut node = Vcp::new(false);
    node.neighbors.insert(200, info(None, Some(600), false));
    node.set_my_position();
    assert_eq!(node.c_id, Some(300));
    assert_eq!(node.predecessor, Some(200));
    assert_eq!(node.successor, Some(400));
    assert_eq!(node.outgoing_msgs.len(), 1);
    let order = &node.outgoing_msgs[0];
    assert!(matches!(order.receiver, Receiver::Unicast(200)));
    assert!(matches!(order.message, Message::CreateVirtualNode { virtual_position: 400 }));
    assert_eq!(order.sender_cid, Some(300));
}

#[test]
fn set_my_position_stalls_without_a_rule() {
    let mut node = Vcp::new(false);
    node.neighbors.insert(200, info(None, None, false));
    node.set_my_position();
    assert_eq!(node.c_id, None);
    assert!(node.outgoing_msgs.is_empty());
    assert_eq!(node.neighbors.len(), 1);
}

#[test]
fn first_tick_of_an_unplaced_node_does_not_negotiate() {
    let mut node = Vcp::new(false);
    node.neighbors.insert(START, info(None, None, false));
    node.timer_call();
    assert_eq!(node.ticks, 1);
    assert_eq!(node.c_id, None);
    assert!(node.outgoing_msgs.is_empty());
    node.timer_call();
    assert_eq!(node.ticks, 2);
    assert_eq!(node.c_id, Some(START));
    assert_eq!(node.outgoing_msgs.len(), 1);
    assert_eq!(node.neighbors[&START].age, 2);
    assert_eq!(node.successor, None);
    assert_eq!(node.predecessor, None);
}

#[test]
fn tick_of_a_placed_node_queues_a_beacon_with_its_old_links() {
    let mut node = node_at(500);
    node.predecessor = Some(7);
    node.successor = Some(9);
    node.neighbors.insert(700, info(None, None, false));
    node.neighbors.insert(100, info(None, None, false));
    node.timer_call();
    assert_eq!(node.ticks, 1);
    assert_eq!(node.outgoing_msgs.len(), 1);
    let beacon = &node.outgoing_msgs[0];
    assert!(matches!(beacon.receiver, Receiver::Broadcast));
    assert_eq!(beacon.sender_cid, Some(500));
    assert_eq!(beacon.final_cid, None);
    match beacon.message {
        Message::Hello(advertised) => {
            assert_eq!(advertised.predecessor, Some(7));
            assert_eq!(advertised.successor, Some(9));
            assert!(!advertised.is_virtual);
            assert_eq!(advertised.age, 0);
        },
        _ => panic!("no beacon"),
    }
    assert_eq!(node.successor, Some(700));
    assert_eq!(node.predecessor, Some(100));
    assert_eq!(node.neighbors[&700].age, 1);
}

#[test]
fn neighbors_leave_after_five_ticks_without_a_beacon() {
    let mut node = node_at(500);
    node.receive(&hello_from(700, None, None));
    for expected in 1..5u64 {
        node.timer_call();
        assert_eq!(node.neighbors[&700].age, expected);
        assert_eq!(node.successor, Some(700));
    }
    node.timer_call();
    assert!(node.neighbors.is_empty());
    assert_eq!(node.successor, None);
}

#[test]
fn a_beacon_resets_the_age() {
    let mut node = node_at(500);
    node.receive(&hello_from(700, None, None));
    node.timer_call();
    node.timer_call();
    node.timer_call();
    assert_eq!(node.neighbors[&700].age, 3);
    node.receive(&hello_from(700, Some(500), None));
    assert_eq!(node.neighbors[&700].age, 0);
    assert_eq!(node.neighbors[&700].predecessor, Some(500));
    assert_eq!(node.neighbors.len(), 1);
}

#[test]
fn a_beacon_is_stored_with_age_zero_whatever_it_says() {
    let mut node = node_at(500);
    let sender = node_at(700);
    let beacon = Packet::new(
        &sender,
        Message::Hello(NeighborInfo {
            predecessor: None,
            successor: None,
            is_virtual: true,
            age: u64::MAX,
        }),
    );
    node.receive(&beacon);
    assert_eq!(node.neighbors[&700].age, 0);
    assert!(node.neighbors[&700].is_virtual);
}

#[test]
fn age_all_keeps_the_young_and_drops_the_old() {
    let mut n = NeighborMap::new();
    n.insert(1, NeighborInfo { predecessor: Some(9), successor: None, is_virtual: true, age: 0 });
    n.insert(2, NeighborInfo { predecessor: None, successor: None, is_virtual: false, age: 3 });
    n.insert(3, NeighborInfo { predecessor: None, successor: None, is_virtual: false, age: 4 });
    n.insert(4, NeighborInfo { predecessor: None, successor: None, is_virtual: false, age: u64::MAX });
    age_all(&mut n);
    assert_eq!(n.len(), 2);
    assert_eq!(n[&1].age, 1);
    assert_eq!(n[&1].predecessor, Some(9));
    assert!(n[&1].is_virtual);
    assert_eq!(n[&2].age, 4);
}

#[test]
fn unicast_for_another_node_is_ignored() {
    let mut node = node_at(500);
    let sender = node_at(700);
    let order = Packet::new_unicast(
        &sender,
        501,
        Message::SendUpdatePredecessor { new_position: 600 },
    );
    node.receive(&order);
    assert_eq!(node.c_id, Some(500));
    assert_eq!(node.predecessor, None);
}

#[test]
fn update_predecessor_moves_the_node_and_links_it() {
    let mut node = node_at(0);
    let sender = node_at(0);
    let order = Packet::new_unicast(&sender, 0, Message::SendUpdatePredecessor { new_position: 1000 });
    node.receive(&order);
    assert_eq!(node.c_id, Some(1000));
    assert_eq!(node.predecessor, Some(0));
    assert_eq!(node.successor, None);
}

#[test]
fn update_successor_moves_the_node_and_links_it() {
    let mut node = node_at(1000);
    let sender = node_at(1000);
    let order = Packet::new_unicast(&sender, 1000, Message::SendUpdateSuccessor { new_position: 500 });
    node.receive(&order);
    assert_eq!(node.c_id, Some(500));
    assert_eq!(node.successor, Some(1000));
    assert_eq!(node.predecessor, None);
}

#[test]
fn create_virtual_node_adds_an_engine() {
    let mut node = node_at(200);
    node.debug_name = String::from("Dev: 3");
    let sender = node_at(300);
    let order = Packet::new_unicast(&sender, 200, Message::CreateVirtualNode { virtual_position: 400 });
    node.receive(&order);
    assert_eq!(node.virtual_nodes.len(), 1);
    let virt = &node.virtual_nodes[0];
    assert_eq!(virt.c_id, Some(400));
    assert!(virt.is_virtual);
    assert_eq!(virt.debug_name, "Virt Dev: 3");
    assert_eq!(virt.ticks, 0);
    assert!(virt.neighbors.is_empty());
    assert!(virt.outgoing_msgs.is_empty());
    assert_eq!(node.c_id, Some(200));
}

#[test]
fn virtual_nodes_see_a_packet_before_their_host() {
    let mut node = node_at(200);
    let sender = node_at(300);
    node.receive(&Packet::new_unicast(&sender, 200, Message::CreateVirtualNode { virtual_position: 400 }));
    node.receive(&hello_from(700, None, None));
    assert!(node.neighbors.contains_key(&700));
    assert!(node.virtual_nodes[0].neighbors.contains_key(&700));
    node.receive(&Packet::new_unicast(&sender, 400, Message::SendUpdateSuccessor { new_position: 450 }));
    assert_eq!(node.c_id, Some(200));
    assert_eq!(node.virtual_nodes[0].c_id, Some(450));
    assert_eq!(node.virtual_nodes[0].successor, Some(300));
}

#[test]
fn tick_hands_the_queues_of_virtual_nodes_to_the_host() {
    let mut node = node_at(200);
    let sender = node_at(300);
    node.receive(&Packet::new_unicast(&sender, 200, Message::CreateVirtualNode { virtual_position: 400 }));
    node.timer_call();
    assert_eq!(node.outgoing_msgs.len(), 2);
    assert_eq!(node.outgoing_msgs[0].sender_cid, Some(200));
    assert_eq!(node.outgoing_msgs[1].sender_cid, Some(400));
    assert_eq!(node.outgoing_msgs[1].sender_name, "Virt ");
    match node.outgoing_msgs[1].message {
        Message::Hello(advertised) => assert!(advertised.is_virtual),
        _ => panic!("no beacon"),
    }
    assert!(node.virtual_nodes[0].outgoing_msgs.is_empty());
    assert_eq!(node.virtual_nodes[0].ticks, 1);
}

#[test]
fn closest_prefers_the_node_itself_and_then_the_lower_neighbor() {
    let mut n = NeighborMap::new();
    n.insert(40, info(None, None, false));
    n.insert(60, info(None, None, false));
    assert_eq!(closest_to(&n, 100, 50), 40);
    assert_eq!(closest_to(&n, 60, 50), 60);
    assert_eq!(closest_to(&n, 40, 50), 40);
    assert_eq!(closest_to(&n, 45, 50), 45);
    assert_eq!(closest_to(&n, 45, 61), 60);
    assert_eq!(closest_to(&NeighborMap::new(), 7, 900), 7);
}

#[test]
fn text_is_stored_by_the_closest_node() {
    let mut node = node_at(500);
    node.neighbors.insert(300, info(None, None, false));
    let sender = node_at(300);
    let packet = Packet::new_unicast_data(&sender, 500, 520, Message::Text(String::from("hi")));
    node.receive(&packet);
    assert_eq!(node.data_storage.len(), 1);
    assert_eq!(node.data_storage[0].text, "hi");
    assert_eq!(node.data_storage[0].sender_cid, 300);
    assert!(node.outgoing_msgs.is_empty());
}

#[test]
fn text_is_forwarded_to_a_closer_neighbor() {
    let mut node = node_at(500);
    node.debug_name = String::from("mid");
    node.neighbors.insert(300, info(None, None, false));
    node.neighbors.insert(700, info(None, None, false));
    let sender = node_at(300);
    let packet = Packet::new_unicast_data(&sender, 500, 900, Message::Text(String::from("hi")));
    node.receive(&packet);
    assert!(node.data_storage.is_empty());
    assert_eq!(node.outgoing_msgs.len(), 1);
    let forward = &node.outgoing_msgs[0];
    assert!(matches!(forward.receiver, Receiver::Unicast(700)));
    assert_eq!(forward.final_cid, Some(900));
    assert_eq!(forward.sender_cid, Some(500));
    assert_eq!(forward.sender_name, "mid");
    match &forward.message {
        Message::Text(text) => assert_eq!(text, "hi"),
        _ => panic!("no text"),
    }
}

#[test]
fn send_text_data_does_nothing_when_the_node_is_closest() {
    let mut node = node_at(500);
    node.neighbors.insert(300, info(None, None, false));
    node.send_text_data(510, String::from("x"));
    assert!(node.outgoing_msgs.is_empty());
    assert!(node.data_storage.is_empty());
}

#[test]
fn send_text_data_queues_a_packet_for_the_next_hop() {
    let mut node = node_at(500);
    node.neighbors.insert(300, info(None, None, false));
    node.send_text_data(0, String::from("x"));
    assert_eq!(node.outgoing_msgs.len(), 1);
    let packet = &node.outgoing_msgs[0];
    assert!(matches!(packet.receiver, Receiver::Unicast(300)));
    assert_eq!(packet.final_cid, Some(0));
    assert_eq!(packet.sender_cid, Some(500));
    assert!(packet.is_type_data());
}

#[test]
fn packet_constructors_fill_the_envelope() {
    let mut src = node_at(5);
    src.debug_name = String::from("me");
    let b = Packet::new(&src, Message::Text(String::from("t")));
    assert!(matches!(b.receiver, Receiver::Broadcast));
    assert_eq!(b.sender_name, "me");
    assert_eq!(b.sender_cid, Some(5));
    assert_eq!(b.final_cid, None);
    let u = Packet::new_unicast(&src, 9, Message::CreateVirtualNode { virtual_position: 1 });
    assert!(matches!(u.receiver, Receiver::Unicast(9)));
    assert_eq!(u.final_cid, None);
    let d = Packet::new_unicast_data(&src, 9, 11, Message::Text(String::from("t")));
    assert!(matches!(d.receiver, Receiver::Unicast(9)));
    assert_eq!(d.final_cid, Some(11));
    let unplaced = Vcp::new(false);
    assert_eq!(Packet::new(&unplaced, Message::Text(String::new())).sender_cid, None);
}

#[test]
fn is_for_filters_unicast_only() {
    let src = node_at(5);
    let b = Packet::new(&src, Message::Text(String::from("t")));
    assert!(b.is_for(None));
    assert!(b.is_for(Some(3)));
    let u = Packet::new_unicast(&src, 9, Message::Text(String::from("t")));
    assert!(u.is_for(Some(9)));
    assert!(!u.is_for(Some(8)));
    assert!(!u.is_for(None));
}

#[test]
fn is_type_data_tells_text_from_the_rest() {
    let src = node_at(5);
    assert!(Packet::new(&src, Message::Text(String::new())).is_type_data());
    assert!(!Packet::new(&src, Message::Hello(info(None, None, false))).is_type_data());
    assert!(!Packet::new(&src, Message::SendUpdatePredecessor { new_position: 1 }).is_type_data());
    assert!(!Packet::new(&src, Message::SendUpdateSuccessor { new_position: 1 }).is_type_data());
    assert!(!Packet::new(&src, Message::CreateVirtualNode { virtual_position: 1 }).is_type_data());
}

#[test]
fn new_receiver_changes_the_receiver_only() {
    let mut src = node_at(5);
    src.debug_name = String::from("me");
    let d = Packet::new_unicast_data(&src, 9, 11, Message::Text(String::from("t")));
    let r = d.new_receiver(77);
    assert!(matches!(r.receiver, Receiver::Unicast(77)));
    assert_eq!(r.sender_name, "me");
    assert_eq!(r.sender_cid, Some(5));
    assert_eq!(r.final_cid, Some(11));
    match &r.message {
        Message::Text(text) => assert_eq!(text, "t"),
        _ => panic!("no text"),
    }
    assert!(matches!(d.receiver, Receiver::Unicast(9)));
}

#[test]
fn clone_of_a_packet_is_the_same_packet() {
    let src = node_at(5);
    let d = Packet::new_unicast_data(&src, 9, 11, Message::Text(String::from("t")));
    let c = d.clone();
    assert!(matches!(c.receiver, Receiver::Unicast(9)));
    assert_eq!(c.final_cid, Some(11));
    assert_eq!(c.sender_cid, Some(5));
    match &c.message {
        Message::Text(text) => assert_eq!(text, "t"),
        _ => panic!("no text"),
    }
}

#[test]
fn data_new_keeps_its_arguments() {
    let d = Data::new(String::from("payload"), 42);
    assert_eq!(d.text, "payload");
    assert_eq!(d.sender_cid, 42);
}

#[test]
fn accepts_tells_which_packets_a_node_can_take() {
    let node = node_at(5);
    let unplaced = Vcp::new(false);
    let named = node_at(7);
    assert!(node.accepts(&Packet::new(&named, Message::Hello(info(None, None, false)))));
    assert!(!node.accepts(&Packet::new(&unplaced, Message::Hello(info(None, None, false)))));
    assert!(node.accepts(&Packet::new_unicast(&unplaced, 6, Message::Hello(info(None, None, false)))));
    assert!(node.accepts(&Packet::new_unicast_data(&named, 5, 9, Message::Text(String::new()))));
    assert!(!node.accepts(&Packet::new_unicast(&named, 5, Message::Text(String::new()))));
    assert!(!unplaced.accepts(&Packet::new(&named, Message::Text(String::new()))));
    assert!(unplaced.accepts(&Packet::new_unicast_data(&named, 5, 9, Message::Text(String::new()))));
}

#[test]
fn well_formed_nodes_stay_well_formed() {
    let mut node = node_at(200);
    assert!(node.is_well_formed());
    let sender = node_at(300);
    node.receive(&Packet::new_unicast(&sender, 200, Message::CreateVirtualNode { virtual_position: 400 }));
    node.receive(&hello_from(700, None, None));
    node.timer_call();
    assert!(node.is_well_formed());
    assert!(node.clock_under(2));
    assert!(!node.clock_under(1));
    node.outgoing_msgs.push(Packet::new(&Vcp::new(false), Message::Hello(info(None, None, false))));
    assert!(!node.is_well_formed());
}

#[test]
fn label_shows_position_virtual_nodes_and_links() {
    let mut node = node_at(200);
    assert_eq!(node.to_string(), "200:\np? s?");
    node.predecessor = Some(0);
    node.successor = Some(1000);
    let sender = node_at(300);
    node.receive(&Packet::new_unicast(&sender, 200, Message::CreateVirtualNode { virtual_position: 400 }));
    node.receive(&Packet::new_unicast(&sender, 200, Message::CreateVirtualNode { virtual_position: 7 }));
    assert_eq!(node.to_string(), "200\nvirt{400,7,}:\np0 s1000");
    assert_eq!(node.virtual_nodes[0].to_string(), "v400:\np? s?");
    assert_eq!(Vcp::new(false).to_string(), ":\np? s?");
}
