use vcp::dummy::{VirtDevice, VirtManager};
use vcp::packet::{Message, NeighborInfo, Packet};
use vcp::refusal::VcpError;
use vcp::vcp::Vcp;

fn node_at(cid: u32) -> Vcp {
    let mut node = Vcp::new(false);
    node.c_id = Some(cid);
    node
}

fn beacon(sender: &Vcp) -> Packet {
    Packet::new(
        sender,
        Message::Hello(NeighborInfo { predecessor: None, successor: None, is_virtual: false, age: 0 }),
    )
}

#[test]
fn a_beacon_without_sender_is_refused() {
    let mut node = node_at(5);
    let done = node.try_receive(&beacon(&Vcp::new(false)));
    assert!(matches!(done, Err(VcpError::MissingSender)));
    assert!(node.neighbors.is_empty());
    let done = node.try_receive(&beacon(&node_at(9)));
    assert!(done.is_ok());
    assert!(node.neighbors.contains_key(&9));
}

#[test]
fn data_is_checked_for_destination_then_position_then_sender() {
    let unplaced = Vcp::new(false);
    let node = node_at(5);
    let nowhere = Packet::new(&unplaced, Message::Text(String::from("x")));
    assert!(matches!(unplaced.find_refusal(&nowhere), Some(VcpError::MissingDestination)));
    let mut to_all = Packet::new_unicast_data(&unplaced, 5, 9, Message::Text(String::from("x")));
    to_all.receiver = vcp::packet::Receiver::Broadcast;
    assert!(matches!(unplaced.find_refusal(&to_all), Some(VcpError::Unassigned)));
    assert!(matches!(node.find_refusal(&to_all), Some(VcpError::MissingSender)));
    let complete = Packet::new_unicast_data(&node, 5, 9, Message::Text(String::from("x")));
    assert!(node.find_refusal(&complete).is_none());
    assert!(unplaced.find_refusal(&complete).is_none());
}

#[test]
fn a_virtual_node_can_refuse_for_its_host() {
    let mut node = node_at(5);
    node.receive(&Packet::new_unicast(&node_at(1), 5, Message::CreateVirtualNode { virtual_position: 7 }));
    let mut for_virtual = beacon(&Vcp::new(false));
    for_virtual.receiver = vcp::packet::Receiver::Unicast(7);
    assert!(matches!(node.find_refusal(&for_virtual), Some(VcpError::MissingSender)));
    assert!(!node.accepts(&for_virtual));
    let done = node.try_receive(&for_virtual);
    assert!(done.is_err());
    assert!(node.virtual_nodes[0].neighbors.is_empty());
}

#[test]
fn a_node_without_position_cannot_send_data() {
    let mut node = Vcp::new(false);
    assert!(matches!(node.try_send_text_data(5, String::from("x")), Err(VcpError::Unassigned)));
    assert!(node.outgoing_msgs.is_empty());
    let mut node = node_at(5);
    node.neighbors.insert(
        9,
        NeighborInfo { predecessor: None, successor: None, is_virtual: false, age: 0 },
    );
    assert!(node.try_send_text_data(9, String::from("x")).is_ok());
    assert_eq!(node.outgoing_msgs.len(), 1);
}

#[test]
fn a_full_clock_stops_the_tick() {
    let mut node = node_at(5);
    node.ticks = u64::MAX;
    assert!(matches!(node.try_timer_call(), Err(VcpError::ClockFull)));
    assert_eq!(node.ticks, u64::MAX);
    assert!(node.outgoing_msgs.is_empty());
    node.ticks = u64::MAX - 1;
    assert!(node.try_timer_call().is_ok());
    assert_eq!(node.ticks, u64::MAX);
}

#[test]
fn a_network_without_positions_cannot_send() {
    let mut mgr = VirtManager::new();
    assert!(matches!(mgr.try_send_text_data(0, 1, String::from("x")), Err(VcpError::NoSender)));
    mgr.devices.push(VirtDevice::new(false));
    assert!(matches!(mgr.try_send_text_data(0, 1, String::from("x")), Err(VcpError::NoSender)));
    mgr.devices.push(VirtDevice::new(true));
    assert!(mgr.try_send_text_data(0, 1, String::from("x")).is_ok());
}

#[test]
fn a_round_needs_well_formed_engines_and_room_on_the_clocks() {
    let mut mgr = VirtManager::new();
    mgr.add_device((0, 0));
    assert!(mgr.try_handle_messages().is_ok());
    assert_eq!(mgr.devices[0].vcp.ticks, 2);
    mgr.devices[0].vcp.outgoing_msgs.push(beacon(&Vcp::new(false)));
    assert!(matches!(mgr.try_handle_messages(), Err(VcpError::Malformed)));
    assert_eq!(mgr.devices[0].vcp.ticks, 2);
    mgr.devices[0].vcp.ticks = u64::MAX;
    assert!(matches!(mgr.try_handle_messages(), Err(VcpError::Malformed)));
    mgr.devices[0].vcp.outgoing_msgs.clear();
    assert!(matches!(mgr.try_handle_messages(), Err(VcpError::ClockFull)));
    assert_eq!(mgr.devices[0].vcp.ticks, u64::MAX);
    assert!(mgr.devices[0].vcp.outgoing_msgs.is_empty());
    mgr.devices[0].vcp.ticks = u64::MAX - 1;
    assert!(mgr.try_handle_messages().is_ok());
    assert_eq!(mgr.devices[0].vcp.ticks, u64::MAX);
    assert_eq!(mgr.devices[0].vcp.outgoing_msgs.len(), 1);
}

#[test]
fn an_empty_network_plays_its_rounds() {
    let mut mgr = VirtManager::new();
    assert!(mgr.try_handle_messages().is_ok());
    assert!(mgr.devices.is_empty());
}

#[test]
fn every_error_has_its_report() {
    assert_eq!(VcpError::MissingDestination.message(), "the data packet names no destination");
    assert_eq!(VcpError::Unassigned.message(), "the node has no position yet");
    assert_eq!(VcpError::MissingSender.message(), "the packet names no sender");
    assert_eq!(VcpError::ClockFull.message(), "a clock cannot advance any further");
    assert_eq!(VcpError::Malformed.message(), "an engine holds a packet that no engine queues");
    assert_eq!(VcpError::NoSender.message(), "no device has a position to send from");
}

#[test]
fn taking_data_tells_whether_it_strayed() {
    let mut node = node_at(500);
    node.neighbors.insert(
        800,
        NeighborInfo { predecessor: None, successor: None, is_virtual: false, age: 0 },
    );
    let sender = node_at(1);
    let at_home = Packet::new_unicast_data(&sender, 500, 500, Message::Text(String::from("a")));
    let stray = Packet::new_unicast_data(&sender, 500, 520, Message::Text(String::from("b")));
    let passing = Packet::new_unicast_data(&sender, 500, 900, Message::Text(String::from("c")));
    assert!(matches!(node.try_receive(&at_home), Ok(false)));
    assert!(matches!(node.try_receive(&stray), Ok(true)));
    assert!(matches!(node.try_receive(&passing), Ok(false)));
    assert!(matches!(node.try_receive(&beacon(&sender)), Ok(false)));
    assert_eq!(node.data_storage.len(), 2);
    assert_eq!(node.outgoing_msgs.len(), 1);
}

#[test]
fn data_that_strays_at_a_virtual_node_is_told_too() {
    let mut node = node_at(5);
    node.receive(&Packet::new_unicast(&node_at(1), 5, Message::CreateVirtualNode { virtual_position: 7 }));
    let for_virtual = Packet::new_unicast_data(&node_at(1), 7, 9, Message::Text(String::from("x")));
    assert!(!node.is_dead_end(&for_virtual));
    assert!(node.finds_stray(&for_virtual));
    assert!(matches!(node.try_receive(&for_virtual), Ok(true)));
    assert_eq!(node.virtual_nodes[0].data_storage.len(), 1);
    assert!(node.data_storage.is_empty());
    let home = Packet::new_unicast_data(&node_at(1), 7, 7, Message::Text(String::from("y")));
    assert!(!node.finds_stray(&home));
    assert!(matches!(node.try_receive(&home), Ok(false)));
    assert_eq!(node.virtual_nodes[0].data_storage.len(), 2);
}
