use vcp::playground::Playground;

#[test]
fn new_playground_is_empty() {
    let play = Playground::new();
    assert_eq!(play.age, 0);
    assert!(play.mgr.devices.is_empty());
}

#[test]
fn a_single_device_is_consistent_from_the_start() {
    let mut play = Playground::new();
    let reports = play.add_device(0, 0);
    assert!(reports.is_empty());
    assert_eq!(play.age, 10);
    assert_eq!(play.mgr.devices[0].vcp.ticks, 11);
}

#[test]
fn a_second_device_unsettles_the_network_for_two_rounds() {
    let mut play = Playground::new();
    play.add_device(0, 0);
    let reports = play.add_device(3, 4);
    assert_eq!(play.age, 20);
    assert_eq!(reports.len(), 2);
    assert_eq!(reports[0].age, 11);
    assert_eq!(reports[0].text, "Some cids are not unique");
    assert_eq!(reports[1].age, 12);
    assert_eq!(reports[1].text, "Too many loose ends");
    assert!(play.mgr.find_inconsitency().is_none());
}

#[test]
fn ticks_counts_rounds() {
    let mut play = Playground::new();
    play.add_device(0, 0);
    let reports = play.ticks(0);
    assert!(reports.is_empty());
    assert_eq!(play.age, 10);
    play.ticks(7);
    assert_eq!(play.age, 17);
    assert_eq!(play.mgr.devices[0].vcp.ticks, 18);
}

#[test]
fn sending_data_plays_ten_rounds() {
    let mut play = Playground::new();
    play.add_device(0, 0);
    play.add_device(8, 0);
    play.add_device(16, 0);
    let reports = play.send_text_data(0, 1000, String::from("Hello, Falko"));
    assert!(reports.is_empty());
    assert_eq!(play.age, 40);
    let holder = play.mgr.devices.iter().find(|d| d.vcp.c_id == Some(1000)).unwrap();
    assert_eq!(holder.vcp.data_storage.len(), 1);
    assert_eq!(holder.vcp.data_storage[0].text, "Hello, Falko");
}
