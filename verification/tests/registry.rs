use clock_sync_master::slave_management::{
    clean_up_stale_nodes, manage_node_introduction, Registry, SlaveNode,
};

#[test]
fn introduction_creates_one_record() {
    let mut reg = Registry::new();
    reg.upsert_introduction("10.0.0.1:9000".to_string(), 10);
    assert_eq!(reg.len(), 1);
    assert_eq!(reg.lookup(&"10.0.0.1:9000".to_string()), Some((10, 10)));
}

#[test]
fn repeated_messages_keep_one_record_with_latest_timestamp() {
    let mut reg = Registry::new();
    let addr = "10.0.0.1:9000".to_string();
    reg.upsert_introduction(addr.clone(), 10);
    reg.record_response(addr.clone(), 123456, 25);
    reg.upsert_introduction(addr.clone(), 40);
    assert_eq!(reg.len(), 1);
    // `last_response` follows the most recent message; `request_time` keeps
    // its value from registration.
    assert_eq!(reg.lookup(&addr), Some((40, 10)));
}

#[test]
fn time_report_auto_registers_in_one_step() {
    let mut reg = Registry::new();
    let addr = "192.168.1.7:4242".to_string();
    reg.record_response(addr.clone(), 5000, 77);
    assert_eq!(reg.len(), 1);
    // The record exists and already carries its response timestamp.
    assert_eq!(reg.lookup(&addr), Some((77, 77)));
}

#[test]
fn request_bookkeeping_updates_only_known_records() {
    let mut reg = Registry::new();
    let known = "10.0.0.2:9000".to_string();
    let unknown = "10.0.0.3:9000".to_string();
    reg.upsert_introduction(known.clone(), 5);
    reg.record_request_sent(&known, 30);
    assert_eq!(reg.lookup(&known), Some((5, 30)));
    reg.record_request_sent(&unknown, 30);
    assert_eq!(reg.lookup(&unknown), None);
    assert_eq!(reg.len(), 1);
}

#[test]
fn eviction_removes_exactly_the_stale_records() {
    let mut reg = Registry::new();
    reg.upsert_introduction("a".to_string(), 0);
    reg.upsert_introduction("b".to_string(), 50);
    reg.upsert_introduction("c".to_string(), 100);
    reg.evict_stale(100, 60);
    // Ages at the sweep are 100, 50 and 0; only the first reaches the
    // threshold of 60.
    assert_eq!(reg.len(), 2);
    assert_eq!(reg.lookup(&"a".to_string()), None);
    assert_eq!(reg.lookup(&"b".to_string()), Some((50, 50)));
    assert_eq!(reg.lookup(&"c".to_string()), Some((100, 100)));
}

#[test]
fn eviction_at_exact_threshold_age_removes() {
    let mut reg = Registry::new();
    reg.upsert_introduction("a".to_string(), 40);
    reg.evict_stale(100, 60);
    assert_eq!(reg.lookup(&"a".to_string()), None);
}

#[test]
fn repeated_eviction_is_a_no_op() {
    let mut reg = Registry::new();
    reg.upsert_introduction("a".to_string(), 0);
    reg.upsert_introduction("b".to_string(), 90);
    reg.evict_stale(100, 60);
    let first = reg.snapshot_active();
    reg.evict_stale(100, 60);
    let second = reg.snapshot_active();
    assert_eq!(first, second);
    assert_eq!(reg.len(), 1);
}

#[test]
fn snapshot_copies_every_address_with_its_request_time() {
    let mut reg = Registry::new();
    reg.upsert_introduction("a".to_string(), 1);
    reg.upsert_introduction("b".to_string(), 2);
    reg.record_request_sent(&"b".to_string(), 99);
    let snapshot = reg.snapshot_active();
    assert_eq!(snapshot.len(), 2);
    assert!(snapshot.contains(&("a".to_string(), 1)));
    assert!(snapshot.contains(&("b".to_string(), 99)));
}

#[test]
fn slave_node_starts_at_the_given_reading() {
    let node = SlaveNode::new_at("10.1.1.1:8080".to_string(), 12345);
    assert_eq!(node.address, "10.1.1.1:8080");
    assert_eq!(node.request_time, 12345);
    assert_eq!(node.last_response, 12345);
}

#[test]
fn slave_node_starts_with_equal_timestamps() {
    let node = SlaveNode::new("10.1.1.1:8080".to_string());
    assert_eq!(node.address, "10.1.1.1:8080");
    assert_eq!(node.last_response, node.request_time);
}

#[test]
fn slave_node_stamps_set_exactly_one_timestamp() {
    let mut node = SlaveNode::new_at("10.1.1.1:8080".to_string(), 100);
    node.stamp_response(250);
    assert_eq!(node.address, "10.1.1.1:8080");
    assert_eq!(node.last_response, 250);
    assert_eq!(node.request_time, 100);
    node.stamp_request(300);
    assert_eq!(node.request_time, 300);
    assert_eq!(node.last_response, 250);
}

#[test]
fn slave_node_updates_touch_one_timestamp() {
    let mut node = SlaveNode::new("10.1.1.1:8080".to_string());
    let request_time = node.request_time;
    node.update_last_response();
    assert_eq!(node.address, "10.1.1.1:8080");
    assert_eq!(node.request_time, request_time);
    let last_response = node.last_response;
    node.update_request_time();
    assert_eq!(node.last_response, last_response);
}

#[test]
fn clock_based_registration_and_sweep() {
    let mut reg = Registry::new();
    manage_node_introduction(&mut reg, "10.9.9.9:1000".to_string());
    assert_eq!(reg.len(), 1);
    assert!(reg.lookup(&"10.9.9.9:1000".to_string()).is_some());
    // A node that just spoke is far under the staleness threshold.
    clean_up_stale_nodes(&mut reg);
    assert_eq!(reg.len(), 1);
}
