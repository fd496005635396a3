use peernet::discovery::{BindError, Discovery, DiscoveryUpdate};
use peernet::record::NodeRecord;

fn rec(id: u64) -> NodeRecord {
    NodeRecord::new(id, 0x0a000001, 30303, 30303)
}

fn engine(capacity: usize) -> Discovery {
    Discovery::bind(rec(1), capacity, 10, 50, Vec::new()).unwrap()
}

#[test]
fn bind_rejects_port_zero() {
    let local = NodeRecord::new(1, 0x0a000001, 0, 30303);
    let r = Discovery::bind(local, 8, 10, 50, Vec::new());
    match r {
        Err(e) => assert_eq!(e, BindError::InvalidAddress),
        Ok(_) => panic!("binding to port zero must fail"),
    }
}

#[test]
fn a_new_node_is_added() {
    let mut d = engine(8);
    let u = d.node_seen(rec(2), 0);
    assert_eq!(u, Some(DiscoveryUpdate::Added(rec(2))));
}

#[test]
fn a_known_node_is_not_added_twice() {
    let mut d = engine(8);
    d.node_seen(rec(2), 0);
    assert_eq!(d.node_seen(rec(2), 1), None);
}

#[test]
fn the_local_node_is_ignored() {
    let mut d = engine(8);
    assert_eq!(d.node_seen(rec(1), 0), None);
}

#[test]
fn a_full_table_reports_at_capacity() {
    let mut d = engine(2);
    d.node_seen(rec(2), 0);
    d.node_seen(rec(3), 0);
    let u = d.node_seen(rec(4), 0);
    assert_eq!(u, Some(DiscoveryUpdate::DiscoveredAtCapacity(rec(4))));
}

#[test]
fn a_failed_node_is_banned_for_the_duration() {
    let mut d = engine(8);
    d.node_seen(rec(2), 0);
    // fails at t = 10, ban lasts 50
    let u = d.node_failed(2, 10);
    assert_eq!(u, Some(DiscoveryUpdate::Removed(2)));
    assert_eq!(d.node_seen(rec(2), 10), None);
    assert_eq!(d.node_seen(rec(2), 59), None);
    assert_eq!(d.node_seen(rec(2), 60), Some(DiscoveryUpdate::Added(rec(2))));
}

#[test]
fn an_unknown_failed_node_is_still_banned() {
    let mut d = engine(8);
    assert_eq!(d.node_failed(5, 0), None);
    assert_eq!(d.node_seen(rec(5), 20), None);
}

#[test]
fn a_departed_node_is_removed() {
    let mut d = engine(8);
    d.node_seen(rec(2), 0);
    assert_eq!(d.node_left(2), Some(DiscoveryUpdate::Removed(2)));
    assert_eq!(d.node_left(2), None);
}

#[test]
fn lookups_follow_the_interval() {
    let mut d = engine(8);
    assert!(d.lookup_due(0));
    d.lookup_target(0);
    assert!(!d.lookup_due(5));
    assert!(d.lookup_due(10));
}

#[test]
fn boot_nodes_rotate_round_robin() {
    let boot = vec![rec(2), rec(3)];
    let mut d = Discovery::bind(rec(1), 8, 10, 50, boot).unwrap();
    assert_eq!(d.lookup_target(0), Some(rec(2)));
    assert_eq!(d.lookup_target(10), Some(rec(3)));
    assert_eq!(d.lookup_target(20), Some(rec(2)));
}

#[test]
fn an_empty_boot_list_yields_no_target() {
    let mut d = engine(8);
    assert_eq!(d.lookup_target(0), None);
}

#[test]
fn closest_answers_by_xor_distance() {
    let mut d = engine(8);
    d.node_seen(rec(0b1000), 0);
    d.node_seen(rec(0b0100), 0);
    d.node_seen(rec(0b0110), 0);
    // distances to 0b0111: 0b1111, 0b0011, 0b0001
    assert_eq!(d.closest_to(0b0111), Some(rec(0b0110)));
    let empty = engine(8);
    assert_eq!(empty.closest_to(42), None);
}
