use peernet::config::PeersConfig;
use peernet::events::{EventBroadcaster, NetworkEvent, StreamPoll};
use peernet::record::NodeRecord;

#[test]
fn a_subscriber_sees_events_from_its_subscription_on() {
    let mut b = EventBroadcaster::new();
    b.publish(NetworkEvent::PeerAdded(1));
    let s = b.subscribe();
    b.publish(NetworkEvent::PeerAdded(2));
    assert_eq!(b.poll(s), StreamPoll::Ready(NetworkEvent::PeerAdded(2)));
    assert_eq!(b.poll(s), StreamPoll::Pending);
}

#[test]
fn each_subscriber_advances_independently() {
    let mut b = EventBroadcaster::new();
    let fast = b.subscribe();
    let slow = b.subscribe();
    b.publish(NetworkEvent::PeerAdded(1));
    b.publish(NetworkEvent::PeerRemoved(1));
    assert_eq!(b.poll(fast), StreamPoll::Ready(NetworkEvent::PeerAdded(1)));
    assert_eq!(b.poll(fast), StreamPoll::Ready(NetworkEvent::PeerRemoved(1)));
    // the slow subscriber lost nothing while the fast one drained
    assert_eq!(b.poll(slow), StreamPoll::Ready(NetworkEvent::PeerAdded(1)));
    assert_eq!(b.poll(slow), StreamPoll::Ready(NetworkEvent::PeerRemoved(1)));
}

#[test]
fn an_empty_closed_stream_ends_immediately() {
    let mut b = EventBroadcaster::new();
    let s = b.subscribe();
    b.close();
    assert_eq!(b.poll(s), StreamPoll::Ended);
}

#[test]
fn node_records_compare_by_identity() {
    let a = NodeRecord::new(5, 1, 10, 20);
    let b = NodeRecord::new(5, 2, 11, 21);
    let c = NodeRecord::new(6, 1, 10, 20);
    assert!(a.same_identity(&b));
    assert!(!a.same_identity(&c));
}

#[test]
fn a_config_keeps_what_it_was_given() {
    let boot = vec![NodeRecord::new(2, 1, 10, 20)];
    let c = PeersConfig::new(3, 4, 10, 50, boot);
    assert_eq!(c.max_inbound, 3);
    assert_eq!(c.max_outbound, 4);
    assert_eq!(c.lookup_interval, 10);
    assert_eq!(c.ban_duration, 50);
    assert_eq!(c.boot_nodes.len(), 1);
}
