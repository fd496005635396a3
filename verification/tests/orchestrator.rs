use peernet::config::PeersConfig;
use peernet::discovery::DiscoveryUpdate;
use peernet::events::{NetworkEvent, StreamPoll};
use peernet::orchestrator::NetworkOrchestrator;
use peernet::record::NodeRecord;
use peernet::registry::{ConnectionState, PeerKind};

fn rec(id: u64) -> NodeRecord {
    NodeRecord::new(id, 0x0a000001, 30303, 30303)
}

fn node(max_inbound: usize, max_outbound: usize) -> NetworkOrchestrator {
    let config = PeersConfig::new(max_inbound, max_outbound, 10, 50, Vec::new());
    NetworkOrchestrator::new(rec(1), config)
}

#[test]
fn discovered_peers_connect_up_to_capacity() {
    // boot list [A, B]; discovery reports Added(A), Added(B), Added(C);
    // max_outbound = 2
    let a = rec(0xa);
    let b = rec(0xb);
    let c = rec(0xc);
    let config = PeersConfig::new(10, 2, 10, 50, vec![a, b]);
    let mut o = NetworkOrchestrator::new(rec(1), config);
    let listener = o.event_listener();

    assert_eq!(o.on_discovery_update(DiscoveryUpdate::Added(a), 0), Some(a));
    assert_eq!(o.on_discovery_update(DiscoveryUpdate::Added(b), 1), Some(b));
    // C is rejected at capacity: no session is opened for it
    assert_eq!(o.on_discovery_update(DiscoveryUpdate::Added(c), 2), None);

    assert!(o.on_session_established(a.id));
    assert!(o.on_session_established(b.id));
    assert!(!o.on_session_established(c.id));

    assert_eq!(o.registry.state_of(a.id), Some(ConnectionState::Connected));
    assert_eq!(o.registry.state_of(b.id), Some(ConnectionState::Connected));
    assert_eq!(o.registry.state_of(c.id), None);
    assert_eq!(o.registry.connected(), (0, 2));

    let mut seen = Vec::new();
    while let StreamPoll::Ready(e) = o.poll_listener(listener) {
        seen.push(e);
    }
    assert_eq!(
        seen,
        vec![
            NetworkEvent::PeerAdded(a.id),
            NetworkEvent::PeerAdded(b.id),
            NetworkEvent::SessionEstablished(a.id),
            NetworkEvent::SessionEstablished(b.id),
        ]
    );
}

#[test]
fn at_capacity_discoveries_still_go_through_admission() {
    // the explicit policy: DiscoveredAtCapacity is treated like Added
    let mut o = node(4, 4);
    let p = rec(2);
    let r = o.on_discovery_update(DiscoveryUpdate::DiscoveredAtCapacity(p), 0);
    assert_eq!(r, Some(p));
    assert_eq!(o.registry.state_of(p.id), Some(ConnectionState::Connecting));
}

#[test]
fn connected_counts_never_exceed_the_limits() {
    let mut o = node(2, 2);
    // a burst of discovery updates far beyond capacity
    for id in 10..30u64 {
        o.on_discovery_update(DiscoveryUpdate::Added(rec(id)), 0);
        o.on_session_established(id);
        let (cin, cout) = o.registry.connected();
        assert!(cin <= 2);
        assert!(cout <= 2);
    }
    assert_eq!(o.registry.connected(), (0, 2));
}

#[test]
fn add_then_remove_shows_no_established_session() {
    let mut o = node(4, 4);
    let listener = o.event_listener();
    let p = rec(5);
    assert_eq!(o.add_peer(p, PeerKind::Basic, 0), Some(p));
    assert!(o.remove_peer(p.id, PeerKind::Basic));
    assert_eq!(o.registry.state_of(p.id), None);

    // a PeerRemoved with no preceding SessionEstablished is what listeners see
    assert_eq!(o.poll_listener(listener), StreamPoll::Ready(NetworkEvent::PeerAdded(p.id)));
    assert_eq!(o.poll_listener(listener), StreamPoll::Ready(NetworkEvent::PeerRemoved(p.id)));
    assert_eq!(o.poll_listener(listener), StreamPoll::Pending);
}

#[test]
fn removing_a_connected_peer_closes_the_session_first() {
    let mut o = node(4, 4);
    let listener = o.event_listener();
    let p = rec(5);
    o.add_peer(p, PeerKind::Basic, 0);
    o.on_session_established(p.id);
    assert!(o.remove_peer(p.id, PeerKind::Basic));
    assert_eq!(o.poll_listener(listener), StreamPoll::Ready(NetworkEvent::PeerAdded(p.id)));
    assert_eq!(
        o.poll_listener(listener),
        StreamPoll::Ready(NetworkEvent::SessionEstablished(p.id))
    );
    assert_eq!(o.poll_listener(listener), StreamPoll::Ready(NetworkEvent::SessionClosed(p.id)));
    assert_eq!(o.poll_listener(listener), StreamPoll::Ready(NetworkEvent::PeerRemoved(p.id)));
}

#[test]
fn remove_with_the_wrong_kind_is_a_no_op() {
    let mut o = node(4, 4);
    let p = rec(5);
    o.add_peer(p, PeerKind::Trusted, 0);
    assert!(!o.remove_peer(p.id, PeerKind::Basic));
    assert_eq!(o.registry.state_of(p.id), Some(ConnectionState::Connecting));
}

#[test]
fn a_failed_attempt_bans_and_later_readmits() {
    let mut o = node(4, 4);
    let p = rec(5);
    o.add_peer(p, PeerKind::Basic, 0);
    // fails at t = 10; ban_duration is 50
    assert!(o.on_connection_failed(p.id, 10));
    assert_eq!(o.add_peer(p, PeerKind::Basic, 30), None);
    assert_eq!(o.add_peer(p, PeerKind::Basic, 59), None);
    assert_eq!(o.add_peer(p, PeerKind::Basic, 60), Some(p));
}

#[test]
fn both_listeners_see_events_in_the_same_order() {
    let mut o = node(4, 4);
    let first = o.event_listener();
    let second = o.event_listener();
    for id in [2u64, 3, 4] {
        o.add_peer(rec(id), PeerKind::Basic, 0);
    }
    o.remove_peer(3, PeerKind::Basic);

    let mut on_first = Vec::new();
    while let StreamPoll::Ready(e) = o.poll_listener(first) {
        on_first.push(e);
    }
    let mut on_second = Vec::new();
    while let StreamPoll::Ready(e) = o.poll_listener(second) {
        on_second.push(e);
    }
    assert_eq!(on_first, on_second);
    assert_eq!(
        on_first,
        vec![
            NetworkEvent::PeerAdded(2),
            NetworkEvent::PeerAdded(3),
            NetworkEvent::PeerAdded(4),
            NetworkEvent::PeerRemoved(3),
        ]
    );
}

#[test]
fn a_late_listener_sees_only_later_events() {
    let mut o = node(4, 4);
    o.add_peer(rec(2), PeerKind::Basic, 0);
    let late = o.event_listener();
    o.add_peer(rec(3), PeerKind::Basic, 0);
    assert_eq!(o.poll_listener(late), StreamPoll::Ready(NetworkEvent::PeerAdded(3)));
    assert_eq!(o.poll_listener(late), StreamPoll::Pending);
}

#[test]
fn dropping_handles_does_not_stop_the_node() {
    let mut o = node(4, 4);
    o.clone_handle();
    o.clone_handle();
    o.drop_handle();
    o.drop_handle();
    o.drop_handle(); // the constructor's own handle
    o.drop_discovery_control();
    assert!(o.running);
    // the node still processes work
    assert_eq!(o.add_peer(rec(2), PeerKind::Basic, 0), Some(rec(2)));
}

#[test]
fn cancelling_ends_every_listener_stream_after_its_backlog() {
    let mut o = node(4, 4);
    let listener = o.event_listener();
    o.add_peer(rec(2), PeerKind::Basic, 0);
    o.cancel();
    assert!(!o.running);
    // the backlog drains, then the stream ends instead of pending
    assert_eq!(o.poll_listener(listener), StreamPoll::Ready(NetworkEvent::PeerAdded(2)));
    assert_eq!(o.poll_listener(listener), StreamPoll::Ended);
    assert_eq!(o.poll_listener(listener), StreamPoll::Ended);
}

#[test]
fn a_dead_listener_does_not_slow_the_others() {
    let mut o = node(4, 4);
    let dead = o.event_listener();
    let live = o.event_listener();
    o.drop_listener(dead);
    o.add_peer(rec(2), PeerKind::Basic, 0);
    assert_eq!(o.poll_listener(live), StreamPoll::Ready(NetworkEvent::PeerAdded(2)));
}

#[test]
fn peer_id_reports_the_local_identity() {
    let o = node(4, 4);
    assert_eq!(o.peer_id(), 1);
}

#[test]
fn inbound_admissions_respect_the_inbound_limit() {
    let mut o = node(1, 4);
    assert!(o.on_incoming_session(rec(2), PeerKind::Basic, 0));
    assert!(!o.on_incoming_session(rec(3), PeerKind::Basic, 0));
    assert_eq!(o.registry.count(), (1, 0));
}
