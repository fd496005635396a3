use peernet::admission::{decide, AdmissionDecision, RejectReason};
use peernet::ban::BanList;
use peernet::record::NodeRecord;
use peernet::registry::{Direction, PeerKind, SessionRegistry};

fn rec(id: u64) -> NodeRecord {
    NodeRecord::new(id, 0x0a000001, 30303, 30303)
}

#[test]
fn admits_a_fresh_peer_with_room() {
    let reg = SessionRegistry::new(5, 5);
    let bans = BanList::new();
    let d = decide(&reg, &bans, 1, rec(2), Direction::Outbound, 0);
    assert_eq!(d, AdmissionDecision::Admit);
}

#[test]
fn rejects_self_connection() {
    let reg = SessionRegistry::new(5, 5);
    let bans = BanList::new();
    let d = decide(&reg, &bans, 7, rec(7), Direction::Outbound, 0);
    assert_eq!(d, AdmissionDecision::Reject(RejectReason::SelfConnection));
}

#[test]
fn rejects_banned_until_expiry_then_admits() {
    let reg = SessionRegistry::new(5, 5);
    let mut bans = BanList::new();
    // banned at t = 100 for 50
    bans.ban(9, 150);
    assert_eq!(
        decide(&reg, &bans, 1, rec(9), Direction::Outbound, 100),
        AdmissionDecision::Reject(RejectReason::Banned)
    );
    assert_eq!(
        decide(&reg, &bans, 1, rec(9), Direction::Outbound, 149),
        AdmissionDecision::Reject(RejectReason::Banned)
    );
    assert_eq!(
        decide(&reg, &bans, 1, rec(9), Direction::Outbound, 150),
        AdmissionDecision::Admit
    );
    assert_eq!(
        decide(&reg, &bans, 1, rec(9), Direction::Outbound, 151),
        AdmissionDecision::Admit
    );
}

#[test]
fn rejects_already_connected() {
    let mut reg = SessionRegistry::new(5, 5);
    let bans = BanList::new();
    reg.open(rec(3), PeerKind::Basic, Direction::Outbound);
    let d = decide(&reg, &bans, 1, rec(3), Direction::Outbound, 0);
    assert_eq!(d, AdmissionDecision::Reject(RejectReason::AlreadyConnected));
}

#[test]
fn rejects_at_capacity_per_direction() {
    let mut reg = SessionRegistry::new(1, 1);
    let bans = BanList::new();
    reg.open(rec(2), PeerKind::Basic, Direction::Outbound);
    assert_eq!(
        decide(&reg, &bans, 1, rec(3), Direction::Outbound, 0),
        AdmissionDecision::Reject(RejectReason::AtCapacity)
    );
    // the inbound side still has room
    assert_eq!(
        decide(&reg, &bans, 1, rec(3), Direction::Inbound, 0),
        AdmissionDecision::Admit
    );
}

#[test]
fn zero_capacity_admits_nobody() {
    let reg = SessionRegistry::new(0, 0);
    let bans = BanList::new();
    assert_eq!(
        decide(&reg, &bans, 1, rec(2), Direction::Outbound, 0),
        AdmissionDecision::Reject(RejectReason::AtCapacity)
    );
    assert_eq!(
        decide(&reg, &bans, 1, rec(2), Direction::Inbound, 0),
        AdmissionDecision::Reject(RejectReason::AtCapacity)
    );
}

#[test]
fn updated_ban_replaces_the_old_window() {
    let reg = SessionRegistry::new(5, 5);
    let mut bans = BanList::new();
    bans.ban(9, 100);
    bans.ban(9, 200);
    assert_eq!(
        decide(&reg, &bans, 1, rec(9), Direction::Outbound, 150),
        AdmissionDecision::Reject(RejectReason::Banned)
    );
    assert_eq!(
        decide(&reg, &bans, 1, rec(9), Direction::Outbound, 200),
        AdmissionDecision::Admit
    );
}
