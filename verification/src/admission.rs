use crate::ban::BanList;
use crate::record::NodeRecord;
use crate::registry::{count_occupied, has_peer_id, Direction, SessionRegistry};
use vstd::prelude::*;

verus! {

/// Why a node was refused admission.
#[derive(Clone, Copy, PartialEq, Eq, Structural, Debug)]
pub enum RejectReason {
    AtCapacity,
    Banned,
    AlreadyConnected,
    SelfConnection,
}

/// The admission controller's answer for one candidate.
#[derive(Clone, Copy, PartialEq, Eq, Structural, Debug)]
pub enum AdmissionDecision {
    Admit,
    Reject(RejectReason),
}

/// The admission policy: a pure function of the candidate, the local
/// identity, current registry occupancy, the capacity limits, and the ban
/// list. The checks run in a fixed order, so each input maps to exactly
/// one outcome: connecting to oneself, then an unexpired ban, then an
/// identity that is already tracked, then a full direction; a candidate
/// clearing all four is admitted.
pub open spec fn spec_decide(
    registry: SessionRegistry,
    bans: BanList,
    local_id: u64,
    record: NodeRecord,
    direction: Direction,
    now: u64,
) -> AdmissionDecision {
    if record.id == local_id {
        AdmissionDecision::Reject(RejectReason::SelfConnection)
    } else if bans.spec_banned(record.id, now) {
        AdmissionDecision::Reject(RejectReason::Banned)
    } else if has_peer_id(registry.entries@, record.id) {
        AdmissionDecision::Reject(RejectReason::AlreadyConnected)
    } else if count_occupied(registry.entries@, direction) >= registry.spec_cap(direction) {
        AdmissionDecision::Reject(RejectReason::AtCapacity)
    } else {
        AdmissionDecision::Admit
    }
}

/// Decide whether `record` may become an active session of the given
/// direction at time `now`.
pub fn decide(
    registry: &SessionRegistry,
    bans: &BanList,
    local_id: u64,
    record: NodeRecord,
    direction: Direction,
    now: u64,
) -> (r: AdmissionDecision)
    requires
        registry.wf(),
        bans.wf(),
    ensures
        r == spec_decide(*registry, *bans, local_id, record, direction, now),
        r is Admit ==> !has_peer_id(registry.entries@, record.id) && count_occupied(
            registry.entries@,
            direction,
        ) < registry.spec_cap(direction),
{
    if record.id == local_id {
        return AdmissionDecision::Reject(RejectReason::SelfConnection);
    }
    if bans.is_banned(record.id, now) {
        return AdmissionDecision::Reject(RejectReason::Banned);
    }
    if registry.contains(record.id) {
        return AdmissionDecision::Reject(RejectReason::AlreadyConnected);
    }
    let (cin, cout) = registry.count();
    let taken = match direction {
        Direction::Inbound => cin,
        Direction::Outbound => cout,
    };
    let cap = match direction {
        Direction::Inbound => registry.max_inbound,
        Direction::Outbound => registry.max_outbound,
    };
    if taken >= cap {
        return AdmissionDecision::Reject(RejectReason::AtCapacity);
    }
    AdmissionDecision::Admit
}

/// A ban is a hard window: an identity banned at `t0` for `dur` is
/// rejected with `Banned` at every instant before `t0 + dur`, and from
/// `t0 + dur` on the ban no longer rejects it — barring other
/// constraints it is admitted again. The candidate must differ from the
/// local node: a banned self-candidate is rejected as `SelfConnection`,
/// which takes precedence over `Banned`.
pub proof fn lemma_ban_window(
    registry: SessionRegistry,
    bans: BanList,
    local_id: u64,
    record: NodeRecord,
    direction: Direction,
    t0: u64,
    dur: u64,
    t: u64,
)
    requires
        t0 + dur <= u64::MAX,
        bans.spec_expiry(record.id) == Some((t0 + dur) as u64),
        record.id != local_id,
    ensures
        t < t0 + dur ==> spec_decide(registry, bans, local_id, record, direction, t)
            == AdmissionDecision::Reject(RejectReason::Banned),
        t >= t0 + dur ==> spec_decide(registry, bans, local_id, record, direction, t)
            != AdmissionDecision::Reject(RejectReason::Banned),
        (t >= t0 + dur && !has_peer_id(registry.entries@, record.id) && count_occupied(
            registry.entries@,
            direction,
        ) < registry.spec_cap(direction)) ==> spec_decide(
            registry,
            bans,
            local_id,
            record,
            direction,
            t,
        ) == AdmissionDecision::Admit,
{
}

} // verus!
