use crate::admission::{decide, spec_decide, AdmissionDecision};
use crate::ban::BanList;
use crate::config::PeersConfig;
use crate::events::{EventBroadcaster, NetworkEvent, StreamPoll};
use crate::record::NodeRecord;
use crate::registry::{
    has_peer_id, peer_index, peer_lookup, remove_peer_id, ConnectionState, Direction, PeerEntry,
    PeerKind, SessionRegistry,
};
use crate::registry::{
    lemma_entry_determines_lookup, lemma_lookup_after_remove, lemma_unique_after_push,
};
use crate::router::{EthRequest, ForwardOutcome, RequestRouter};
use vstd::prelude::*;

verus! {

/// The events one admission decision publishes: a `PeerAdded` when the
/// candidate is admitted, nothing when it is rejected (a rejection is a
/// quiet non-event, not an error).
pub open spec fn admit_events(d: AdmissionDecision, id: u64) -> Seq<NetworkEvent> {
    if d is Admit {
        seq![NetworkEvent::PeerAdded(id)]
    } else {
        Seq::empty()
    }
}

/// The events closing `id` publishes: a `SessionClosed` first if the
/// session had been established, then the `PeerRemoved`; nothing if the
/// identity is not tracked.
pub open spec fn close_events(reg: Seq<PeerEntry>, id: u64) -> Seq<NetworkEvent> {
    match peer_lookup(reg, id) {
        Some(e) => if e.state is Connected {
            seq![NetworkEvent::SessionClosed(id), NetworkEvent::PeerRemoved(id)]
        } else {
            seq![NetworkEvent::PeerRemoved(id)]
        },
        None => Seq::empty(),
    }
}

/// The long-lived coordinating state: the session registry and ban list
/// fed by admission decisions, the broadcast of network events, the
/// request router, and the lifecycle counters that model which handles
/// are still held and whether the driving task is alive. All methods are
/// called from the single task that drives the orchestrator; handles and
/// inbound protocol traffic reach it as the plain values these methods
/// take.
pub struct NetworkOrchestrator {
    pub local: NodeRecord,
    pub ban_duration: u64,
    pub registry: SessionRegistry,
    pub bans: BanList,
    pub events: EventBroadcaster,
    pub router: RequestRouter,
    pub handles: usize,
    pub discovery_control: bool,
    pub running: bool,
}

impl NetworkOrchestrator {
    pub open spec fn wf(self) -> bool {
        &&& self.registry.wf()
        &&& self.bans.wf()
        &&& self.events.wf()
        &&& self.router.wf()
        &&& self.events.closed == !self.running
    }

    /// Everything an admission or removal step leaves alone: the local
    /// identity, configuration, ban list, router, lifecycle counters,
    /// the subscriber table, and whether the broadcast is closed.
    pub open spec fn same_except_sessions(pre: NetworkOrchestrator, post: NetworkOrchestrator) -> bool {
        &&& post.local == pre.local
        &&& post.ban_duration == pre.ban_duration
        &&& post.registry.max_inbound == pre.registry.max_inbound
        &&& post.registry.max_outbound == pre.registry.max_outbound
        &&& post.bans == pre.bans
        &&& post.router.eth == pre.router.eth
        &&& post.router.txs == pre.router.txs
        &&& post.handles == pre.handles
        &&& post.discovery_control == pre.discovery_control
        &&& post.running == pre.running
        &&& post.events.subs@ == pre.events.subs@
        &&& post.events.closed == pre.events.closed
    }

    /// The parts no listener, handle, lifecycle or router call touches:
    /// the session registry, the ban list, and the configured identity
    /// and durations.
    pub open spec fn same_sessions(pre: NetworkOrchestrator, post: NetworkOrchestrator) -> bool {
        &&& post.local == pre.local
        &&& post.ban_duration == pre.ban_duration
        &&& post.registry == pre.registry
        &&& post.bans == pre.bans
    }

    /// Both router endpoints unchanged.
    pub open spec fn same_router(pre: NetworkOrchestrator, post: NetworkOrchestrator) -> bool {
        &&& post.router.eth == pre.router.eth
        &&& post.router.txs == pre.router.txs
    }

    /// The lifecycle state unchanged: handles held, the discovery
    /// control handle, and whether the driving task runs.
    pub open spec fn same_lifecycle(pre: NetworkOrchestrator, post: NetworkOrchestrator) -> bool {
        &&& post.handles == pre.handles
        &&& post.discovery_control == pre.discovery_control
        &&& post.running == pre.running
    }

    /// The whole broadcast state unchanged: the log, every
    /// subscription, and whether the stream is closed.
    pub open spec fn same_events(pre: NetworkOrchestrator, post: NetworkOrchestrator) -> bool {
        &&& post.events.log@ == pre.events.log@
        &&& post.events.subs@ == pre.events.subs@
        &&& post.events.closed == pre.events.closed
    }

    /// One admission step for `record`: the decision taken on the `pre`
    /// state, the registry extended by a `Connecting` entry exactly on
    /// `Admit`, and the admission's events appended to the log.
    pub open spec fn admit_step(
        pre: NetworkOrchestrator,
        post: NetworkOrchestrator,
        record: NodeRecord,
        kind: PeerKind,
        direction: Direction,
        now: u64,
        admitted: bool,
    ) -> bool {
        let d = spec_decide(pre.registry, pre.bans, pre.local.id, record, direction, now);
        &&& admitted == (d is Admit)
        &&& post.registry.entries@ == if d is Admit {
            pre.registry.entries@.push(
                PeerEntry { record, kind, direction, state: ConnectionState::Connecting },
            )
        } else {
            pre.registry.entries@
        }
        &&& post.events.log@ == pre.events.log@ + admit_events(d, record.id)
        &&& Self::same_except_sessions(pre, post)
    }

    /// One explicit removal step for `id` of the given kind: the entry
    /// leaves the registry exactly when it is tracked with that kind,
    /// and the closing events are appended to the log.
    pub open spec fn remove_step(
        pre: NetworkOrchestrator,
        post: NetworkOrchestrator,
        id: u64,
        kind: PeerKind,
        removed: bool,
    ) -> bool {
        let matched = match peer_lookup(pre.registry.entries@, id) {
            Some(e) => e.kind == kind,
            None => false,
        };
        &&& removed == matched
        &&& post.registry.entries@ == if matched {
            remove_peer_id(pre.registry.entries@, id)
        } else {
            pre.registry.entries@
        }
        &&& post.events.log@ == pre.events.log@ + (if matched {
            close_events(pre.registry.entries@, id)
        } else {
            Seq::<NetworkEvent>::empty()
        })
        &&& Self::same_except_sessions(pre, post)
    }

    /// Build the orchestrator around an immutable peers configuration.
    /// The driving task is considered running from here; the first
    /// handle is the one returned to the caller of the constructor.
    pub fn new(local: NodeRecord, config: PeersConfig) -> (r: NetworkOrchestrator)
        ensures
            r.wf(),
            r.local == local,
            r.ban_duration == config.ban_duration,
            r.registry.max_inbound == config.max_inbound,
            r.registry.max_outbound == config.max_outbound,
            r.registry.entries@ == Seq::<PeerEntry>::empty(),
            forall|id: u64| r.bans.spec_expiry(id) == None::<u64>,
            r.events.log@ == Seq::<NetworkEvent>::empty(),
            r.events.subs@.len() == 0,
            r.router.eth is None,
            r.router.txs is None,
            r.handles == 1,
            r.discovery_control,
            r.running,
    {
        NetworkOrchestrator {
            local,
            ban_duration: config.ban_duration,
            registry: SessionRegistry::new(config.max_inbound, config.max_outbound),
            bans: BanList::new(),
            events: EventBroadcaster::new(),
            router: RequestRouter::new(),
            handles: 1,
            discovery_control: true,
            running: true,
        }
    }

    /// The local node identity.
    pub fn peer_id(&self) -> (r: u64)
        ensures
            r == self.local.id,
    {
        self.local.id
    }

    /// Run one admission for `record` and, on success, start tracking
    /// the session. The returned flag tells the driving loop whether to
    /// start a connection attempt.
    fn admit_and_open(
        &mut self,
        record: NodeRecord,
        kind: PeerKind,
        direction: Direction,
        now: u64,
    ) -> (admitted: bool)
        requires
            old(self).wf(),
            old(self).running,
            old(self).events.log@.len() < usize::MAX,
        ensures
            final(self).wf(),
            Self::admit_step(*old(self), *final(self), record, kind, direction, now, admitted),
    {
        let d = decide(&self.registry, &self.bans, self.local.id, record, direction, now);
        match d {
            AdmissionDecision::Admit => {
                self.registry.open(record, kind, direction);
                self.events.publish(NetworkEvent::PeerAdded(record.id));
                proof {
                    assert(self.events.log@ =~= old(self).events.log@ + admit_events(
                        spec_decide(
                            old(self).registry,
                            old(self).bans,
                            old(self).local.id,
                            record,
                            direction,
                            now,
                        ),
                        record.id,
                    ));
                }
                true
            },
            AdmissionDecision::Reject(_) => {
                proof {
                    assert(self.events.log@ =~= old(self).events.log@ + admit_events(
                        spec_decide(
                            old(self).registry,
                            old(self).bans,
                            old(self).local.id,
                            record,
                            direction,
                            now,
                        ),
                        record.id,
                    ));
                }
                false
            },
        }
    }

    /// Close `id`'s session unconditionally (internal paths: a discovery
    /// removal or a failed connection attempt) and publish the closing
    /// events.
    fn close_and_publish(&mut self, id: u64) -> (removed: bool)
        requires
            old(self).wf(),
            old(self).running,
            old(self).events.log@.len() + 2 <= usize::MAX,
        ensures
            final(self).wf(),
            removed == has_peer_id(old(self).registry.entries@, id),
            final(self).registry.entries@ == remove_peer_id(old(self).registry.entries@, id),
            !has_peer_id(final(self).registry.entries@, id),
            final(self).events.log@ == old(self).events.log@ + close_events(
                old(self).registry.entries@,
                id,
            ),
            Self::same_except_sessions(*old(self), *final(self)),
    {
        let prior = self.registry.close(id);
        match prior {
            Some(st) => {
                if matches!(st, ConnectionState::Connected) {
                    self.events.publish(NetworkEvent::SessionClosed(id));
                }
                self.events.publish(NetworkEvent::PeerRemoved(id));
                proof {
                    assert(self.events.log@ =~= old(self).events.log@ + close_events(
                        old(self).registry.entries@,
                        id,
                    ));
                }
                true
            },
            None => {
                proof {
                    assert(self.events.log@ =~= old(self).events.log@ + close_events(
                        old(self).registry.entries@,
                        id,
                    ));
                }
                false
            },
        }
    }

    /// Feed one discovery update through admission. Newly discovered
    /// nodes — including ones reported with the routing table at
    /// capacity, which this orchestrator deliberately treats the same as
    /// plain additions — are candidates for outbound sessions; a node
    /// that left discovery has its session closed. Returns the node to
    /// dial when an outbound attempt should start.
    pub fn on_discovery_update(&mut self, u: crate::discovery::DiscoveryUpdate, now: u64) -> (r:
        Option<NodeRecord>)
        requires
            old(self).wf(),
            old(self).running,
            old(self).events.log@.len() + 2 <= usize::MAX,
        ensures
            final(self).wf(),
            match u {
                crate::discovery::DiscoveryUpdate::Added(rec) => {
                    &&& Self::admit_step(
                        *old(self),
                        *final(self),
                        rec,
                        PeerKind::Basic,
                        Direction::Outbound,
                        now,
                        r is Some,
                    )
                    &&& r == if spec_decide(
                        old(self).registry,
                        old(self).bans,
                        old(self).local.id,
                        rec,
                        Direction::Outbound,
                        now,
                    ) is Admit {
                        Some(rec)
                    } else {
                        None::<NodeRecord>
                    }
                },
                crate::discovery::DiscoveryUpdate::DiscoveredAtCapacity(rec) => {
                    &&& Self::admit_step(
                        *old(self),
                        *final(self),
                        rec,
                        PeerKind::Basic,
                        Direction::Outbound,
                        now,
                        r is Some,
                    )
                    &&& r == if spec_decide(
                        old(self).registry,
                        old(self).bans,
                        old(self).local.id,
                        rec,
                        Direction::Outbound,
                        now,
                    ) is Admit {
                        Some(rec)
                    } else {
                        None::<NodeRecord>
                    }
                },
                crate::discovery::DiscoveryUpdate::Removed(id) => {
                    &&& r is None
                    &&& final(self).registry.entries@ == remove_peer_id(
                        old(self).registry.entries@,
                        id,
                    )
                    &&& final(self).events.log@ == old(self).events.log@ + close_events(
                        old(self).registry.entries@,
                        id,
                    )
                    &&& Self::same_except_sessions(*old(self), *final(self))
                },
            },
    {
        match u {
            crate::discovery::DiscoveryUpdate::Added(rec) => {
                if self.admit_and_open(rec, PeerKind::Basic, Direction::Outbound, now) {
                    Some(rec)
                } else {
                    None
                }
            },
            crate::discovery::DiscoveryUpdate::DiscoveredAtCapacity(rec) => {
                if self.admit_and_open(rec, PeerKind::Basic, Direction::Outbound, now) {
                    Some(rec)
                } else {
                    None
                }
            },
            crate::discovery::DiscoveryUpdate::Removed(id) => {
                self.close_and_publish(id);
                None
            },
        }
    }

    /// Handle call: request an outbound session to `record`. Fire and
    /// forget for the caller; the driving loop dials the returned node
    /// when the request was admitted.
    pub fn add_peer(&mut self, record: NodeRecord, kind: PeerKind, now: u64) -> (r: Option<
        NodeRecord,
    >)
        requires
            old(self).wf(),
            old(self).running,
            old(self).events.log@.len() < usize::MAX,
        ensures
            final(self).wf(),
            Self::admit_step(
                *old(self),
                *final(self),
                record,
                kind,
                Direction::Outbound,
                now,
                r is Some,
            ),
            r == if spec_decide(
                old(self).registry,
                old(self).bans,
                old(self).local.id,
                record,
                Direction::Outbound,
                now,
            ) is Admit {
                Some(record)
            } else {
                None::<NodeRecord>
            },
    {
        if self.admit_and_open(record, kind, Direction::Outbound, now) {
            Some(record)
        } else {
            None
        }
    }

    /// An inbound connection attempt arrived from the transport: admit
    /// or refuse it against the inbound capacity.
    pub fn on_incoming_session(&mut self, record: NodeRecord, kind: PeerKind, now: u64) -> (r:
        bool)
        requires
            old(self).wf(),
            old(self).running,
            old(self).events.log@.len() < usize::MAX,
        ensures
            final(self).wf(),
            Self::admit_step(*old(self), *final(self), record, kind, Direction::Inbound, now, r),
    {
        self.admit_and_open(record, kind, Direction::Inbound, now)
    }

    /// Handle call: drop the session to `id` that was added with the
    /// given kind. Returns whether such a session was tracked.
    pub fn remove_peer(&mut self, id: u64, kind: PeerKind) -> (removed: bool)
        requires
            old(self).wf(),
            old(self).running,
            old(self).events.log@.len() + 2 <= usize::MAX,
        ensures
            final(self).wf(),
            Self::remove_step(*old(self), *final(self), id, kind, removed),
            removed ==> !has_peer_id(final(self).registry.entries@, id),
    {
        let matched = match self.registry.entry(id) {
            Some(e) => e.kind == kind,
            None => false,
        };
        if matched {
            self.close_and_publish(id);
            true
        } else {
            proof {
                assert(self.events.log@ =~= old(self).events.log@ + Seq::<
                    NetworkEvent,
                >::empty());
            }
            false
        }
    }

    /// The transport reports the connection to `id` is established: mark
    /// the session `Connected` and tell every subscriber. Without a
    /// session being opened the signal is stale and ignored.
    pub fn on_session_established(&mut self, id: u64) -> (r: bool)
        requires
            old(self).wf(),
            old(self).running,
            old(self).events.log@.len() < usize::MAX,
        ensures
            final(self).wf(),
            r == match peer_lookup(old(self).registry.entries@, id) {
                Some(e) => e.state is Connecting,
                None => false,
            },
            r ==> final(self).registry.entries@ == old(self).registry.entries@.update(
                peer_index(old(self).registry.entries@, id),
                PeerEntry {
                    state: ConnectionState::Connected,
                    ..old(self).registry.entries@[peer_index(old(self).registry.entries@, id)]
                },
            ) && final(self).events.log@ == old(self).events.log@.push(
                NetworkEvent::SessionEstablished(id),
            ),
            !r ==> final(self).registry.entries@ == old(self).registry.entries@
                && final(self).events.log@ == old(self).events.log@,
            Self::same_except_sessions(*old(self), *final(self)),
    {
        let moved = self.registry.establish(id);
        if moved {
            self.events.publish(NetworkEvent::SessionEstablished(id));
        }
        moved
    }

    /// The transport reports the connection attempt to `id` failed:
    /// close the session and ban the node for the configured duration,
    /// so admission refuses it until the ban expires. The core itself
    /// never retries.
    pub fn on_connection_failed(&mut self, id: u64, now: u64) -> (removed: bool)
        requires
            old(self).wf(),
            old(self).running,
            old(self).events.log@.len() + 2 <= usize::MAX,
            now + old(self).ban_duration <= u64::MAX,
        ensures
            final(self).wf(),
            removed == has_peer_id(old(self).registry.entries@, id),
            final(self).registry.entries@ == remove_peer_id(old(self).registry.entries@, id),
            !has_peer_id(final(self).registry.entries@, id),
            final(self).events.log@ == old(self).events.log@ + close_events(
                old(self).registry.entries@,
                id,
            ),
            final(self).bans.spec_expiry(id) == Some((now + old(self).ban_duration) as u64),
            forall|o: u64|
                o != id ==> final(self).bans.spec_expiry(o) == old(self).bans.spec_expiry(o),
            final(self).events.subs@ == old(self).events.subs@,
            final(self).events.closed == old(self).events.closed,
            final(self).running == old(self).running,
            final(self).handles == old(self).handles,
            final(self).router.eth == old(self).router.eth,
            final(self).router.txs == old(self).router.txs,
            final(self).local == old(self).local,
            final(self).ban_duration == old(self).ban_duration,
            final(self).registry.max_inbound == old(self).registry.max_inbound,
            final(self).registry.max_outbound == old(self).registry.max_outbound,
    {
        let removed = self.close_and_publish(id);
        let until = now + self.ban_duration;
        self.bans.ban(id, until);
        removed
    }

    /// Register a new event listener. Every event published from this
    /// point on reaches it, in publish order.
    pub fn event_listener(&mut self) -> (s: usize)
        requires
            old(self).wf(),
        ensures
            final(self).wf(),
            s == old(self).events.subs@.len(),
            final(self).events.subs@ == old(self).events.subs@.push(
                crate::events::Subscription {
                    start: old(self).events.log.len(),
                    cursor: old(self).events.log.len(),
                    live: true,
                },
            ),
            final(self).events.log@ == old(self).events.log@,
            final(self).events.closed == old(self).events.closed,
            Self::same_sessions(*old(self), *final(self)),
            Self::same_router(*old(self), *final(self)),
            Self::same_lifecycle(*old(self), *final(self)),
    {
        self.events.subscribe()
    }

    /// Poll listener `s` once.
    pub fn poll_listener(&mut self, s: usize) -> (r: StreamPoll)
        requires
            old(self).wf(),
            s < old(self).events.subs@.len(),
            old(self).events.subs@[s as int].live,
        ensures
            final(self).wf(),
            r == old(self).events.spec_poll(s as int),
            final(self).events.log@ == old(self).events.log@,
            final(self).events.closed == old(self).events.closed,
            final(self).events.subs@.len() == old(self).events.subs@.len(),
            forall|o: int|
                0 <= o < old(self).events.subs@.len() && o != s ==> final(self).events.subs@[o]
                    == old(self).events.subs@[o],
            final(self).events.subs@[s as int].start == old(self).events.subs@[s as int].start,
            final(self).events.subs@[s as int].live == old(self).events.subs@[s as int].live,
            r is Ready ==> final(self).events.subs@[s as int].cursor == old(
                self,
            ).events.subs@[s as int].cursor + 1 && final(self).events.delivered(s as int) == old(
                self,
            ).events.delivered(s as int).push(
                old(self).events.log@[old(self).events.subs@[s as int].cursor as int],
            ),
            !(r is Ready) ==> final(self).events.subs@[s as int] == old(
                self,
            ).events.subs@[s as int],
            Self::same_sessions(*old(self), *final(self)),
            Self::same_router(*old(self), *final(self)),
            Self::same_lifecycle(*old(self), *final(self)),
    {
        self.events.poll(s)
    }

    /// A listener dropped its stream: forget it. The orchestrator
    /// tolerates dead subscribers and never fails on their account.
    pub fn drop_listener(&mut self, s: usize)
        requires
            old(self).wf(),
            s < old(self).events.subs@.len(),
        ensures
            final(self).wf(),
            final(self).events.log@ == old(self).events.log@,
            final(self).events.closed == old(self).events.closed,
            final(self).events.subs@ == old(self).events.subs@.update(
                s as int,
                crate::events::Subscription {
                    live: false,
                    ..old(self).events.subs@[s as int]
                },
            ),
            Self::same_sessions(*old(self), *final(self)),
            Self::same_router(*old(self), *final(self)),
            Self::same_lifecycle(*old(self), *final(self)),
    {
        self.events.unsubscribe(s)
    }

    /// A handle was cloned.
    pub fn clone_handle(&mut self)
        requires
            old(self).wf(),
            old(self).handles < usize::MAX,
        ensures
            final(self).wf(),
            final(self).handles == old(self).handles + 1,
            final(self).discovery_control == old(self).discovery_control,
            final(self).running == old(self).running,
            Self::same_sessions(*old(self), *final(self)),
            Self::same_router(*old(self), *final(self)),
            Self::same_events(*old(self), *final(self)),
    {
        self.handles = self.handles + 1;
    }

    /// A handle was dropped. Losing handles — even the last one — never
    /// stops the node: only cancelling the driving task does.
    pub fn drop_handle(&mut self)
        requires
            old(self).wf(),
            old(self).handles > 0,
        ensures
            final(self).wf(),
            final(self).handles == old(self).handles - 1,
            final(self).discovery_control == old(self).discovery_control,
            final(self).running == old(self).running,
            Self::same_sessions(*old(self), *final(self)),
            Self::same_router(*old(self), *final(self)),
            Self::same_events(*old(self), *final(self)),
    {
        self.handles = self.handles - 1;
    }

    /// The discovery service's control handle was dropped. Like handles,
    /// this does not stop the node.
    pub fn drop_discovery_control(&mut self)
        requires
            old(self).wf(),
        ensures
            final(self).wf(),
            !final(self).discovery_control,
            final(self).handles == old(self).handles,
            final(self).running == old(self).running,
            Self::same_sessions(*old(self), *final(self)),
            Self::same_router(*old(self), *final(self)),
            Self::same_events(*old(self), *final(self)),
    {
        self.discovery_control = false;
    }

    /// The driving task was cancelled: the only shutdown path. The
    /// broadcast closes, so every open listener stream drains its
    /// backlog and then terminates with end-of-stream.
    pub fn cancel(&mut self)
        requires
            old(self).wf(),
        ensures
            final(self).wf(),
            !final(self).running,
            final(self).events.closed,
            final(self).events.log@ == old(self).events.log@,
            final(self).events.subs@ == old(self).events.subs@,
            final(self).handles == old(self).handles,
            final(self).discovery_control == old(self).discovery_control,
            Self::same_sessions(*old(self), *final(self)),
            Self::same_router(*old(self), *final(self)),
    {
        self.running = false;
        self.events.close();
    }

    /// Install (or replace) the endpoint inbound protocol requests are
    /// forwarded to.
    pub fn set_eth_request_handler(&mut self, capacity: usize)
        requires
            old(self).wf(),
        ensures
            final(self).wf(),
            match final(self).router.eth {
                Some(s) => s.buf@ == Seq::<EthRequest>::empty() && s.capacity == capacity,
                None => false,
            },
            final(self).router.txs == old(self).router.txs,
            Self::same_sessions(*old(self), *final(self)),
            Self::same_lifecycle(*old(self), *final(self)),
            Self::same_events(*old(self), *final(self)),
    {
        self.router.set_eth_request_handler(capacity)
    }

    /// Install (or replace) the endpoint transaction gossip is forwarded
    /// to.
    pub fn set_transactions(&mut self)
        requires
            old(self).wf(),
        ensures
            final(self).wf(),
            match final(self).router.txs {
                Some(s) => s.buf@ == Seq::<u64>::empty(),
                None => false,
            },
            final(self).router.eth == old(self).router.eth,
            Self::same_sessions(*old(self), *final(self)),
            Self::same_lifecycle(*old(self), *final(self)),
            Self::same_events(*old(self), *final(self)),
    {
        self.router.set_transactions()
    }

    /// Forward one inbound protocol request to the installed handler.
    pub fn on_eth_request(&mut self, req: EthRequest) -> (r: ForwardOutcome)
        requires
            old(self).wf(),
        ensures
            final(self).wf(),
            final(self).router.txs == old(self).router.txs,
            match old(self).router.eth {
                None => r == ForwardOutcome::Discarded && final(self).router.eth == old(
                    self,
                ).router.eth,
                Some(s) => {
                    if s.buf@.len() >= s.capacity {
                        &&& r == ForwardOutcome::Blocked
                        &&& final(self).router.eth == old(self).router.eth
                    } else {
                        &&& r == ForwardOutcome::Delivered
                        &&& match final(self).router.eth {
                            Some(t) => t.capacity == s.capacity && t.buf@ == s.buf@.push(req),
                            None => false,
                        }
                    }
                },
            },
            Self::same_sessions(*old(self), *final(self)),
            Self::same_lifecycle(*old(self), *final(self)),
            Self::same_events(*old(self), *final(self)),
    {
        self.router.forward_eth_request(req)
    }

    /// Forward one piece of transaction gossip to the installed handler.
    pub fn on_transactions(&mut self, tx: u64) -> (r: ForwardOutcome)
        requires
            old(self).wf(),
            match old(self).router.txs {
                Some(s) => s.buf@.len() < usize::MAX,
                None => true,
            },
        ensures
            final(self).wf(),
            final(self).router.eth == old(self).router.eth,
            match old(self).router.txs {
                None => r == ForwardOutcome::Discarded && final(self).router.txs == old(
                    self,
                ).router.txs,
                Some(s) => r == ForwardOutcome::Delivered && match final(self).router.txs {
                    Some(t) => t.buf@ == s.buf@.push(tx),
                    None => false,
                },
            },
            Self::same_sessions(*old(self), *final(self)),
            Self::same_lifecycle(*old(self), *final(self)),
            Self::same_events(*old(self), *final(self)),
    {
        self.router.forward_transactions(tx)
    }
}

/// Cancellation before establishment is race-free: an `add_peer` for an
/// untracked identity followed immediately by a `remove_peer` appends no
/// `SessionEstablished` and no `SessionClosed` for that identity to the
/// event log — so no listener can observe a `Connected` state, only a
/// `PeerAdded` possibly followed by a bare `PeerRemoved` — and afterwards
/// the identity is not tracked at all.
pub proof fn lemma_cancel_before_establish(
    pre: NetworkOrchestrator,
    mid: NetworkOrchestrator,
    post: NetworkOrchestrator,
    record: NodeRecord,
    kind: PeerKind,
    now1: u64,
    admitted: bool,
    removed: bool,
)
    requires
        pre.wf(),
        !has_peer_id(pre.registry.entries@, record.id),
        NetworkOrchestrator::admit_step(pre, mid, record, kind, Direction::Outbound, now1, admitted),
        NetworkOrchestrator::remove_step(mid, post, record.id, kind, removed),
    ensures
        post.events.log@.len() >= pre.events.log@.len(),
        forall|i: int|
            pre.events.log@.len() <= i < post.events.log@.len()
                ==> (#[trigger] post.events.log@[i]) != NetworkEvent::SessionEstablished(record.id)
                && post.events.log@[i] != NetworkEvent::SessionClosed(record.id),
        !has_peer_id(post.registry.entries@, record.id),
{
    let d = spec_decide(pre.registry, pre.bans, pre.local.id, record, Direction::Outbound, now1);
    let e = PeerEntry {
        record,
        kind,
        direction: Direction::Outbound,
        state: ConnectionState::Connecting,
    };
    if d is Admit {
        assert(mid.registry.entries@ == pre.registry.entries@.push(e));
        lemma_unique_after_push(pre.registry.entries@, e);
        lemma_entry_determines_lookup(
            mid.registry.entries@,
            record.id,
            pre.registry.entries@.len() as int,
        );
        assert(peer_lookup(mid.registry.entries@, record.id) == Some(e));
        assert(close_events(mid.registry.entries@, record.id) == seq![
            NetworkEvent::PeerRemoved(record.id),
        ]);
        assert(post.registry.entries@ == remove_peer_id(mid.registry.entries@, record.id));
        lemma_lookup_after_remove(
            mid.registry.entries@,
            peer_index(mid.registry.entries@, record.id),
            record.id,
        );
        assert(!has_peer_id(post.registry.entries@, record.id));
    } else {
        assert(mid.registry.entries@ == pre.registry.entries@);
        assert(peer_lookup(mid.registry.entries@, record.id) is None);
        assert(post.registry.entries@ == mid.registry.entries@);
    }
}

/// However the orchestrator is driven — any sequence of discovery
/// updates, handle calls and transport signals, each of which preserves
/// well-formedness — the number of `Connected` inbound sessions never
/// exceeds `max_inbound`, and outbound never exceeds `max_outbound`:
/// the capacity part of `wf` bounds the occupied slots, and established
/// sessions are a subset of those.
pub proof fn lemma_capacity_never_exceeded(o: NetworkOrchestrator)
    requires
        o.wf(),
    ensures
        crate::registry::count_connected(o.registry.entries@, Direction::Inbound)
            <= o.registry.max_inbound,
        crate::registry::count_connected(o.registry.entries@, Direction::Outbound)
            <= o.registry.max_outbound,
{
    crate::registry::lemma_connected_within_limits(o.registry);
}

} // verus!
