use vstd::prelude::*;

verus! {

/// A connection-lifecycle event fanned out to every subscriber.
#[derive(Clone, Copy, PartialEq, Eq, Structural, Debug)]
pub enum NetworkEvent {
    PeerAdded(u64),
    SessionEstablished(u64),
    SessionClosed(u64),
    PeerRemoved(u64),
}

/// What one poll of a subscriber stream yields.
#[derive(Clone, Copy, PartialEq, Eq, Structural, Debug)]
pub enum StreamPoll {
    Ready(NetworkEvent),
    Pending,
    Ended,
}

/// One subscriber: it sees the broadcast log from `start` forward and has
/// consumed it up to `cursor`. A subscriber that dropped its stream is no
/// longer `live`.
#[derive(Clone, Copy, PartialEq, Eq, Structural, Debug)]
pub struct Subscription {
    pub start: usize,
    pub cursor: usize,
    pub live: bool,
}

/// Broadcast fan-out of network events: one producer appends to a single
/// log; each subscriber advances through that log independently. The
/// buffering policy is deliberate: every subscriber keeps its own cursor
/// into the shared log, so a slow subscriber never blocks the producer or
/// the other subscribers, at the cost of the log outliving its slowest
/// reader. Once closed, no more events are published and drained
/// subscribers see end-of-stream.
pub struct EventBroadcaster {
    pub log: Vec<NetworkEvent>,
    pub subs: Vec<Subscription>,
    pub closed: bool,
}

impl EventBroadcaster {
    /// Every cursor lies between its subscription point and the end of
    /// the log.
    pub open spec fn wf(self) -> bool {
        forall|s: int|
            0 <= s < self.subs@.len() ==> (#[trigger] self.subs@[s]).start <= self.subs@[s].cursor
                <= self.log@.len()
    }

    /// The events subscriber `s` has received, in the order it received
    /// them: the log segment from its subscription point to its cursor.
    pub open spec fn delivered(self, s: int) -> Seq<NetworkEvent> {
        self.log@.subrange(self.subs@[s].start as int, self.subs@[s].cursor as int)
    }

    /// Events published since subscriber `s` last polled.
    pub open spec fn backlog(self, s: int) -> int {
        self.log@.len() - self.subs@[s].cursor
    }

    /// What polling subscriber `s` yields: the next unread log entry, or
    /// `Ended` once the broadcaster is closed and the backlog is drained,
    /// or `Pending` while open with nothing new.
    pub open spec fn spec_poll(self, s: int) -> StreamPoll {
        if self.subs@[s].cursor < self.log@.len() {
            StreamPoll::Ready(self.log@[self.subs@[s].cursor as int])
        } else if self.closed {
            StreamPoll::Ended
        } else {
            StreamPoll::Pending
        }
    }

    pub fn new() -> (r: EventBroadcaster)
        ensures
            r.wf(),
            r.log@ == Seq::<NetworkEvent>::empty(),
            r.subs@ == Seq::<Subscription>::empty(),
            !r.closed,
    {
        EventBroadcaster { log: Vec::new(), subs: Vec::new(), closed: false }
    }

    /// Register a new independent subscriber. It will see every event
    /// published from this point forward, and none from before.
    pub fn subscribe(&mut self) -> (s: usize)
        requires
            old(self).wf(),
        ensures
            final(self).wf(),
            s == old(self).subs@.len(),
            final(self).subs@ == old(self).subs@.push(
                Subscription {
                    start: old(self).log.len(),
                    cursor: old(self).log.len(),
                    live: true,
                },
            ),
            final(self).log@ == old(self).log@,
            final(self).closed == old(self).closed,
            final(self).delivered(s as int) == Seq::<NetworkEvent>::empty(),
    {
        let s = self.subs.len();
        let at = self.log.len();
        self.subs.push(Subscription { start: at, cursor: at, live: true });
        proof {
            assert(self.delivered(s as int) =~= Seq::<NetworkEvent>::empty());
        }
        s
    }

    /// Append `e` to the broadcast log. No subscriber's cursor moves, so
    /// a slow subscriber delays nobody.
    pub fn publish(&mut self, e: NetworkEvent)
        requires
            old(self).wf(),
            !old(self).closed,
            old(self).log@.len() < usize::MAX,
        ensures
            final(self).wf(),
            final(self).log@ == old(self).log@.push(e),
            final(self).subs@ == old(self).subs@,
            final(self).closed == old(self).closed,
    {
        self.log.push(e);
    }

    /// Poll subscriber `s` once. Yields events in log order, exactly
    /// once each; after the broadcaster closes, the remaining backlog
    /// still drains and then the stream ends.
    pub fn poll(&mut self, s: usize) -> (r: StreamPoll)
        requires
            old(self).wf(),
            s < old(self).subs@.len(),
            old(self).subs@[s as int].live,
        ensures
            final(self).wf(),
            r == old(self).spec_poll(s as int),
            final(self).log@ == old(self).log@,
            final(self).closed == old(self).closed,
            forall|o: int|
                0 <= o < old(self).subs@.len() && o != s ==> final(self).subs@[o] == old(
                    self,
                ).subs@[o],
            final(self).subs@.len() == old(self).subs@.len(),
            final(self).subs@[s as int].start == old(self).subs@[s as int].start,
            final(self).subs@[s as int].live == old(self).subs@[s as int].live,
            r is Ready ==> final(self).subs@[s as int].cursor == old(self).subs@[s as int].cursor
                + 1 && final(self).delivered(s as int) == old(self).delivered(s as int).push(
                old(self).log@[old(self).subs@[s as int].cursor as int],
            ),
            !(r is Ready) ==> final(self).subs@[s as int] == old(self).subs@[s as int],
    {
        let cur = self.subs[s].cursor;
        if cur < self.log.len() {
            let e = self.log[cur];
            let upd = Subscription { cursor: cur + 1, ..self.subs[s] };
            self.subs[s] = upd;
            proof {
                assert(self.delivered(s as int) =~= old(self).delivered(s as int).push(
                    old(self).log@[old(self).subs@[s as int].cursor as int],
                ));
            }
            StreamPoll::Ready(e)
        } else if self.closed {
            StreamPoll::Ended
        } else {
            StreamPoll::Pending
        }
    }

    /// A subscriber dropped its stream: mark it dead. The broadcaster
    /// tolerates this; events keep flowing to the others.
    pub fn unsubscribe(&mut self, s: usize)
        requires
            old(self).wf(),
            s < old(self).subs@.len(),
        ensures
            final(self).wf(),
            final(self).log@ == old(self).log@,
            final(self).closed == old(self).closed,
            final(self).subs@ == old(self).subs@.update(
                s as int,
                Subscription { live: false, ..old(self).subs@[s as int] },
            ),
    {
        let upd = Subscription { live: false, ..self.subs[s] };
        self.subs[s] = upd;
    }

    /// Close the broadcast: the producer is gone. Subscribers drain what
    /// was already published, then see end-of-stream.
    pub fn close(&mut self)
        requires
            old(self).wf(),
        ensures
            final(self).wf(),
            final(self).closed,
            final(self).log@ == old(self).log@,
            final(self).subs@ == old(self).subs@,
    {
        self.closed = true;
    }
}

/// What a subscriber receives is the broadcast log itself, read from its
/// subscription point: entry `i` of the delivered sequence is log entry
/// `start + i`.
pub proof fn lemma_delivered_is_log_segment(b: EventBroadcaster, s: int, i: int)
    requires
        b.wf(),
        0 <= s < b.subs@.len(),
        0 <= i < b.delivered(s).len(),
    ensures
        b.delivered(s)[i] == b.log@[b.subs@[s].start + i],
{
}

/// Events common to two subscribers appear in the same relative order on
/// both: if log positions `p < q` have each been delivered to subscribers
/// `s1` and `s2`, then both subscribers received the event at `p`, the
/// event at `q`, and `p`'s strictly before `q`'s.
pub proof fn lemma_shared_events_same_order(
    b: EventBroadcaster,
    s1: int,
    s2: int,
    p: int,
    q: int,
)
    requires
        b.wf(),
        0 <= s1 < b.subs@.len(),
        0 <= s2 < b.subs@.len(),
        b.subs@[s1].start <= p < q < b.subs@[s1].cursor,
        b.subs@[s2].start <= p < q < b.subs@[s2].cursor,
    ensures
        b.delivered(s1)[p - b.subs@[s1].start] == b.log@[p],
        b.delivered(s2)[p - b.subs@[s2].start] == b.log@[p],
        b.delivered(s1)[q - b.subs@[s1].start] == b.log@[q],
        b.delivered(s2)[q - b.subs@[s2].start] == b.log@[q],
        p - b.subs@[s1].start < q - b.subs@[s1].start,
        p - b.subs@[s2].start < q - b.subs@[s2].start,
{
}

/// Once the broadcaster is closed, a subscriber's stream terminates with
/// end-of-stream after at most its backlog of already published events:
/// while the backlog is non-empty a poll yields the next event and
/// shrinks the backlog by one, and with an empty backlog it yields
/// `Ended`, never `Pending`.
pub proof fn lemma_closed_stream_terminates(b: EventBroadcaster, s: int)
    requires
        b.wf(),
        b.closed,
        0 <= s < b.subs@.len(),
    ensures
        b.backlog(s) >= 0,
        b.backlog(s) == 0 ==> b.spec_poll(s) == StreamPoll::Ended,
        b.backlog(s) > 0 ==> b.spec_poll(s) == StreamPoll::Ready(
            b.log@[b.subs@[s].cursor as int],
        ),
{
}

} // verus!
