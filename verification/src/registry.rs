use crate::record::NodeRecord;
use vstd::prelude::*;

verus! {

/// Classification of a peer, affecting how it entered the table.
#[derive(Clone, Copy, PartialEq, Eq, Structural, Debug)]
pub enum PeerKind {
    Basic,
    Trusted,
    Static,
}

/// Which side initiated the session.
#[derive(Clone, Copy, PartialEq, Eq, Structural, Debug)]
pub enum Direction {
    Inbound,
    Outbound,
}

/// Lifecycle of a tracked session. An absent entry is the disconnected
/// state: entries are removed when a session is closed, so the table only
/// holds sessions that are being opened, open, or being torn down.
#[derive(Clone, Copy, PartialEq, Eq, Structural, Debug)]
pub enum ConnectionState {
    Connecting,
    Connected,
    Disconnecting,
}

/// One tracked session, keyed by `record.id`.
#[derive(Clone, Copy, PartialEq, Eq, Structural, Debug)]
pub struct PeerEntry {
    pub record: NodeRecord,
    pub kind: PeerKind,
    pub direction: Direction,
    pub state: ConnectionState,
}

/// No identity occurs twice in `s`.
pub open spec fn unique_peer_ids(s: Seq<PeerEntry>) -> bool {
    forall|i: int, j: int|
        0 <= i < s.len() && 0 <= j < s.len() && i != j
            ==> (#[trigger] s[i]).record.id != (#[trigger] s[j]).record.id
}

/// Some entry of `s` carries `id`.
pub open spec fn has_peer_id(s: Seq<PeerEntry>, id: u64) -> bool {
    exists|i: int| 0 <= i < s.len() && (#[trigger] s[i]).record.id == id
}

/// The index of the entry carrying `id` (meaningful under `has_peer_id`
/// and `unique_peer_ids`).
pub open spec fn peer_index(s: Seq<PeerEntry>, id: u64) -> int {
    choose|i: int| 0 <= i < s.len() && (#[trigger] s[i]).record.id == id
}

/// The entry carrying `id`, if any.
pub open spec fn peer_lookup(s: Seq<PeerEntry>, id: u64) -> Option<PeerEntry> {
    if has_peer_id(s, id) {
        Some(s[peer_index(s, id)])
    } else {
        None
    }
}

/// `s` with the entry carrying `id` removed (if present).
pub open spec fn remove_peer_id(s: Seq<PeerEntry>, id: u64) -> Seq<PeerEntry> {
    if has_peer_id(s, id) {
        s.remove(peer_index(s, id))
    } else {
        s
    }
}

/// Whether `e` takes a slot of direction `d`: a session being opened or
/// open counts against capacity; one being torn down no longer does.
pub open spec fn occupies(e: PeerEntry, d: Direction) -> bool {
    e.direction == d && (e.state is Connecting || e.state is Connected)
}

/// Whether `e` is an established session of direction `d`.
pub open spec fn connected_in(e: PeerEntry, d: Direction) -> bool {
    e.direction == d && e.state is Connected
}

/// Slots of direction `d` taken in `s`.
pub open spec fn count_occupied(s: Seq<PeerEntry>, d: Direction) -> nat
    decreases s.len(),
{
    if s.len() == 0 {
        0
    } else {
        count_occupied(s.drop_last(), d) + (if occupies(s.last(), d) {
            1nat
        } else {
            0nat
        })
    }
}

/// Established sessions of direction `d` in `s`.
pub open spec fn count_connected(s: Seq<PeerEntry>, d: Direction) -> nat
    decreases s.len(),
{
    if s.len() == 0 {
        0
    } else {
        count_connected(s.drop_last(), d) + (if connected_in(s.last(), d) {
            1nat
        } else {
            0nat
        })
    }
}

pub proof fn lemma_occupied_push(s: Seq<PeerEntry>, d: Direction, e: PeerEntry)
    ensures
        count_occupied(s.push(e), d) == count_occupied(s, d) + (if occupies(e, d) {
            1nat
        } else {
            0nat
        }),
{
    assert(s.push(e).drop_last() =~= s);
    assert(s.push(e).last() == e);
}

pub proof fn lemma_occupied_update(s: Seq<PeerEntry>, d: Direction, k: int, e: PeerEntry)
    requires
        0 <= k < s.len(),
    ensures
        count_occupied(s.update(k, e), d) + (if occupies(s[k], d) {
            1nat
        } else {
            0nat
        }) == count_occupied(s, d) + (if occupies(e, d) {
            1nat
        } else {
            0nat
        }),
    decreases s.len(),
{
    let t = s.update(k, e);
    if k == s.len() - 1 {
        assert(t.drop_last() =~= s.drop_last());
        assert(t.last() == e);
    } else {
        assert(t.drop_last() =~= s.drop_last().update(k, e));
        assert(t.last() == s.last());
        lemma_occupied_update(s.drop_last(), d, k, e);
    }
}

pub proof fn lemma_occupied_remove(s: Seq<PeerEntry>, d: Direction, k: int)
    requires
        0 <= k < s.len(),
    ensures
        count_occupied(s.remove(k), d) + (if occupies(s[k], d) {
            1nat
        } else {
            0nat
        }) == count_occupied(s, d),
    decreases s.len(),
{
    let t = s.remove(k);
    if k == s.len() - 1 {
        assert(t =~= s.drop_last());
    } else {
        assert(t.drop_last() =~= s.drop_last().remove(k));
        assert(t.last() == s.last());
        lemma_occupied_remove(s.drop_last(), d, k);
    }
}

pub proof fn lemma_connected_push(s: Seq<PeerEntry>, d: Direction, e: PeerEntry)
    ensures
        count_connected(s.push(e), d) == count_connected(s, d) + (if connected_in(e, d) {
            1nat
        } else {
            0nat
        }),
{
    assert(s.push(e).drop_last() =~= s);
    assert(s.push(e).last() == e);
}

/// An established session always takes a slot, so the connected count is
/// bounded by the occupied count.
pub proof fn lemma_connected_le_occupied(s: Seq<PeerEntry>, d: Direction)
    ensures
        count_connected(s, d) <= count_occupied(s, d),
    decreases s.len(),
{
    if s.len() > 0 {
        lemma_connected_le_occupied(s.drop_last(), d);
    }
}

/// Under uniqueness, any entry holding `id` is the one `peer_lookup` reads.
pub proof fn lemma_entry_determines_lookup(s: Seq<PeerEntry>, id: u64, i: int)
    requires
        unique_peer_ids(s),
        0 <= i < s.len(),
        s[i].record.id == id,
    ensures
        has_peer_id(s, id),
        peer_index(s, id) == i,
        peer_lookup(s, id) == Some(s[i]),
{
    assert(has_peer_id(s, id));
    let j = peer_index(s, id);
    assert(0 <= j < s.len() && s[j].record.id == id);
}

/// Appending an entry for a fresh identity keeps identities unique.
pub proof fn lemma_unique_after_push(s: Seq<PeerEntry>, e: PeerEntry)
    requires
        unique_peer_ids(s),
        !has_peer_id(s, e.record.id),
    ensures
        unique_peer_ids(s.push(e)),
{
    let t = s.push(e);
    assert forall|i: int, j: int|
        0 <= i < t.len() && 0 <= j < t.len() && i != j
        implies (#[trigger] t[i]).record.id != (#[trigger] t[j]).record.id by {
        if i < s.len() && j < s.len() {
            assert(s[i].record.id != s[j].record.id);
        } else if i < s.len() {
            assert(s[i].record.id != e.record.id);
        } else {
            assert(s[j].record.id != e.record.id);
        }
    }
}

/// Appending an entry for a fresh identity leaves other lookups as they
/// were.
proof fn lemma_lookup_after_push(s: Seq<PeerEntry>, e: PeerEntry, o: u64)
    requires
        unique_peer_ids(s),
        !has_peer_id(s, e.record.id),
        o != e.record.id,
    ensures
        peer_lookup(s.push(e), o) == peer_lookup(s, o),
{
    let t = s.push(e);
    lemma_unique_after_push(s, e);
    if has_peer_id(s, o) {
        let i = peer_index(s, o);
        assert(0 <= i < s.len() && s[i].record.id == o);
        assert(t[i].record.id == o);
        lemma_entry_determines_lookup(t, o, i);
        lemma_entry_determines_lookup(s, o, i);
    } else {
        if has_peer_id(t, o) {
            let j = peer_index(t, o);
            assert(0 <= j < t.len() && t[j].record.id == o);
            assert(j != s.len() as int);
            assert(s[j].record.id == o);
        }
    }
}

/// Replacing the entry at `k` by one with the same identity keeps
/// identities unique.
proof fn lemma_unique_after_update(s: Seq<PeerEntry>, k: int, e: PeerEntry)
    requires
        unique_peer_ids(s),
        0 <= k < s.len(),
        e.record.id == s[k].record.id,
    ensures
        unique_peer_ids(s.update(k, e)),
{
    let t = s.update(k, e);
    assert forall|i: int, j: int|
        0 <= i < t.len() && 0 <= j < t.len() && i != j
        implies (#[trigger] t[i]).record.id != (#[trigger] t[j]).record.id by {
        assert(t[i].record.id == s[i].record.id);
        assert(t[j].record.id == s[j].record.id);
    }
}

/// Replacing the entry at `k` by one with the same identity leaves other
/// lookups as they were.
proof fn lemma_lookup_after_update(s: Seq<PeerEntry>, k: int, e: PeerEntry, o: u64)
    requires
        unique_peer_ids(s),
        0 <= k < s.len(),
        e.record.id == s[k].record.id,
        o != e.record.id,
    ensures
        peer_lookup(s.update(k, e), o) == peer_lookup(s, o),
{
    let t = s.update(k, e);
    lemma_unique_after_update(s, k, e);
    if has_peer_id(s, o) {
        let i = peer_index(s, o);
        assert(0 <= i < s.len() && s[i].record.id == o);
        assert(i != k);
        assert(t[i].record.id == o);
        lemma_entry_determines_lookup(t, o, i);
        lemma_entry_determines_lookup(s, o, i);
    } else {
        if has_peer_id(t, o) {
            let j = peer_index(t, o);
            assert(0 <= j < t.len() && t[j].record.id == o);
            assert(j != k);
            assert(s[j].record.id == o);
        }
    }
}

/// Removing the entry at `k` keeps identities unique, leaves no entry for
/// the removed identity, and leaves other lookups as they were.
pub proof fn lemma_lookup_after_remove(s: Seq<PeerEntry>, k: int, o: u64)
    requires
        unique_peer_ids(s),
        0 <= k < s.len(),
    ensures
        unique_peer_ids(s.remove(k)),
        !has_peer_id(s.remove(k), s[k].record.id),
        o != s[k].record.id ==> peer_lookup(s.remove(k), o) == peer_lookup(s, o),
{
    let t = s.remove(k);
    s.remove_ensures(k);
    assert forall|i: int, j: int|
        0 <= i < t.len() && 0 <= j < t.len() && i != j
        implies (#[trigger] t[i]).record.id != (#[trigger] t[j]).record.id by {
        let i0: int = if i < k {
            i
        } else {
            i + 1
        };
        let j0: int = if j < k {
            j
        } else {
            j + 1
        };
        assert(t[i] == s[i0]);
        assert(t[j] == s[j0]);
        assert(s[i0].record.id != s[j0].record.id);
    }
    if has_peer_id(t, s[k].record.id) {
        let j = peer_index(t, s[k].record.id);
        assert(0 <= j < t.len() && t[j].record.id == s[k].record.id);
        let j0: int = if j < k {
            j
        } else {
            j + 1
        };
        assert(t[j] == s[j0]);
        assert(j0 != k);
        assert(false);
    }
    if o != s[k].record.id {
        if has_peer_id(s, o) {
            let i = peer_index(s, o);
            assert(0 <= i < s.len() && s[i].record.id == o);
            assert(i != k);
            let i1: int = if i < k {
                i
            } else {
                i - 1
            };
            assert(t[i1] == s[i]);
            lemma_entry_determines_lookup(t, o, i1);
            lemma_entry_determines_lookup(s, o, i);
        } else {
            if has_peer_id(t, o) {
                let j = peer_index(t, o);
                assert(0 <= j < t.len() && t[j].record.id == o);
                let j0: int = if j < k {
                    j
                } else {
                    j + 1
                };
                assert(t[j] == s[j0]);
                assert(s[j0].record.id == o);
            }
        }
    }
}

/// Active peer sessions keyed by node identity, together with the
/// capacity limits the table is held to. Absent identities are
/// disconnected; each present identity occurs exactly once.
pub struct SessionRegistry {
    pub entries: Vec<PeerEntry>,
    pub max_inbound: usize,
    pub max_outbound: usize,
}

impl SessionRegistry {
    /// The capacity limit for slots of direction `d`.
    pub open spec fn spec_cap(self, d: Direction) -> usize {
        match d {
            Direction::Inbound => self.max_inbound,
            Direction::Outbound => self.max_outbound,
        }
    }

    /// Well-formedness: identities unique, and taken slots within the
    /// configured limits in both directions.
    pub open spec fn wf(self) -> bool {
        &&& unique_peer_ids(self.entries@)
        &&& count_occupied(self.entries@, Direction::Inbound) <= self.max_inbound
        &&& count_occupied(self.entries@, Direction::Outbound) <= self.max_outbound
    }

    pub fn new(max_inbound: usize, max_outbound: usize) -> (r: SessionRegistry)
        ensures
            r.wf(),
            r.entries@ == Seq::<PeerEntry>::empty(),
            r.max_inbound == max_inbound,
            r.max_outbound == max_outbound,
    {
        SessionRegistry { entries: Vec::new(), max_inbound, max_outbound }
    }

    pub fn contains(&self, id: u64) -> (r: bool)
        requires
            self.wf(),
        ensures
            r == has_peer_id(self.entries@, id),
    {
        let n = self.entries.len();
        let mut k: usize = 0;
        while k < n
            invariant
                n == self.entries@.len(),
                k <= n,
                forall|i: int| 0 <= i < k ==> (#[trigger] self.entries@[i]).record.id != id,
            decreases n - k,
        {
            if self.entries[k].record.id == id {
                return true;
            }
            k += 1;
        }
        assert(!has_peer_id(self.entries@, id));
        false
    }

    /// The full entry tracked for `id`, if any.
    pub fn entry(&self, id: u64) -> (r: Option<PeerEntry>)
        requires
            self.wf(),
        ensures
            r == peer_lookup(self.entries@, id),
    {
        let n = self.entries.len();
        let mut k: usize = 0;
        while k < n
            invariant
                n == self.entries@.len(),
                k <= n,
                self.wf(),
                forall|i: int| 0 <= i < k ==> (#[trigger] self.entries@[i]).record.id != id,
            decreases n - k,
        {
            if self.entries[k].record.id == id {
                proof {
                    lemma_entry_determines_lookup(self.entries@, id, k as int);
                }
                return Some(self.entries[k]);
            }
            k += 1;
        }
        assert(!has_peer_id(self.entries@, id));
        None
    }

    /// The tracked state of `id`, if a session for it is in the table.
    pub fn state_of(&self, id: u64) -> (r: Option<ConnectionState>)
        requires
            self.wf(),
        ensures
            r == match peer_lookup(self.entries@, id) {
                Some(e) => Some(e.state),
                None => None::<ConnectionState>,
            },
    {
        let n = self.entries.len();
        let mut k: usize = 0;
        while k < n
            invariant
                n == self.entries@.len(),
                k <= n,
                self.wf(),
                forall|i: int| 0 <= i < k ==> (#[trigger] self.entries@[i]).record.id != id,
            decreases n - k,
        {
            if self.entries[k].record.id == id {
                proof {
                    lemma_entry_determines_lookup(self.entries@, id, k as int);
                }
                return Some(self.entries[k].state);
            }
            k += 1;
        }
        assert(!has_peer_id(self.entries@, id));
        None
    }

    /// The number of taken slots, `(inbound, outbound)`. Sessions being
    /// opened count along with established ones.
    pub fn count(&self) -> (r: (usize, usize))
        requires
            self.wf(),
        ensures
            r.0 == count_occupied(self.entries@, Direction::Inbound),
            r.1 == count_occupied(self.entries@, Direction::Outbound),
    {
        let n = self.entries.len();
        let mut cin: usize = 0;
        let mut cout: usize = 0;
        let mut k: usize = 0;
        proof {
            assert(self.entries@.subrange(0, 0) =~= Seq::<PeerEntry>::empty());
        }
        while k < n
            invariant
                n == self.entries@.len(),
                k <= n,
                cin == count_occupied(self.entries@.subrange(0, k as int), Direction::Inbound),
                cout == count_occupied(self.entries@.subrange(0, k as int), Direction::Outbound),
                cin <= k,
                cout <= k,
            decreases n - k,
        {
            let ghost pre = self.entries@.subrange(0, k as int);
            let e = self.entries[k];
            proof {
                assert(self.entries@.subrange(0, k as int + 1) =~= pre.push(
                    self.entries@[k as int],
                ));
                lemma_occupied_push(pre, Direction::Inbound, self.entries@[k as int]);
                lemma_occupied_push(pre, Direction::Outbound, self.entries@[k as int]);
            }
            match e.direction {
                Direction::Inbound => {
                    if matches!(e.state, ConnectionState::Connecting | ConnectionState::Connected) {
                        cin += 1;
                    }
                },
                Direction::Outbound => {
                    if matches!(e.state, ConnectionState::Connecting | ConnectionState::Connected) {
                        cout += 1;
                    }
                },
            }
            k += 1;
        }
        proof {
            assert(self.entries@.subrange(0, n as int) =~= self.entries@);
        }
        (cin, cout)
    }

    /// The number of established sessions, `(inbound, outbound)`.
    pub fn connected(&self) -> (r: (usize, usize))
        requires
            self.wf(),
        ensures
            r.0 == count_connected(self.entries@, Direction::Inbound),
            r.1 == count_connected(self.entries@, Direction::Outbound),
    {
        let n = self.entries.len();
        let mut cin: usize = 0;
        let mut cout: usize = 0;
        let mut k: usize = 0;
        proof {
            assert(self.entries@.subrange(0, 0) =~= Seq::<PeerEntry>::empty());
        }
        while k < n
            invariant
                n == self.entries@.len(),
                k <= n,
                cin == count_connected(self.entries@.subrange(0, k as int), Direction::Inbound),
                cout == count_connected(self.entries@.subrange(0, k as int), Direction::Outbound),
                cin <= k,
                cout <= k,
            decreases n - k,
        {
            let ghost pre = self.entries@.subrange(0, k as int);
            let e = self.entries[k];
            proof {
                assert(self.entries@.subrange(0, k as int + 1) =~= pre.push(
                    self.entries@[k as int],
                ));
                lemma_connected_push(pre, Direction::Inbound, self.entries@[k as int]);
                lemma_connected_push(pre, Direction::Outbound, self.entries@[k as int]);
            }
            match e.direction {
                Direction::Inbound => {
                    if matches!(e.state, ConnectionState::Connected) {
                        cin += 1;
                    }
                },
                Direction::Outbound => {
                    if matches!(e.state, ConnectionState::Connected) {
                        cout += 1;
                    }
                },
            }
            k += 1;
        }
        proof {
            assert(self.entries@.subrange(0, n as int) =~= self.entries@);
        }
        (cin, cout)
    }

    /// Begin tracking a session for `record`. An absent identity enters in
    /// state `Connecting`; a repeated open for a present identity is a
    /// no-op that returns the current state rather than creating a
    /// duplicate.
    pub fn open(&mut self, record: NodeRecord, kind: PeerKind, direction: Direction) -> (r:
        ConnectionState)
        requires
            old(self).wf(),
            has_peer_id(old(self).entries@, record.id) || count_occupied(
                old(self).entries@,
                direction,
            ) < old(self).spec_cap(direction),
        ensures
            final(self).wf(),
            final(self).max_inbound == old(self).max_inbound,
            final(self).max_outbound == old(self).max_outbound,
            match peer_lookup(old(self).entries@, record.id) {
                Some(e) => final(self).entries@ == old(self).entries@ && r == e.state,
                None => {
                    &&& final(self).entries@ == old(self).entries@.push(
                        PeerEntry { record, kind, direction, state: ConnectionState::Connecting },
                    )
                    &&& r == ConnectionState::Connecting
                },
            },
            forall|o: u64|
                o != record.id ==> peer_lookup(final(self).entries@, o) == peer_lookup(
                    old(self).entries@,
                    o,
                ),
    {
        let ghost pre = self.entries@;
        let n = self.entries.len();
        let mut k: usize = 0;
        while k < n
            invariant
                n == self.entries@.len(),
                k <= n,
                self.wf(),
                self.entries@ == pre,
                old(self).entries@ == pre,
                forall|i: int| 0 <= i < k ==> (#[trigger] self.entries@[i]).record.id != record.id,
            decreases n - k,
        {
            if self.entries[k].record.id == record.id {
                proof {
                    lemma_entry_determines_lookup(pre, record.id, k as int);
                }
                return self.entries[k].state;
            }
            k += 1;
        }
        assert(!has_peer_id(pre, record.id));
        let e = PeerEntry { record, kind, direction, state: ConnectionState::Connecting };
        self.entries.push(e);
        proof {
            assert(self.entries@ == pre.push(e));
            lemma_unique_after_push(pre, e);
            lemma_occupied_push(pre, Direction::Inbound, e);
            lemma_occupied_push(pre, Direction::Outbound, e);
            assert forall|o: u64| o != record.id implies peer_lookup(self.entries@, o)
                == peer_lookup(pre, o) by {
                lemma_lookup_after_push(pre, e, o);
            }
        }
        ConnectionState::Connecting
    }

    /// Record an externally reported connection-established signal: a
    /// `Connecting` entry becomes `Connected`; anything else is left
    /// alone. Returns whether the transition happened.
    pub fn establish(&mut self, id: u64) -> (r: bool)
        requires
            old(self).wf(),
        ensures
            final(self).wf(),
            final(self).max_inbound == old(self).max_inbound,
            final(self).max_outbound == old(self).max_outbound,
            r == match peer_lookup(old(self).entries@, id) {
                Some(e) => e.state is Connecting,
                None => false,
            },
            r ==> final(self).entries@ == old(self).entries@.update(
                peer_index(old(self).entries@, id),
                PeerEntry {
                    state: ConnectionState::Connected,
                    ..old(self).entries@[peer_index(old(self).entries@, id)]
                },
            ),
            !r ==> final(self).entries@ == old(self).entries@,
            forall|o: u64|
                o != id ==> peer_lookup(final(self).entries@, o) == peer_lookup(
                    old(self).entries@,
                    o,
                ),
            count_occupied(final(self).entries@, Direction::Inbound) == count_occupied(
                old(self).entries@,
                Direction::Inbound,
            ),
            count_occupied(final(self).entries@, Direction::Outbound) == count_occupied(
                old(self).entries@,
                Direction::Outbound,
            ),
    {
        let ghost pre = self.entries@;
        let n = self.entries.len();
        let mut k: usize = 0;
        while k < n
            invariant
                n == self.entries@.len(),
                k <= n,
                self.wf(),
                self.entries@ == pre,
                old(self).entries@ == pre,
                self.max_inbound == old(self).max_inbound,
                self.max_outbound == old(self).max_outbound,
                forall|i: int| 0 <= i < k ==> (#[trigger] self.entries@[i]).record.id != id,
            decreases n - k,
        {
            if self.entries[k].record.id == id {
                proof {
                    lemma_entry_determines_lookup(pre, id, k as int);
                }
                let cur = self.entries[k];
                if matches!(cur.state, ConnectionState::Connecting) {
                    let e = PeerEntry { state: ConnectionState::Connected, ..cur };
                    self.entries[k] = e;
                    proof {
                        assert(self.entries@ == pre.update(k as int, e));
                        lemma_unique_after_update(pre, k as int, e);
                        lemma_occupied_update(pre, Direction::Inbound, k as int, e);
                        lemma_occupied_update(pre, Direction::Outbound, k as int, e);
                        assert forall|o: u64| o != id implies peer_lookup(self.entries@, o)
                            == peer_lookup(pre, o) by {
                            lemma_lookup_after_update(pre, k as int, e, o);
                        }
                    }
                    return true;
                }
                return false;
            }
            k += 1;
        }
        assert(!has_peer_id(pre, id));
        false
    }

    /// Stop tracking `id`: the entry (after passing through its teardown)
    /// leaves the table. Returns the state the session was in, or `None`
    /// if the identity was not tracked.
    pub fn close(&mut self, id: u64) -> (r: Option<ConnectionState>)
        requires
            old(self).wf(),
        ensures
            final(self).wf(),
            final(self).max_inbound == old(self).max_inbound,
            final(self).max_outbound == old(self).max_outbound,
            r == match peer_lookup(old(self).entries@, id) {
                Some(e) => Some(e.state),
                None => None::<ConnectionState>,
            },
            final(self).entries@ == remove_peer_id(old(self).entries@, id),
            !has_peer_id(final(self).entries@, id),
            forall|o: u64|
                o != id ==> peer_lookup(final(self).entries@, o) == peer_lookup(
                    old(self).entries@,
                    o,
                ),
            count_occupied(final(self).entries@, Direction::Inbound) <= count_occupied(
                old(self).entries@,
                Direction::Inbound,
            ),
            count_occupied(final(self).entries@, Direction::Outbound) <= count_occupied(
                old(self).entries@,
                Direction::Outbound,
            ),
    {
        let ghost pre = self.entries@;
        let n = self.entries.len();
        let mut k: usize = 0;
        while k < n
            invariant
                n == self.entries@.len(),
                k <= n,
                self.wf(),
                self.entries@ == pre,
                old(self).entries@ == pre,
                self.max_inbound == old(self).max_inbound,
                self.max_outbound == old(self).max_outbound,
                forall|i: int| 0 <= i < k ==> (#[trigger] self.entries@[i]).record.id != id,
            decreases n - k,
        {
            if self.entries[k].record.id == id {
                proof {
                    lemma_entry_determines_lookup(pre, id, k as int);
                }
                let st = self.entries[k].state;
                self.entries.remove(k);
                proof {
                    assert(self.entries@ == pre.remove(k as int));
                    lemma_occupied_remove(pre, Direction::Inbound, k as int);
                    lemma_occupied_remove(pre, Direction::Outbound, k as int);
                    lemma_lookup_after_remove(pre, k as int, id);
                    assert forall|o: u64| o != id implies peer_lookup(self.entries@, o)
                        == peer_lookup(pre, o) by {
                        lemma_lookup_after_remove(pre, k as int, o);
                    }
                }
                return Some(st);
            }
            k += 1;
        }
        assert(!has_peer_id(pre, id));
        None
    }
}

/// The capacity invariant bounds the established sessions too: in a
/// well-formed registry the number of `Connected` inbound entries never
/// exceeds `max_inbound`, and outbound never exceeds `max_outbound`.
pub proof fn lemma_connected_within_limits(r: SessionRegistry)
    requires
        r.wf(),
    ensures
        count_connected(r.entries@, Direction::Inbound) <= r.max_inbound,
        count_connected(r.entries@, Direction::Outbound) <= r.max_outbound,
{
    lemma_connected_le_occupied(r.entries@, Direction::Inbound);
    lemma_connected_le_occupied(r.entries@, Direction::Outbound);
}

} // verus!
