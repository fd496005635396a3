use crate::ban::BanList;
use crate::record::NodeRecord;
use vstd::prelude::*;

verus! {

/// A change in the locally known set of reachable nodes, produced by the
/// discovery engine and consumed exactly once per update.
#[derive(Clone, Copy, PartialEq, Eq, Structural, Debug)]
pub enum DiscoveryUpdate {
    Added(NodeRecord),
    DiscoveredAtCapacity(NodeRecord),
    Removed(u64),
}

/// Why discovery could not be brought up. Fatal at startup; never
/// produced once the engine runs.
#[derive(Clone, Copy, PartialEq, Eq, Structural, Debug)]
pub enum BindError {
    InvalidAddress,
}

/// No identity occurs twice in `s`.
pub open spec fn unique_node_ids(s: Seq<NodeRecord>) -> bool {
    forall|i: int, j: int|
        0 <= i < s.len() && 0 <= j < s.len() && i != j
            ==> (#[trigger] s[i]).id != (#[trigger] s[j]).id
}

/// Some record of `s` carries `id`.
pub open spec fn has_node_id(s: Seq<NodeRecord>, id: u64) -> bool {
    exists|i: int| 0 <= i < s.len() && (#[trigger] s[i]).id == id
}

/// The index of the record carrying `id` (meaningful under `has_node_id`
/// and `unique_node_ids`).
pub open spec fn node_index(s: Seq<NodeRecord>, id: u64) -> int {
    choose|i: int| 0 <= i < s.len() && (#[trigger] s[i]).id == id
}

/// `s` with the record carrying `id` removed (if present).
pub open spec fn remove_node_id(s: Seq<NodeRecord>, id: u64) -> Seq<NodeRecord> {
    if has_node_id(s, id) {
        s.remove(node_index(s, id))
    } else {
        s
    }
}

/// Appending a record with a fresh identity keeps identities unique.
proof fn lemma_nodes_unique_after_push(s: Seq<NodeRecord>, e: NodeRecord)
    requires
        unique_node_ids(s),
        !has_node_id(s, e.id),
    ensures
        unique_node_ids(s.push(e)),
{
    let t = s.push(e);
    assert forall|i: int, j: int|
        0 <= i < t.len() && 0 <= j < t.len() && i != j
        implies (#[trigger] t[i]).id != (#[trigger] t[j]).id by {
        if i < s.len() && j < s.len() {
            assert(s[i].id != s[j].id);
        } else if i < s.len() {
            assert(s[i].id != e.id);
        } else {
            assert(s[j].id != e.id);
        }
    }
}

/// Removing the record at `k` keeps identities unique, leaves no record
/// for the removed identity, and leaves the other identities in place.
proof fn lemma_nodes_after_remove(s: Seq<NodeRecord>, k: int, o: u64)
    requires
        unique_node_ids(s),
        0 <= k < s.len(),
    ensures
        unique_node_ids(s.remove(k)),
        !has_node_id(s.remove(k), s[k].id),
        o != s[k].id ==> has_node_id(s.remove(k), o) == has_node_id(s, o),
{
    let t = s.remove(k);
    s.remove_ensures(k);
    assert forall|i: int, j: int|
        0 <= i < t.len() && 0 <= j < t.len() && i != j
        implies (#[trigger] t[i]).id != (#[trigger] t[j]).id by {
        let i0: int = if i < k {
            i
        } else {
            i + 1
        };
        let j0: int = if j < k {
            j
        } else {
            j + 1
        };
        assert(t[i] == s[i0]);
        assert(t[j] == s[j0]);
        assert(s[i0].id != s[j0].id);
    }
    if has_node_id(t, s[k].id) {
        let j = node_index(t, s[k].id);
        assert(0 <= j < t.len() && t[j].id == s[k].id);
        let j0: int = if j < k {
            j
        } else {
            j + 1
        };
        assert(t[j] == s[j0]);
        assert(j0 != k);
        assert(false);
    }
    if o != s[k].id {
        if has_node_id(s, o) {
            let i = node_index(s, o);
            assert(0 <= i < s.len() && s[i].id == o);
            assert(i != k);
            let i1: int = if i < k {
                i
            } else {
                i - 1
            };
            assert(t[i1] == s[i]);
            assert(has_node_id(t, o));
        } else {
            if has_node_id(t, o) {
                let j = node_index(t, o);
                assert(0 <= j < t.len() && t[j].id == o);
                let j0: int = if j < k {
                    j
                } else {
                    j + 1
                };
                assert(t[j] == s[j0]);
                assert(s[j0].id == o);
            }
        }
    }
}

/// The decision core of the node-discovery protocol: a bounded routing
/// table keyed by node identity, a ban list for nodes that failed
/// validation, and the lookup schedule. Socket I/O and wire encoding stay
/// outside; the driving loop reports sightings, failures and departures
/// and acts on the updates and lookup targets returned.
pub struct Discovery {
    pub local: NodeRecord,
    pub capacity: usize,
    pub table: Vec<NodeRecord>,
    pub bans: BanList,
    pub ban_duration: u64,
    pub boot_nodes: Vec<NodeRecord>,
    pub next_boot: usize,
    pub last_lookup: Option<u64>,
    pub lookup_interval: u64,
}

impl Discovery {
    /// Identities in the routing table are unique, the table respects its
    /// bound, the ban list is well formed, and the boot rotation index is
    /// in range.
    pub open spec fn wf(self) -> bool {
        &&& unique_node_ids(self.table@)
        &&& self.table@.len() <= self.capacity
        &&& self.bans.wf()
        &&& (self.boot_nodes@.len() == 0 ==> self.next_boot == 0)
        &&& (self.boot_nodes@.len() > 0 ==> self.next_boot < self.boot_nodes@.len())
    }

    /// The update a sighting of `rec` at `now` produces: nothing for
    /// ourselves, a banned node, or one already known; `Added` while the
    /// table has room; `DiscoveredAtCapacity` once it is full.
    pub open spec fn spec_seen(self, rec: NodeRecord, now: u64) -> Option<DiscoveryUpdate> {
        if rec.id == self.local.id {
            None
        } else if self.bans.spec_banned(rec.id, now) {
            None
        } else if has_node_id(self.table@, rec.id) {
            None
        } else if self.table@.len() < self.capacity {
            Some(DiscoveryUpdate::Added(rec))
        } else {
            Some(DiscoveryUpdate::DiscoveredAtCapacity(rec))
        }
    }

    /// Whether a lookup round is due at `now`: one has never run, or the
    /// configured interval has passed since the last.
    pub open spec fn spec_lookup_due(self, now: u64) -> bool {
        match self.last_lookup {
            None => true,
            Some(t) => t + self.lookup_interval <= now,
        }
    }

    /// Set up the engine for `local`. The bind address must name a real
    /// UDP port; a driving loop that then fails to acquire the socket
    /// reports that failure itself.
    pub fn bind(
        local: NodeRecord,
        capacity: usize,
        lookup_interval: u64,
        ban_duration: u64,
        boot_nodes: Vec<NodeRecord>,
    ) -> (r: Result<Discovery, BindError>)
        ensures
            local.udp_port == 0 ==> r == Err::<Discovery, BindError>(BindError::InvalidAddress),
            local.udp_port != 0 ==> match r {
                Ok(d) => {
                    &&& d.wf()
                    &&& d.local == local
                    &&& d.capacity == capacity
                    &&& d.table@ == Seq::<NodeRecord>::empty()
                    &&& forall|id: u64| d.bans.spec_expiry(id) == None::<u64>
                    &&& d.ban_duration == ban_duration
                    &&& d.boot_nodes@ == boot_nodes@
                    &&& d.next_boot == 0
                    &&& d.last_lookup == None::<u64>
                    &&& d.lookup_interval == lookup_interval
                },
                Err(_) => false,
            },
    {
        if local.udp_port == 0 {
            return Err(BindError::InvalidAddress);
        }
        Ok(
            Discovery {
                local,
                capacity,
                table: Vec::new(),
                bans: BanList::new(),
                ban_duration,
                boot_nodes,
                next_boot: 0,
                last_lookup: None,
                lookup_interval,
            },
        )
    }

    /// A node was seen on the wire at `now`. Admits it to the routing
    /// table when it is new, not banned, not ourselves, and room remains;
    /// reports a full table without admitting.
    pub fn node_seen(&mut self, rec: NodeRecord, now: u64) -> (u: Option<DiscoveryUpdate>)
        requires
            old(self).wf(),
        ensures
            final(self).wf(),
            u == old(self).spec_seen(rec, now),
            final(self).table@ == if u == Some(DiscoveryUpdate::Added(rec)) {
                old(self).table@.push(rec)
            } else {
                old(self).table@
            },
            final(self).local == old(self).local,
            final(self).capacity == old(self).capacity,
            final(self).bans == old(self).bans,
            final(self).ban_duration == old(self).ban_duration,
            final(self).boot_nodes == old(self).boot_nodes,
            final(self).next_boot == old(self).next_boot,
            final(self).last_lookup == old(self).last_lookup,
            final(self).lookup_interval == old(self).lookup_interval,
    {
        if rec.id == self.local.id {
            return None;
        }
        if self.bans.is_banned(rec.id, now) {
            return None;
        }
        let n = self.table.len();
        let mut k: usize = 0;
        while k < n
            invariant
                n == self.table@.len(),
                k <= n,
                self == old(self),
                self.wf(),
                forall|i: int| 0 <= i < k ==> (#[trigger] self.table@[i]).id != rec.id,
            decreases n - k,
        {
            if self.table[k].id == rec.id {
                return None;
            }
            k += 1;
        }
        assert(!has_node_id(self.table@, rec.id));
        if self.table.len() < self.capacity {
            let ghost pre = self.table@;
            self.table.push(rec);
            proof {
                lemma_nodes_unique_after_push(pre, rec);
            }
            Some(DiscoveryUpdate::Added(rec))
        } else {
            Some(DiscoveryUpdate::DiscoveredAtCapacity(rec))
        }
    }

    /// A node left the network (or was evicted elsewhere): forget it.
    pub fn node_left(&mut self, id: u64) -> (u: Option<DiscoveryUpdate>)
        requires
            old(self).wf(),
        ensures
            final(self).wf(),
            u == if has_node_id(old(self).table@, id) {
                Some(DiscoveryUpdate::Removed(id))
            } else {
                None::<DiscoveryUpdate>
            },
            final(self).table@ == remove_node_id(old(self).table@, id),
            !has_node_id(final(self).table@, id),
            forall|o: u64|
                o != id ==> has_node_id(final(self).table@, o) == has_node_id(
                    old(self).table@,
                    o,
                ),
            final(self).local == old(self).local,
            final(self).capacity == old(self).capacity,
            final(self).bans == old(self).bans,
            final(self).ban_duration == old(self).ban_duration,
            final(self).boot_nodes == old(self).boot_nodes,
            final(self).next_boot == old(self).next_boot,
            final(self).last_lookup == old(self).last_lookup,
            final(self).lookup_interval == old(self).lookup_interval,
    {
        let ghost pre = self.table@;
        let n = self.table.len();
        let mut k: usize = 0;
        while k < n
            invariant
                n == self.table@.len(),
                k <= n,
                self.wf(),
                self.table@ == pre,
                old(self).table@ == pre,
                self.local == old(self).local,
                self.capacity == old(self).capacity,
                self.bans == old(self).bans,
                self.ban_duration == old(self).ban_duration,
                self.boot_nodes == old(self).boot_nodes,
                self.next_boot == old(self).next_boot,
                self.last_lookup == old(self).last_lookup,
                self.lookup_interval == old(self).lookup_interval,
                forall|i: int| 0 <= i < k ==> (#[trigger] self.table@[i]).id != id,
            decreases n - k,
        {
            if self.table[k].id == id {
                proof {
                    assert(has_node_id(pre, id));
                    let j = node_index(pre, id);
                    assert(0 <= j < pre.len() && pre[j].id == id);
                    assert(j == k as int);
                }
                self.table.remove(k);
                proof {
                    lemma_nodes_after_remove(pre, k as int, id);
                    assert forall|o: u64| o != id implies has_node_id(self.table@, o)
                        == has_node_id(pre, o) by {
                        lemma_nodes_after_remove(pre, k as int, o);
                    }
                }
                return Some(DiscoveryUpdate::Removed(id));
            }
            k += 1;
        }
        assert(!has_node_id(pre, id));
        None
    }

    /// A node failed handshake or validation at `now`: exclude it from
    /// the table until its ban expires, and report its removal if it was
    /// known.
    pub fn node_failed(&mut self, id: u64, now: u64) -> (u: Option<DiscoveryUpdate>)
        requires
            old(self).wf(),
            now + old(self).ban_duration <= u64::MAX,
        ensures
            final(self).wf(),
            u == if has_node_id(old(self).table@, id) {
                Some(DiscoveryUpdate::Removed(id))
            } else {
                None::<DiscoveryUpdate>
            },
            final(self).table@ == remove_node_id(old(self).table@, id),
            !has_node_id(final(self).table@, id),
            final(self).bans.spec_expiry(id) == Some((now + old(self).ban_duration) as u64),
            forall|o: u64|
                o != id ==> final(self).bans.spec_expiry(o) == old(self).bans.spec_expiry(o),
            final(self).local == old(self).local,
            final(self).capacity == old(self).capacity,
            final(self).ban_duration == old(self).ban_duration,
            final(self).boot_nodes == old(self).boot_nodes,
            final(self).next_boot == old(self).next_boot,
            final(self).last_lookup == old(self).last_lookup,
            final(self).lookup_interval == old(self).lookup_interval,
    {
        let u = self.node_left(id);
        let until = now + self.ban_duration;
        self.bans.ban(id, until);
        u
    }

    /// Whether a lookup round is due at `now`.
    pub fn lookup_due(&self, now: u64) -> (r: bool)
        ensures
            r == self.spec_lookup_due(now),
    {
        match self.last_lookup {
            None => true,
            Some(t) => now >= t && now - t >= self.lookup_interval,
        }
    }

    /// Begin a lookup round at `now` and pick its target: boot nodes are
    /// walked round-robin; with no boot nodes the caller directs the
    /// round at a target of its own choosing (for instance a random
    /// identity).
    pub fn lookup_target(&mut self, now: u64) -> (r: Option<NodeRecord>)
        requires
            old(self).wf(),
        ensures
            final(self).wf(),
            final(self).last_lookup == Some(now),
            old(self).boot_nodes@.len() == 0 ==> r == None::<NodeRecord> && final(self).next_boot
                == 0,
            old(self).boot_nodes@.len() > 0 ==> {
                &&& r == Some(old(self).boot_nodes@[old(self).next_boot as int])
                &&& final(self).next_boot as int == (old(self).next_boot + 1) % (old(
                    self,
                ).boot_nodes@.len() as int)
            },
            final(self).table@ == old(self).table@,
            final(self).bans == old(self).bans,
            final(self).local == old(self).local,
            final(self).capacity == old(self).capacity,
            final(self).ban_duration == old(self).ban_duration,
            final(self).boot_nodes == old(self).boot_nodes,
            final(self).lookup_interval == old(self).lookup_interval,
    {
        self.last_lookup = Some(now);
        if self.boot_nodes.len() == 0 {
            None
        } else {
            let t = self.boot_nodes[self.next_boot];
            self.next_boot = (self.next_boot + 1) % self.boot_nodes.len();
            Some(t)
        }
    }

    /// Answer a closest-node query from the local routing table: the
    /// entry whose identity is nearest `target` in XOR distance, ties
    /// going to the earliest entry. `None` only on an empty table.
    pub fn closest_to(&self, target: u64) -> (r: Option<NodeRecord>)
        requires
            self.wf(),
        ensures
            r is None <==> self.table@.len() == 0,
            match r {
                None => true,
                Some(e) => {
                    &&& exists|k: int|
                        0 <= k < self.table@.len() && (#[trigger] self.table@[k]) == e && forall|
                            i: int,
                        |
                            0 <= i < k ==> ((#[trigger] self.table@[i]).id ^ target) > (e.id
                                ^ target)
                    &&& forall|i: int|
                        0 <= i < self.table@.len() ==> ((#[trigger] self.table@[i]).id ^ target)
                            >= (e.id ^ target)
                },
            },
    {
        if self.table.len() == 0 {
            return None;
        }
        let n = self.table.len();
        let mut best: usize = 0;
        let mut k: usize = 1;
        while k < n
            invariant
                n == self.table@.len(),
                1 <= k <= n,
                best < k,
                forall|i: int|
                    0 <= i < best ==> ((#[trigger] self.table@[i]).id ^ target) > (
                    self.table@[best as int].id ^ target),
                forall|i: int|
                    0 <= i < k ==> ((#[trigger] self.table@[i]).id ^ target) >= (
                    self.table@[best as int].id ^ target),
            decreases n - k,
        {
            if (self.table[k].id ^ target) < (self.table[best].id ^ target) {
                best = k;
            }
            k += 1;
        }
        Some(self.table[best])
    }
}

} // verus!
