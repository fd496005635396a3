use vstd::prelude::*;

verus! {

/// One ban: a node identity excluded until (not including) `until`.
#[derive(Clone, Copy, PartialEq, Eq, Structural, Debug)]
pub struct BanEntry {
    pub id: u64,
    pub until: u64,
}

/// No identity occurs twice in `s`.
pub open spec fn unique_ban_ids(s: Seq<BanEntry>) -> bool {
    forall|i: int, j: int|
        0 <= i < s.len() && 0 <= j < s.len() && i != j
            ==> (#[trigger] s[i]).id != (#[trigger] s[j]).id
}

/// Some entry of `s` carries `id`.
pub open spec fn has_ban(s: Seq<BanEntry>, id: u64) -> bool {
    exists|i: int| 0 <= i < s.len() && (#[trigger] s[i]).id == id
}

/// The index of the entry carrying `id` (meaningful under `has_ban` and
/// `unique_ban_ids`).
pub open spec fn ban_index(s: Seq<BanEntry>, id: u64) -> int {
    choose|i: int| 0 <= i < s.len() && (#[trigger] s[i]).id == id
}

/// The expiry recorded for `id` in `s`, if any.
pub open spec fn expiry_of(s: Seq<BanEntry>, id: u64) -> Option<u64> {
    if has_ban(s, id) {
        Some(s[ban_index(s, id)].until)
    } else {
        None
    }
}

/// Under uniqueness, any entry holding `id` is the one `expiry_of` reads.
proof fn lemma_entry_determines_expiry(s: Seq<BanEntry>, id: u64, i: int)
    requires
        unique_ban_ids(s),
        0 <= i < s.len(),
        s[i].id == id,
    ensures
        expiry_of(s, id) == Some(s[i].until),
{
    assert(has_ban(s, id));
    let j = ban_index(s, id);
    assert(0 <= j < s.len() && s[j].id == id);
}

/// Replacing the entry at an index that holds a different identity leaves
/// `id`'s expiry as it was.
proof fn lemma_expiry_after_update(s: Seq<BanEntry>, k: int, e: BanEntry, id: u64)
    requires
        unique_ban_ids(s),
        0 <= k < s.len(),
        e.id == s[k].id,
        id != e.id,
    ensures
        expiry_of(s.update(k, e), id) == expiry_of(s, id),
{
    let t = s.update(k, e);
    if has_ban(s, id) {
        let i = ban_index(s, id);
        assert(0 <= i < s.len() && s[i].id == id);
        assert(t[i].id == id);
        assert(has_ban(t, id));
        let j = ban_index(t, id);
        assert(0 <= j < t.len() && t[j].id == id);
        assert(j != k);
        assert(s[j].id == id);
        assert(j == i);
    } else {
        if has_ban(t, id) {
            let j = ban_index(t, id);
            assert(0 <= j < t.len() && t[j].id == id);
            assert(j != k);
            assert(s[j].id == id);
        }
    }
}

/// Appending an entry for a different identity leaves `id`'s expiry as it
/// was.
proof fn lemma_expiry_after_push(s: Seq<BanEntry>, e: BanEntry, id: u64)
    requires
        unique_ban_ids(s),
        id != e.id,
    ensures
        expiry_of(s.push(e), id) == expiry_of(s, id),
{
    let t = s.push(e);
    if has_ban(s, id) {
        let i = ban_index(s, id);
        assert(0 <= i < s.len() && s[i].id == id);
        assert(t[i].id == id);
        assert(has_ban(t, id));
        let j = ban_index(t, id);
        assert(0 <= j < t.len() && t[j].id == id);
        assert(j != s.len() as int);
        assert(s[j].id == id);
        assert(j == i);
    } else {
        if has_ban(t, id) {
            let j = ban_index(t, id);
            assert(0 <= j < t.len() && t[j].id == id);
            assert(j != s.len() as int);
            assert(s[j].id == id);
        }
    }
}

/// The set of currently banned node identities, each with its expiry
/// instant. An identity occurs at most once; a ban is in force at `now`
/// exactly when `now < until`.
pub struct BanList {
    pub entries: Vec<BanEntry>,
}

impl BanList {
    pub open spec fn wf(self) -> bool {
        unique_ban_ids(self.entries@)
    }

    /// The expiry recorded for `id`, if any.
    pub open spec fn spec_expiry(self, id: u64) -> Option<u64> {
        expiry_of(self.entries@, id)
    }

    /// Whether `id` is banned at `now`: an entry exists and has not expired.
    pub open spec fn spec_banned(self, id: u64, now: u64) -> bool {
        match self.spec_expiry(id) {
            Some(until) => now < until,
            None => false,
        }
    }

    pub fn new() -> (r: BanList)
        ensures
            r.wf(),
            forall|id: u64| r.spec_expiry(id) == None::<u64>,
    {
        BanList { entries: Vec::new() }
    }

    pub fn is_banned(&self, id: u64, now: u64) -> (r: bool)
        requires
            self.wf(),
        ensures
            r == self.spec_banned(id, now),
    {
        let n = self.entries.len();
        let mut k: usize = 0;
        while k < n
            invariant
                n == self.entries@.len(),
                k <= n,
                self.wf(),
                forall|i: int| 0 <= i < k ==> (#[trigger] self.entries@[i]).id != id,
            decreases n - k,
        {
            if self.entries[k].id == id {
                proof {
                    lemma_entry_determines_expiry(self.entries@, id, k as int);
                }
                return now < self.entries[k].until;
            }
            k += 1;
        }
        assert(!has_ban(self.entries@, id));
        false
    }

    /// The expiry recorded for `id`, if any.
    pub fn expiry(&self, id: u64) -> (r: Option<u64>)
        requires
            self.wf(),
        ensures
            r == self.spec_expiry(id),
    {
        let n = self.entries.len();
        let mut k: usize = 0;
        while k < n
            invariant
                n == self.entries@.len(),
                k <= n,
                self.wf(),
                forall|i: int| 0 <= i < k ==> (#[trigger] self.entries@[i]).id != id,
            decreases n - k,
        {
            if self.entries[k].id == id {
                proof {
                    lemma_entry_determines_expiry(self.entries@, id, k as int);
                }
                return Some(self.entries[k].until);
            }
            k += 1;
        }
        assert(!has_ban(self.entries@, id));
        None
    }

    /// Record that `id` is banned until (not including) `until`, replacing
    /// any earlier ban for the same identity. Bans on other identities are
    /// untouched.
    pub fn ban(&mut self, id: u64, until: u64)
        requires
            old(self).wf(),
        ensures
            final(self).wf(),
            final(self).spec_expiry(id) == Some(until),
            forall|o: u64| o != id ==> final(self).spec_expiry(o) == old(self).spec_expiry(o),
    {
        let ghost pre = self.entries@;
        let n = self.entries.len();
        let mut k: usize = 0;
        while k < n
            invariant
                n == self.entries@.len(),
                k <= n,
                self.wf(),
                self.entries@ == pre,
                old(self).entries@ == pre,
                forall|i: int| 0 <= i < k ==> (#[trigger] self.entries@[i]).id != id,
            decreases n - k,
        {
            if self.entries[k].id == id {
                self.entries[k] = BanEntry { id, until };
                proof {
                    assert(self.entries@ == pre.update(k as int, BanEntry { id, until }));
                    assert(unique_ban_ids(self.entries@));
                    lemma_entry_determines_expiry(self.entries@, id, k as int);
                    assert forall|o: u64| o != id implies self.spec_expiry(o)
                        == old(self).spec_expiry(o) by {
                        lemma_expiry_after_update(pre, k as int, BanEntry { id, until }, o);
                    }
                }
                return;
            }
            k += 1;
        }
        self.entries.push(BanEntry { id, until });
        proof {
            assert(self.entries@ == pre.push(BanEntry { id, until }));
            assert(!has_ban(pre, id));
            assert forall|i: int, j: int|
                0 <= i < self.entries@.len() && 0 <= j < self.entries@.len() && i != j
                implies (#[trigger] self.entries@[i]).id != (#[trigger] self.entries@[j]).id by {
                if j < pre.len() && i < pre.len() {
                    assert(pre[i].id != pre[j].id);
                }
            }
            lemma_entry_determines_expiry(self.entries@, id, self.entries@.len() - 1);
            assert forall|o: u64| o != id implies self.spec_expiry(o)
                == old(self).spec_expiry(o) by {
                lemma_expiry_after_push(pre, BanEntry { id, until }, o);
            }
        }
    }
}

} // verus!
