//! The shared neighbor-presence cache: it records, per downstream
//! interface, which rewritten addresses a Neighbor Advertisement was
//! recently observed for. Entries carry an expiry instant; time is passed
//! in by the caller as seconds of a monotonic clock.

use vstd::prelude::*;

use crate::address::V6Addr;

verus! {

/// The instant an entry inserted at `now` expires, saturating at the top
/// of the clock's range.
pub open spec fn expiry_after(now: u64, ttl: u64) -> u64 {
    if now + ttl > u64::MAX {
        u64::MAX
    } else {
        (now + ttl) as u64
    }
}

/// A key is alive in the cache model at `now` when it is present and its
/// expiry lies in the future; an expired entry counts as absent.
pub open spec fn is_live(m: Map<(u32, Seq<u16>), u64>, scope_id: u32, addr: Seq<u16>, now: u64) -> bool {
    m.contains_key((scope_id, addr)) && now < m[(scope_id, addr)]
}

/// Map a list of cache entries to the model: key to expiry, later entries
/// winning.
pub open spec fn entries_map(s: Seq<(u32, V6Addr, u64)>) -> Map<(u32, Seq<u16>), u64>
    decreases s.len(),
{
    if s.len() == 0 {
        Map::empty()
    } else {
        entries_map(s.drop_last()).insert((s.last().0, s.last().1@), s.last().2)
    }
}

/// The presence cache: a map from (downstream scope id, address) to the
/// instant the entry expires.
pub struct NeighborsCache {
    entries: Vec<(u32, V6Addr, u64)>,
    ttl: u64,
}

impl View for NeighborsCache {
    type V = Map<(u32, Seq<u16>), u64>;

    closed spec fn view(&self) -> Map<(u32, Seq<u16>), u64> {
        entries_map(self.entries@)
    }
}

/// Keys in the entry list are distinct, so one list index speaks for each
/// model key.
spec fn entries_distinct(s: Seq<(u32, V6Addr, u64)>) -> bool {
    forall|i: int, j: int|
        0 <= i < j < s.len() ==> !(s[i].0 == s[j].0 && s[i].1@ =~= s[j].1@)
}

/// With distinct keys, the model holds a key exactly when some entry
/// carries it, and the model's expiry is that entry's.
proof fn lemma_entries_map_index(s: Seq<(u32, V6Addr, u64)>, scope_id: u32, addr: Seq<u16>)
    requires
        entries_distinct(s),
    ensures
        entries_map(s).contains_key((scope_id, addr)) <==> exists|k: int|
            0 <= k < s.len() && s[k].0 == scope_id && s[k].1@ == addr,
        forall|k: int|
            0 <= k < s.len() && s[k].0 == scope_id && s[k].1@ == addr ==> entries_map(s)[
                (scope_id, addr)
            ] == s[k].2,
    decreases s.len(),
{
    if s.len() > 0 {
        lemma_entries_map_index(s.drop_last(), scope_id, addr);
        assert(forall|k: int| 0 <= k < s.len() - 1 ==> s.drop_last()[k] == s[k]);
        if s.last().0 == scope_id && s.last().1@ == addr {
            assert(s[s.len() - 1].0 == scope_id && s[s.len() - 1].1@ == addr);
        } else {
            if exists|k: int| 0 <= k < s.len() && s[k].0 == scope_id && s[k].1@ == addr {
                let w = choose|k: int|
                    0 <= k < s.len() && s[k].0 == scope_id && s[k].1@ == addr;
                assert(w < s.len() - 1);
                assert(s.drop_last()[w].0 == scope_id && s.drop_last()[w].1@ == addr);
            }
            assert forall|k: int|
                0 <= k < s.len() && s[k].0 == scope_id && s[k].1@ == addr implies entries_map(s)[
                (scope_id, addr)
            ] == s[k].2 by {
                assert(k < s.len() - 1);
                assert(s.drop_last()[k] == s[k]);
            }
        }
    }
}

impl NeighborsCache {
    /// The internal invariant of the cache.
    pub closed spec fn wf(&self) -> bool {
        entries_distinct(self.entries@)
    }

    /// The time to live the cache was created with.
    pub closed spec fn spec_ttl(&self) -> u64 {
        self.ttl
    }

    /// An empty cache with the given time to live, in seconds.
    pub fn new(ttl: u64) -> (r: NeighborsCache)
        ensures
            r.wf(),
            r@ =~= Map::<(u32, Seq<u16>), u64>::empty(),
            r.spec_ttl() == ttl,
    {
        NeighborsCache { entries: Vec::new(), ttl }
    }

    /// Insert or refresh the entry for `(scope_id, addr)` at time `now`:
    /// afterwards the entry is alive exactly until `now` plus the time to
    /// live.
    pub fn mark_present(&mut self, scope_id: u32, addr: &V6Addr, now: u64)
        requires
            old(self).wf(),
        ensures
            final(self).wf(),
            final(self).spec_ttl() == old(self).spec_ttl(),
            final(self)@ =~= old(self)@.insert(
                (scope_id, addr@),
                expiry_after(now, old(self).spec_ttl()),
            ),
    {
        let expiry: u64 = if now > u64::MAX - self.ttl {
            u64::MAX
        } else {
            now + self.ttl
        };
        let ghost s0 = self.entries@;
        let n = self.entries.len();
        let mut k: usize = 0;
        while k < n
            invariant
                k <= n,
                n == self.entries@.len(),
                self.entries@ == s0,
                s0 == old(self).entries@,
                self.ttl == old(self).ttl,
                expiry == expiry_after(now, old(self).ttl),
                entries_distinct(s0),
                forall|j: int| 0 <= j < k ==> !(s0[j].0 == scope_id && s0[j].1@ =~= addr@),
            decreases n - k,
        {
            let (es, ea, _) = self.entries[k];
            if es == scope_id && ea.same(addr) {
                self.entries[k] = (es, ea, expiry);
                proof {
                    assert(s0[k as int].0 == scope_id && s0[k as int].1@ == addr@);
                    lemma_entries_map_update(s0, k as int, expiry);
                    assert(self.entries@ =~= s0.update(
                        k as int,
                        (s0[k as int].0, s0[k as int].1, expiry),
                    ));
                    assert(entries_distinct(self.entries@)) by {
                        assert forall|i: int, j: int|
                            0 <= i < j < self.entries@.len() implies !(self.entries@[i].0
                            == self.entries@[j].0 && self.entries@[i].1@
                            =~= self.entries@[j].1@) by {
                            assert(s0[i].0 == self.entries@[i].0 && s0[i].1@
                                == self.entries@[i].1@);
                            assert(s0[j].0 == self.entries@[j].0 && s0[j].1@
                                == self.entries@[j].1@);
                        }
                    }
                }
                return ;
            }
            k += 1;
        }
        self.entries.push((scope_id, *addr, expiry));
        proof {
            assert(self.entries@.drop_last() =~= s0);
            lemma_entries_map_absent_insert(s0, scope_id, *addr, expiry);
            assert((*addr)@ == addr@);
        }
    }

    /// Whether a Neighbor Advertisement for `addr` was observed on the
    /// interface with `scope_id` within the time to live before `now`;
    /// expired entries count as absent.
    pub fn exists_entry(&self, scope_id: u32, addr: &V6Addr, now: u64) -> (r: bool)
        requires
            self.wf(),
        ensures
            r == is_live(self@, scope_id, addr@, now),
    {
        let n = self.entries.len();
        let mut k: usize = 0;
        while k < n
            invariant
                self.wf(),
                k <= n,
                n == self.entries@.len(),
                forall|j: int|
                    0 <= j < k ==> !(self.entries@[j].0 == scope_id && self.entries@[j].1@ =~= addr@
                        && now < self.entries@[j].2),
            decreases n - k,
        {
            let (es, ea, exp) = self.entries[k];
            if es == scope_id && ea.same(addr) && now < exp {
                proof {
                    lemma_entries_map_index(self.entries@, scope_id, addr@);
                    assert(self.entries@[k as int].0 == scope_id && self.entries@[k as int].1@
                        == addr@);
                }
                return true;
            }
            k += 1;
        }
        proof {
            lemma_entries_map_index(self.entries@, scope_id, addr@);
            if is_live(self@, scope_id, addr@, now) {
                let w = choose|j: int|
                    0 <= j < self.entries@.len() && self.entries@[j].0 == scope_id
                        && self.entries@[j].1@ == addr@;
                assert(!(self.entries@[w].0 == scope_id && self.entries@[w].1@ =~= addr@ && now
                    < self.entries@[w].2));
            }
        }
        false
    }
}

/// Updating the entry that holds a key updates the model at that key,
/// when the key occurs nowhere later in the list.
proof fn lemma_entries_map_update(s: Seq<(u32, V6Addr, u64)>, k: int, expiry: u64)
    requires
        0 <= k < s.len(),
        forall|j: int| k < j < s.len() ==> !(s[j].0 == s[k].0 && s[j].1@ =~= s[k].1@),
    ensures
        entries_map(s.update(k, (s[k].0, s[k].1, expiry))) =~= entries_map(s).insert(
            (s[k].0, s[k].1@),
            expiry,
        ),
    decreases s.len(),
{
    let t = s.update(k, (s[k].0, s[k].1, expiry));
    if k == s.len() - 1 {
        assert(t.drop_last() =~= s.drop_last());
        assert(t.last() == (s[k].0, s[k].1, expiry));
    } else {
        lemma_entries_map_update(s.drop_last(), k, expiry);
        assert(t.drop_last() =~= s.drop_last().update(k, (s[k].0, s[k].1, expiry)));
        assert(t.last() == s.last());
        assert(!(s.last().0 == s[k].0 && s.last().1@ =~= s[k].1@));
        assert(entries_map(t) =~= entries_map(s).insert((s[k].0, s[k].1@), expiry)) by {
            assert(entries_map(t) == entries_map(t.drop_last()).insert(
                (t.last().0, t.last().1@),
                t.last().2,
            ));
        }
    }
}

/// Appending an entry whose key is absent keeps the keys distinct.
proof fn lemma_entries_map_absent_insert(
    s: Seq<(u32, V6Addr, u64)>,
    scope_id: u32,
    a2: V6Addr,
    e: u64,
)
    requires
        forall|j: int| 0 <= j < s.len() ==> !(s[j].0 == scope_id && s[j].1@ =~= a2@),
        entries_distinct(s),
    ensures
        entries_distinct(s.push((scope_id, a2, e))),
{
    let t = s.push((scope_id, a2, e));
    assert forall|i: int, j: int| 0 <= i < j < t.len() implies !(t[i].0 == t[j].0 && t[i].1@
        =~= t[j].1@) by {
        if j < s.len() {
            assert(t[i] == s[i] && t[j] == s[j]);
        } else {
            assert(t[i] == s[i]);
            assert(t[j] == (scope_id, a2, e));
        }
    }
}

/// An entry inserted at `now` answers presence queries positively exactly
/// until its time to live has elapsed: at any query instant `t`, the key
/// is alive if and only if `t` lies before the expiry of the insertion.
/// In particular a query at or past the expiry reports absence.
pub proof fn lemma_mark_present_lifetime(
    m: Map<(u32, Seq<u16>), u64>,
    scope_id: u32,
    addr: Seq<u16>,
    now: u64,
    ttl: u64,
    t: u64,
)
    ensures
        is_live(m.insert((scope_id, addr), expiry_after(now, ttl)), scope_id, addr, t) <==> t
            < expiry_after(now, ttl),
{
}

/// Other keys are untouched by an insertion: their liveness at any
/// instant is unchanged.
pub proof fn lemma_mark_present_frame(
    m: Map<(u32, Seq<u16>), u64>,
    scope_id: u32,
    addr: Seq<u16>,
    expiry: u64,
    scope2: u32,
    addr2: Seq<u16>,
    t: u64,
)
    requires
        !(scope_id == scope2 && addr == addr2),
    ensures
        is_live(m.insert((scope_id, addr), expiry), scope2, addr2, t) == is_live(
            m,
            scope2,
            addr2,
            t,
        ),
{
}

} // verus!
