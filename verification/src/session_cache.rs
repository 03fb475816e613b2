//! A short-lived cache of each user's session status (JSON text).
use vstd::prelude::*;

use crate::model::{instant_ok, NANOS_PER_SECOND, UnixNanos, UserAddress};

verus! {

/// Seconds a cached status stays fresh.
pub const CACHE_TTL_SECS: i64 = 30;

/// One user's cached status.
#[derive(Debug)]
pub struct CachedEntry {
    pub user: UserAddress,
    pub payload: String,
    pub cached_at: UnixNanos,
}

/// The entry cached at `cached_at` is stale at `now`: more than
/// `CACHE_TTL_SECS` whole seconds (rounded toward zero) have passed.
pub open spec fn cache_stale(cached_at: UnixNanos, now: UnixNanos) -> bool {
    now - cached_at >= (CACHE_TTL_SECS + 1) * NANOS_PER_SECOND
}

pub open spec fn cache_entry_of(s: Seq<CachedEntry>, u: UserAddress, i: int) -> bool {
    &&& 0 <= i < s.len()
    &&& s[i].user == u
    &&& forall|j: int| 0 <= j < i ==> s[j].user != u
}

/// The cached entry of user `u`.
pub open spec fn cached_of(s: Seq<CachedEntry>, u: UserAddress) -> Option<CachedEntry> {
    if exists|i: int| cache_entry_of(s, u, i) {
        Some(s[choose|i: int| cache_entry_of(s, u, i)])
    } else {
        None
    }
}

pub open spec fn cache_users_distinct(s: Seq<CachedEntry>) -> bool {
    forall|i: int, j: int| 0 <= i < s.len() && 0 <= j < s.len() && i != j ==> s[i].user != s[j].user
}

proof fn lemma_cached_at(s: Seq<CachedEntry>, u: UserAddress, i: int)
    requires
        cache_users_distinct(s),
        0 <= i < s.len(),
        s[i].user == u,
    ensures
        cached_of(s, u) == Some(s[i]),
{
    assert(cache_entry_of(s, u, i));
    let c = choose|c: int| cache_entry_of(s, u, c);
    assert(c == i);
}

/// Cached session statuses, one per user.
#[derive(Debug)]
pub struct InMemorySessionCacheStore {
    entries: Vec<CachedEntry>,
}

impl InMemorySessionCacheStore {
    pub closed spec fn entries(&self) -> Seq<CachedEntry> {
        self.entries@
    }

    /// One entry per user, each cached at an instant the engine handles.
    pub closed spec fn wf(&self) -> bool {
        &&& cache_users_distinct(self.entries@)
        &&& forall|i: int| 0 <= i < self.entries@.len() ==> instant_ok(#[trigger] self.entries@[i].cached_at)
    }

    /// The cached entry of user `u`.
    pub open spec fn lookup(&self, u: UserAddress) -> Option<CachedEntry> {
        cached_of(self.entries(), u)
    }

    pub fn new() -> (r: Self)
        ensures
            r.wf(),
            forall|u: UserAddress| r.lookup(u) is None,
    {
        InMemorySessionCacheStore { entries: Vec::new() }
    }

    fn index_of(&self, user: UserAddress) -> (r: Option<usize>)
        requires
            self.wf(),
        ensures
            r matches Some(i) ==> i < self.entries@.len() && self.entries@[i as int].user == user
                && self.lookup(user) == Some(self.entries@[i as int]),
            r is None ==> (forall|i: int| 0 <= i < self.entries@.len() ==> self.entries@[i].user != user)
                && self.lookup(user) is None,
    {
        let mut i: usize = 0;
        while i < self.entries.len()
            invariant
                self.wf(),
                i <= self.entries@.len(),
                forall|j: int| 0 <= j < i ==> self.entries@[j].user != user,
            decreases self.entries@.len() - i,
        {
            if self.entries[i].user == user {
                proof {
                    lemma_cached_at(self.entries@, user, i as int);
                }
                return Some(i);
            }
            i = i + 1;
        }
        None
    }

    /// `user`'s cached status, unless none is cached or it has gone stale by `now`.
    pub fn get_fresh(&self, user: UserAddress, now: UnixNanos) -> (r: Option<String>)
        requires
            self.wf(),
            instant_ok(now),
        ensures
            match self.lookup(user) {
                None => r is None,
                Some(e) => if cache_stale(e.cached_at, now) {
                    r is None
                } else {
                    r matches Some(p) && p@ == e.payload@
                },
            },
    {
        match self.index_of(user) {
            None => None,
            Some(i) => {
                let entry = &self.entries[i];
                let age = now - entry.cached_at;
                if age >= (CACHE_TTL_SECS as i128 + 1) * NANOS_PER_SECOND {
                    None
                } else {
                    Some(entry.payload.clone())
                }
            },
        }
    }

    /// Caches `payload` as `user`'s status as of `now`.
    pub fn put(&mut self, user: UserAddress, payload: String, now: UnixNanos)
        requires
            old(self).wf(),
            instant_ok(now),
        ensures
            final(self).wf(),
            final(self).lookup(user) == Some(CachedEntry { user, payload, cached_at: now }),
            forall|u: UserAddress| u != user ==> final(self).lookup(u) == old(self).lookup(u),
    {
        let ghost old_entries = self.entries@;
        let ghost stored = CachedEntry { user, payload, cached_at: now };
        match self.index_of(user) {
            Some(i) => {
                self.entries.set(i, CachedEntry { user, payload, cached_at: now });
                proof {
                    let s = self.entries@;
                    assert(s == old_entries.update(i as int, stored));
                    lemma_cached_at(s, user, i as int);
                    assert forall|u: UserAddress| u != user implies cached_of(s, u) == cached_of(
                        old_entries,
                        u,
                    ) by {
                        if exists|j: int| 0 <= j < s.len() && s[j].user == u {
                            let j = choose|j: int| 0 <= j < s.len() && s[j].user == u;
                            lemma_cached_at(s, u, j);
                            lemma_cached_at(old_entries, u, j);
                        } else {
                            assert forall|j: int| 0 <= j < old_entries.len() implies old_entries[j].user
                                != u by {
                                if j != i {
                                    assert(s[j] == old_entries[j]);
                                }
                            }
                        }
                    }
                }
            },
            None => {
                self.entries.push(CachedEntry { user, payload, cached_at: now });
                proof {
                    let s = self.entries@;
                    assert(s == old_entries.push(stored));
                    lemma_cached_at(s, user, old_entries.len() as int);
                    assert forall|u: UserAddress| u != user implies cached_of(s, u) == cached_of(
                        old_entries,
                        u,
                    ) by {
                        if exists|j: int| 0 <= j < old_entries.len() && old_entries[j].user == u {
                            let j = choose|j: int| 0 <= j < old_entries.len() && old_entries[j].user == u;
                            lemma_cached_at(s, u, j);
                            lemma_cached_at(old_entries, u, j);
                        }
                    }
                }
            },
        }
    }

    /// Drops `user`'s cached status.
    pub fn invalidate(&mut self, user: UserAddress)
        requires
            old(self).wf(),
        ensures
            final(self).wf(),
            final(self).lookup(user) is None,
            forall|u: UserAddress| u != user ==> final(self).lookup(u) == old(self).lookup(u),
    {
        let ghost old_entries = self.entries@;
        match self.index_of(user) {
            None => {},
            Some(i) => {
                self.entries.remove(i);
                proof {
                    let s = self.entries@;
                    assert(s =~= old_entries.remove(i as int));
                    assert forall|j: int| 0 <= j < s.len() implies instant_ok(#[trigger] s[j].cached_at) by {
                        let j0 = if j < i { j } else { j + 1 };
                        assert(s[j] == old_entries[j0]);
                    }
                    assert forall|a: int, b: int| 0 <= a < s.len() && 0 <= b < s.len() && a != b implies s[a].user
                        != s[b].user by {
                        let a0 = if a < i { a } else { a + 1 };
                        let b0 = if b < i { b } else { b + 1 };
                        assert(s[a] == old_entries[a0]);
                        assert(s[b] == old_entries[b0]);
                    }
                    assert forall|j: int| 0 <= j < s.len() implies s[j].user != user by {
                        let j0 = if j < i { j } else { j + 1 };
                        assert(s[j] == old_entries[j0]);
                    }
                    assert forall|u: UserAddress| u != user implies cached_of(s, u) == cached_of(
                        old_entries,
                        u,
                    ) by {
                        if exists|j: int| 0 <= j < s.len() && s[j].user == u {
                            let j = choose|j: int| 0 <= j < s.len() && s[j].user == u;
                            let j0 = if j < i { j } else { j + 1 };
                            assert(s[j] == old_entries[j0]);
                            lemma_cached_at(s, u, j);
                            lemma_cached_at(old_entries, u, j0);
                        } else {
                            assert forall|j: int| 0 <= j < old_entries.len() implies old_entries[j].user
                                != u by {
                                if j < i {
                                    assert(s[j] == old_entries[j]);
                                } else if j > i {
                                    assert(s[j - 1] == old_entries[j]);
                                }
                            }
                        }
                    }
                }
            },
        }
    }
}

/// A status is fresh when just cached, and once stale stays stale.
pub proof fn law_cache_staleness(cached_at: UnixNanos, now: UnixNanos, later: UnixNanos)
    ensures
        !cache_stale(cached_at, cached_at),
        now <= later && cache_stale(cached_at, now) ==> cache_stale(cached_at, later),
        0 <= now - cached_at <= CACHE_TTL_SECS * NANOS_PER_SECOND ==> !cache_stale(cached_at, now),
{
}

} // verus!
