//! Policies kept in memory, one per user, versioned per user.
use vstd::prelude::*;

use crate::model::UserAddress;
use crate::policy::{
    as_outcome, first_violation, policy_valid, Policy, PolicyStatus, RealBounds, ValidationError,
    cap_total, protocols_checkable,
};

verus! {

/// `i` is the first entry of user `u`.
pub open spec fn entry_of(s: Seq<Policy>, u: UserAddress, i: int) -> bool {
    &&& 0 <= i < s.len()
    &&& s[i].user == u
    &&& forall|j: int| 0 <= j < i ==> s[j].user != u
}

/// The policy of user `u` in `s`.
pub open spec fn policy_of(s: Seq<Policy>, u: UserAddress) -> Option<Policy> {
    if exists|i: int| entry_of(s, u, i) {
        Some(s[choose|i: int| entry_of(s, u, i)])
    } else {
        None
    }
}

/// No user has two entries.
pub open spec fn users_distinct(s: Seq<Policy>) -> bool {
    forall|i: int, j: int| 0 <= i < s.len() && 0 <= j < s.len() && i != j ==> s[i].user != s[j].user
}

proof fn lemma_policy_at(s: Seq<Policy>, u: UserAddress, i: int)
    requires
        users_distinct(s),
        0 <= i < s.len(),
        s[i].user == u,
    ensures
        policy_of(s, u) == Some(s[i]),
{
    assert(entry_of(s, u, i));
    let c = choose|c: int| entry_of(s, u, c);
    assert(c == i);
}

proof fn lemma_policy_absent(s: Seq<Policy>, u: UserAddress)
    requires
        forall|i: int| 0 <= i < s.len() ==> s[i].user != u,
    ensures
        policy_of(s, u) is None,
{
}

/// The version a stored policy of `u` would get next.
pub open spec fn next_version(s: Seq<Policy>, u: UserAddress) -> int {
    match policy_of(s, u) {
        Some(p) => p.version + 1,
        None => 1,
    }
}

/// The users whose policy is active, in store order.
pub open spec fn active_users(s: Seq<Policy>) -> Seq<UserAddress>
    decreases s.len(),
{
    if s.len() == 0 {
        Seq::empty()
    } else if s.last().status == PolicyStatus::Active {
        active_users(s.drop_last()).push(s.last().user)
    } else {
        active_users(s.drop_last())
    }
}

/// Why `set_status` failed: the user has no policy.
#[derive(Debug)]
pub struct NoPolicy {
    pub user: UserAddress,
}

/// Why `put` failed: the policy breaks a validation rule.
#[derive(Debug)]
pub struct InvalidPolicy {
    pub error: ValidationError,
}

/// The current policy of each user.
#[derive(Debug)]
pub struct InMemoryPolicyStore {
    entries: Vec<Policy>,
}

impl InMemoryPolicyStore {
    /// The stored policies, in store order.
    pub closed spec fn entries(&self) -> Seq<Policy> {
        self.entries@
    }

    pub closed spec fn wf(&self) -> bool {
        users_distinct(self.entries@)
    }

    /// The policy of user `u`.
    pub open spec fn lookup(&self, u: UserAddress) -> Option<Policy> {
        policy_of(self.entries(), u)
    }

    pub fn new() -> (r: Self)
        ensures
            r.wf(),
            forall|u: UserAddress| r.lookup(u) is None,
    {
        let r = InMemoryPolicyStore { entries: Vec::new() };
        assert forall|u: UserAddress| r.lookup(u) is None by {
            lemma_policy_absent(r.entries@, u);
        }
        r
    }

    fn index_of(&self, user: UserAddress) -> (r: Option<usize>)
        requires
            self.wf(),
        ensures
            r matches Some(i) ==> i < self.entries@.len() && self.entries@[i as int].user == user
                && self.lookup(user) == Some(self.entries@[i as int]),
            r is None ==> (forall|i: int| 0 <= i < self.entries@.len() ==> self.entries@[i].user != user)
                && self.lookup(user) is None,
    {
        let mut i: usize = 0;
        while i < self.entries.len()
            invariant
                self.wf(),
                i <= self.entries@.len(),
                forall|j: int| 0 <= j < i ==> self.entries@[j].user != user,
            decreases self.entries@.len() - i,
        {
            if self.entries[i].user == user {
                proof {
                    lemma_policy_at(self.entries@, user, i as int);
                }
                return Some(i);
            }
            i = i + 1;
        }
        proof {
            lemma_policy_absent(self.entries@, user);
        }
        None
    }

    /// The policy of `user`, if one is stored.
    pub fn get(&self, user: UserAddress) -> (r: Option<&Policy>)
        requires
            self.wf(),
        ensures
            r is None <==> self.lookup(user) is None,
            r matches Some(p) ==> self.lookup(user) == Some(*p),
    {
        match self.index_of(user) {
            Some(i) => Some(&self.entries[i]),
            None => None,
        }
    }

    /// Whether `put` can number a new policy of `user` without overflowing.
    pub fn version_fits(&self, user: UserAddress) -> (r: bool)
        requires
            self.wf(),
        ensures
            r == (next_version(self.entries(), user) <= u32::MAX),
    {
        match self.index_of(user) {
            Some(i) => self.entries[i].version < u32::MAX,
            None => true,
        }
    }

    /// Validates the policy and stores it as the user's current policy under
    /// the next version (1 for a user's first policy); returns that version.
    /// A refused policy leaves the store unchanged.
    pub fn put(&mut self, policy: Policy, bounds: &RealBounds) -> (r: Result<u32, InvalidPolicy>)
        requires
            old(self).wf(),
            protocols_checkable(policy),
            next_version(old(self).entries(), policy.user) <= u32::MAX,
        ensures
            final(self).wf(),
            r is Ok <==> policy_valid(policy, *bounds),
            r matches Err(e) ==> as_outcome(first_violation(policy, *bounds)) == Err::<(), ValidationError>(
                e.error,
            ) && final(self).entries() == old(self).entries(),
            r matches Ok(v) ==> {
                &&& v == next_version(old(self).entries(), policy.user)
                &&& final(self).lookup(policy.user) == Some(Policy { version: v, ..policy })
                &&& forall|u: UserAddress| u != policy.user ==> final(self).lookup(u) == old(self).lookup(u)
            },
    {
        match policy.validate(bounds) {
            Err(error) => return Err(InvalidPolicy { error }),
            Ok(()) => {},
        }
        let mut policy = policy;
        let user = policy.user;
        let ghost old_entries = self.entries@;
        match self.index_of(user) {
            Some(i) => {
                let v = self.entries[i].version + 1;
                policy.version = v;
                let ghost stored = policy;
                self.entries.set(i, policy);
                proof {
                    let s = self.entries@;
                    assert(s == old_entries.update(i as int, stored));
                    assert(users_distinct(s));
                    lemma_policy_at(s, user, i as int);
                    assert forall|u: UserAddress| u != user implies policy_of(s, u) == policy_of(
                        old_entries,
                        u,
                    ) by {
                        if exists|j: int| 0 <= j < s.len() && s[j].user == u {
                            let j = choose|j: int| 0 <= j < s.len() && s[j].user == u;
                            lemma_policy_at(s, u, j);
                            lemma_policy_at(old_entries, u, j);
                        } else {
                            lemma_policy_absent(s, u);
                            assert forall|j: int| 0 <= j < old_entries.len() implies old_entries[j].user
                                != u by {
                                if j != i {
                                    assert(s[j] == old_entries[j]);
                                }
                            }
                            lemma_policy_absent(old_entries, u);
                        }
                    }
                }
                Ok(v)
            },
            None => {
                policy.version = 1;
                let ghost stored = policy;
                self.entries.push(policy);
                proof {
                    let s = self.entries@;
                    assert(s == old_entries.push(stored));
                    assert(users_distinct(s));
                    lemma_policy_at(s, user, old_entries.len() as int);
                    assert forall|u: UserAddress| u != user implies policy_of(s, u) == policy_of(
                        old_entries,
                        u,
                    ) by {
                        if exists|j: int| 0 <= j < old_entries.len() && old_entries[j].user == u {
                            let j = choose|j: int| 0 <= j < old_entries.len() && old_entries[j].user == u;
                            lemma_policy_at(s, u, j);
                            lemma_policy_at(old_entries, u, j);
                        } else {
                            lemma_policy_absent(s, u);
                            lemma_policy_absent(old_entries, u);
                        }
                    }
                }
                Ok(1)
            },
        }
    }

    /// Sets the status of `user`'s policy; fails when the user has none.
    pub fn set_status(&mut self, user: UserAddress, status: PolicyStatus) -> (r: Result<(), NoPolicy>)
        requires
            old(self).wf(),
        ensures
            final(self).wf(),
            r is Err <==> old(self).lookup(user) is None,
            r matches Err(e) ==> e.user == user && final(self).entries() == old(self).entries(),
            r is Ok ==> final(self).lookup(user) == Some(
                Policy { status, ..old(self).lookup(user)->0 },
            ),
            r is Ok ==> forall|u: UserAddress| u != user ==> final(self).lookup(u) == old(self).lookup(u),
    {
        match self.index_of(user) {
            None => Err(NoPolicy { user }),
            Some(i) => {
                let ghost old_entries = self.entries@;
                let mut p = self.entries.remove(i);
                p.status = status;
                let ghost stored = p;
                self.entries.insert(i, p);
                proof {
                    let s = self.entries@;
                    assert(s =~= old_entries.update(i as int, stored));
                    assert(users_distinct(s));
                    lemma_policy_at(s, user, i as int);
                    assert forall|u: UserAddress| u != user implies policy_of(s, u) == policy_of(
                        old_entries,
                        u,
                    ) by {
                        if exists|j: int| 0 <= j < s.len() && s[j].user == u {
                            let j = choose|j: int| 0 <= j < s.len() && s[j].user == u;
                            lemma_policy_at(s, u, j);
                            lemma_policy_at(old_entries, u, j);
                        } else {
                            lemma_policy_absent(s, u);
                            assert forall|j: int| 0 <= j < old_entries.len() implies old_entries[j].user
                                != u by {
                                if j != i {
                                    assert(s[j] == old_entries[j]);
                                }
                            }
                            lemma_policy_absent(old_entries, u);
                        }
                    }
                }
                Ok(())
            },
        }
    }

    /// The users whose policy is active, each once.
    pub fn list_active_users(&self) -> (r: Vec<UserAddress>)
        requires
            self.wf(),
        ensures
            r@ == active_users(self.entries()),
            r@.no_duplicates(),
    {
        proof {
            lemma_active_users_distinct(self.entries@);
        }
        let mut out: Vec<UserAddress> = Vec::new();
        let mut i: usize = 0;
        while i < self.entries.len()
            invariant
                i <= self.entries@.len(),
                out@ == active_users(self.entries@.subrange(0, i as int)),
            decreases self.entries@.len() - i,
        {
            assert(self.entries@.subrange(0, i + 1).drop_last() =~= self.entries@.subrange(0, i as int));
            if self.entries[i].status == PolicyStatus::Active {
                out.push(self.entries[i].user);
            }
            i = i + 1;
        }
        assert(self.entries@.subrange(0, self.entries@.len() as int) =~= self.entries@);
        out
    }
}

/// Whether the capacity rule of `policy` can be checked without overflow
/// (see [`protocols_checkable`]).
pub fn capacity_checkable(policy: &Policy) -> (r: bool)
    ensures
        r == protocols_checkable(*policy),
{
    let n = policy.protocols.whitelist.len();
    let pct = policy.protocols.per_protocol_cap_pct;
    if n == 0 || pct == 0 || pct > 100 {
        return true;
    }
    let n32: u64 = n as u64 % 0x1_0000_0000u64;
    assert(cap_total(pct, n as nat) == pct * n32);
    assert((pct as u64) * n32 <= 100 * 0x1_0000_0000u64) by (nonlinear_arith)
        requires
            pct <= 100,
            n32 < 0x1_0000_0000u64,
    ;
    (pct as u64) * n32 <= u32::MAX as u64
}

/// A user is listed as active exactly when the store holds an active policy
/// of that user.
pub proof fn law_active_users_exact(store: InMemoryPolicyStore, u: UserAddress)
    requires
        store.wf(),
    ensures
        active_users(store.entries()).contains(u) <==> (store.lookup(u) matches Some(p) && p.status
            == PolicyStatus::Active),
{
    let s = store.entries();
    lemma_active_users_members(s, u);
    if exists|j: int| 0 <= j < s.len() && s[j].user == u {
        let j = choose|j: int| 0 <= j < s.len() && s[j].user == u;
        lemma_policy_at(s, u, j);
    } else {
        lemma_policy_absent(s, u);
    }
}

proof fn lemma_active_users_distinct(s: Seq<Policy>)
    requires
        users_distinct(s),
    ensures
        active_users(s).no_duplicates(),
    decreases s.len(),
{
    if s.len() > 0 {
        let d = s.drop_last();
        assert(users_distinct(d));
        lemma_active_users_distinct(d);
        if s.last().status == PolicyStatus::Active {
            lemma_active_users_members(d, s.last().user);
            if active_users(d).contains(s.last().user) {
                let j = choose|j: int| 0 <= j < d.len() && d[j].user == s.last().user && d[j].status
                    == PolicyStatus::Active;
                assert(s[j] == d[j]);
                assert(s[j].user == s[s.len() - 1].user);
            }
            let a = active_users(d);
            assert forall|i: int, k: int| 0 <= i < k < a.push(s.last().user).len() implies a.push(
                s.last().user,
            )[i] != a.push(s.last().user)[k] by {
                if k == a.len() {
                    assert(a[i] == a.push(s.last().user)[i]);
                }
            }
        }
    }
}

proof fn lemma_active_users_members(s: Seq<Policy>, u: UserAddress)
    ensures
        active_users(s).contains(u) <==> exists|j: int| 0 <= j < s.len() && s[j].user == u && s[j].status
            == PolicyStatus::Active,
    decreases s.len(),
{
    if s.len() > 0 {
        let d = s.drop_last();
        lemma_active_users_members(d, u);
        if s.last().status == PolicyStatus::Active {
            let a = active_users(d);
            assert(active_users(s) == a.push(s.last().user));
            if active_users(s).contains(u) {
                let k = choose|k: int| 0 <= k < active_users(s).len() && active_users(s)[k] == u;
                if k < a.len() {
                    assert(a.contains(u));
                    let j = choose|j: int| 0 <= j < d.len() && d[j].user == u && d[j].status
                        == PolicyStatus::Active;
                    assert(s[j] == d[j]);
                }
            }
            if exists|j: int| 0 <= j < s.len() && s[j].user == u && s[j].status == PolicyStatus::Active {
                let j = choose|j: int| 0 <= j < s.len() && s[j].user == u && s[j].status
                    == PolicyStatus::Active;
                if j < d.len() {
                    assert(d[j] == s[j]);
                    assert(a.contains(u));
                    let k = choose|k: int| 0 <= k < a.len() && a[k] == u;
                    assert(active_users(s)[k] == u);
                } else {
                    assert(active_users(s)[a.len() as int] == u);
                }
            }
        } else {
            if exists|j: int| 0 <= j < s.len() && s[j].user == u && s[j].status == PolicyStatus::Active {
                let j = choose|j: int| 0 <= j < s.len() && s[j].user == u && s[j].status
                    == PolicyStatus::Active;
                assert(j < d.len());
                assert(d[j] == s[j]);
            }
            if active_users(s).contains(u) {
                let j = choose|j: int| 0 <= j < d.len() && d[j].user == u && d[j].status
                    == PolicyStatus::Active;
                assert(s[j] == d[j]);
            }
        }
    }
}

/// The text code a policy's status is stored under.
pub fn status_to_str(s: PolicyStatus) -> (r: &'static str)
    ensures
        s == PolicyStatus::Active ==> r@ == "active"@,
        s == PolicyStatus::Paused ==> r@ == "paused"@,
{
    match s {
        PolicyStatus::Active => "active",
        PolicyStatus::Paused => "paused",
    }
}


/// A user's next stored policy gets the version after their current one,
/// and their first gets version 1.
pub proof fn law_policy_versions_increment(store: InMemoryPolicyStore, u: UserAddress)
    ensures
        store.lookup(u) matches Some(p) ==> next_version(store.entries(), u) == p.version + 1,
        store.lookup(u) is None ==> next_version(store.entries(), u) == 1,
{
}

} // verus!
