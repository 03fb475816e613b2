//! The latest known position of each user.
use vstd::prelude::*;

use crate::evaluator::{holdings_total, Holding, LastAction, Position};
use crate::model::{amount_value, is_positive, Amount, ChainId, ProtocolId, UserAddress, VenueRef};
use crate::outside::{lemma_u256_value_bound, u256_modulus};

verus! {

impl Position {
    /// A position with no capital, no recorded moves and no moves today.
    pub fn empty() -> (r: Position)
        ensures
            r.holdings@ == Seq::<Holding>::empty(),
            r.last_action_at@ == Seq::<LastAction>::empty(),
            r.actions_today == 0,
            r.wf(),
    {
        Position { holdings: Vec::new(), last_action_at: Vec::new(), actions_today: 0 }
    }
}

/// The holdings read on chain, in order: idle USDC on Arc, idle USDC on
/// Arbitrum Sepolia, the AAVE position on Arbitrum Sepolia; empty ones are
/// left out.
pub open spec fn fetched_holdings(arc_idle: Amount, arbitrum_idle: Amount, aave: Amount) -> Seq<Holding> {
    let a = if amount_value(arc_idle) != 0 {
        seq![Holding { venue: VenueRef { chain: ChainId::Arc, protocol: ProtocolId::Idle }, amount: arc_idle }]
    } else {
        Seq::empty()
    };
    let b = if amount_value(arbitrum_idle) != 0 {
        seq![
            Holding {
                venue: VenueRef { chain: ChainId::ArbitrumSepolia, protocol: ProtocolId::Idle },
                amount: arbitrum_idle,
            },
        ]
    } else {
        Seq::empty()
    };
    let c = if amount_value(aave) != 0 {
        seq![
            Holding {
                venue: VenueRef { chain: ChainId::ArbitrumSepolia, protocol: ProtocolId::AaveV3 },
                amount: aave,
            },
        ]
    } else {
        Seq::empty()
    };
    a + b + c
}

/// The holding of idle USDC on Arc.
pub open spec fn arc_idle_holding(amount: Amount) -> Holding {
    Holding { venue: VenueRef { chain: ChainId::Arc, protocol: ProtocolId::Idle }, amount }
}

/// The holding of idle USDC on Arbitrum Sepolia.
pub open spec fn arbitrum_idle_holding(amount: Amount) -> Holding {
    Holding { venue: VenueRef { chain: ChainId::ArbitrumSepolia, protocol: ProtocolId::Idle }, amount }
}

/// The holding of the AAVE position on Arbitrum Sepolia.
pub open spec fn aave_holding(amount: Amount) -> Holding {
    Holding { venue: VenueRef { chain: ChainId::ArbitrumSepolia, protocol: ProtocolId::AaveV3 }, amount }
}

/// The position read on chain keeps every balance that was read: each
/// non-zero balance is a holding of its venue, with that amount; every
/// holding is one of the balances read and is non-zero; and the holdings
/// add up, as 256-bit numbers, to the sum of the three balances.
pub proof fn law_fetched_holdings_keep_balances(arc_idle: Amount, arbitrum_idle: Amount, aave: Amount)
    ensures
        amount_value(arc_idle) != 0 ==> fetched_holdings(arc_idle, arbitrum_idle, aave).contains(
            arc_idle_holding(arc_idle),
        ),
        amount_value(arbitrum_idle) != 0 ==> fetched_holdings(arc_idle, arbitrum_idle, aave).contains(
            arbitrum_idle_holding(arbitrum_idle),
        ),
        amount_value(aave) != 0 ==> fetched_holdings(arc_idle, arbitrum_idle, aave).contains(
            aave_holding(aave),
        ),
        forall|i: int|
            0 <= i < fetched_holdings(arc_idle, arbitrum_idle, aave).len() ==> {
                let h = #[trigger] fetched_holdings(arc_idle, arbitrum_idle, aave)[i];
                &&& amount_value(h.amount) != 0
                &&& (h == arc_idle_holding(arc_idle) || h == arbitrum_idle_holding(arbitrum_idle)
                    || h == aave_holding(aave))
            },
        holdings_total(fetched_holdings(arc_idle, arbitrum_idle, aave)) == (amount_value(arc_idle)
            + amount_value(arbitrum_idle) + amount_value(aave)) % u256_modulus(),
{
    let va = amount_value(arc_idle);
    let vb = amount_value(arbitrum_idle);
    let vc = amount_value(aave);
    let m = u256_modulus();
    lemma_u256_value_bound(arc_idle@);
    lemma_u256_value_bound(arbitrum_idle@);
    lemma_u256_value_bound(aave@);
    let h0 = Seq::<Holding>::empty();
    let h1 = if va != 0 {
        h0.push(arc_idle_holding(arc_idle))
    } else {
        h0
    };
    let h2 = if vb != 0 {
        h1.push(arbitrum_idle_holding(arbitrum_idle))
    } else {
        h1
    };
    let h3 = if vc != 0 {
        h2.push(aave_holding(aave))
    } else {
        h2
    };
    assert(fetched_holdings(arc_idle, arbitrum_idle, aave) =~= h3);
    assert(holdings_total(h0) == 0);
    assert(holdings_total(h1) == va) by {
        if va != 0 {
            assert(h1.drop_last() =~= h0);
            assert(h1.last() == arc_idle_holding(arc_idle));
            vstd::arithmetic::div_mod::lemma_small_mod(va, m);
            assert(holdings_total(h1) == (holdings_total(h0) + va) % m);
        }
    }
    assert(holdings_total(h2) == (va + vb) % m) by {
        if vb != 0 {
            assert(h2.drop_last() =~= h1);
        } else {
            vstd::arithmetic::div_mod::lemma_small_mod(va, m);
        }
    }
    assert(holdings_total(h3) == (va + vb + vc) % m) by {
        if vc != 0 {
            assert(h3.drop_last() =~= h2);
            vstd::arithmetic::div_mod::lemma_add_mod_noop((va + vb) as int, vc as int, m as int);
            vstd::arithmetic::div_mod::lemma_small_mod(vc, m);
        }
    }
    if va != 0 {
        assert(h3[0] == arc_idle_holding(arc_idle));
    }
    if vb != 0 {
        assert(h2[h2.len() - 1] == arbitrum_idle_holding(arbitrum_idle));
        assert(h3[h2.len() - 1] == arbitrum_idle_holding(arbitrum_idle));
    }
    if vc != 0 {
        assert(h3[h3.len() - 1] == aave_holding(aave));
    }
}

/// The position that the balances read on chain make: their non-empty
/// holdings, no recorded moves, no moves today.
pub fn fetched_position(arc_idle: Amount, arbitrum_idle: Amount, aave: Amount) -> (r: Position)
    ensures
        r.holdings@ == fetched_holdings(arc_idle, arbitrum_idle, aave),
        amount_value(arc_idle) != 0 ==> r.holdings@.contains(arc_idle_holding(arc_idle)),
        amount_value(arbitrum_idle) != 0 ==> r.holdings@.contains(arbitrum_idle_holding(arbitrum_idle)),
        amount_value(aave) != 0 ==> r.holdings@.contains(aave_holding(aave)),
        forall|i: int|
            0 <= i < r.holdings@.len() ==> amount_value((#[trigger] r.holdings@[i]).amount) != 0,
        holdings_total(r.holdings@) == (amount_value(arc_idle) + amount_value(arbitrum_idle)
            + amount_value(aave)) % u256_modulus(),
        r.last_action_at@ == Seq::<LastAction>::empty(),
        r.actions_today == 0,
        r.wf(),
{
    proof {
        law_fetched_holdings_keep_balances(arc_idle, arbitrum_idle, aave);
    }
    let mut holdings: Vec<Holding> = Vec::new();
    if is_positive(arc_idle) {
        holdings.push(
            Holding { venue: VenueRef { chain: ChainId::Arc, protocol: ProtocolId::Idle }, amount: arc_idle },
        );
    }
    if is_positive(arbitrum_idle) {
        holdings.push(
            Holding {
                venue: VenueRef { chain: ChainId::ArbitrumSepolia, protocol: ProtocolId::Idle },
                amount: arbitrum_idle,
            },
        );
    }
    if is_positive(aave) {
        holdings.push(
            Holding {
                venue: VenueRef { chain: ChainId::ArbitrumSepolia, protocol: ProtocolId::AaveV3 },
                amount: aave,
            },
        );
    }
    assert(holdings@ =~= fetched_holdings(arc_idle, arbitrum_idle, aave));
    Position { holdings, last_action_at: Vec::new(), actions_today: 0 }
}

/// One user's position.
#[derive(Debug)]
pub struct PositionEntry {
    pub user: UserAddress,
    pub position: Position,
}

/// `i` is the entry of user `u`.
pub open spec fn position_entry_of(s: Seq<PositionEntry>, u: UserAddress, i: int) -> bool {
    &&& 0 <= i < s.len()
    &&& s[i].user == u
    &&& forall|j: int| 0 <= j < i ==> s[j].user != u
}

pub open spec fn position_of(s: Seq<PositionEntry>, u: UserAddress) -> Option<Position> {
    if exists|i: int| position_entry_of(s, u, i) {
        Some(s[choose|i: int| position_entry_of(s, u, i)].position)
    } else {
        None
    }
}

pub open spec fn position_users_distinct(s: Seq<PositionEntry>) -> bool {
    forall|i: int, j: int| 0 <= i < s.len() && 0 <= j < s.len() && i != j ==> s[i].user != s[j].user
}

proof fn lemma_position_at(s: Seq<PositionEntry>, u: UserAddress, i: int)
    requires
        position_users_distinct(s),
        0 <= i < s.len(),
        s[i].user == u,
    ensures
        position_of(s, u) == Some(s[i].position),
{
    assert(position_entry_of(s, u, i));
    let c = choose|c: int| position_entry_of(s, u, c);
    assert(c == i);
}

/// Positions kept in memory, one per user.
#[derive(Debug)]
pub struct InMemoryPositionStore {
    entries: Vec<PositionEntry>,
}

impl InMemoryPositionStore {
    pub closed spec fn entries(&self) -> Seq<PositionEntry> {
        self.entries@
    }

    pub closed spec fn wf(&self) -> bool {
        &&& position_users_distinct(self.entries@)
        &&& forall|i: int| 0 <= i < self.entries@.len() ==> (#[trigger] self.entries@[i]).position.wf()
    }

    /// The stored position of user `u`.
    pub open spec fn lookup(&self, u: UserAddress) -> Option<Position> {
        position_of(self.entries(), u)
    }

    pub fn new() -> (r: Self)
        ensures
            r.wf(),
            forall|u: UserAddress| r.lookup(u) is None,
    {
        InMemoryPositionStore { entries: Vec::new() }
    }

    fn index_of(&self, user: UserAddress) -> (r: Option<usize>)
        requires
            self.wf(),
        ensures
            r matches Some(i) ==> i < self.entries@.len() && self.entries@[i as int].user == user
                && self.lookup(user) == Some(self.entries@[i as int].position),
            r is None ==> (forall|i: int| 0 <= i < self.entries@.len() ==> self.entries@[i].user != user)
                && self.lookup(user) is None,
    {
        let mut i: usize = 0;
        while i < self.entries.len()
            invariant
                self.wf(),
                i <= self.entries@.len(),
                forall|j: int| 0 <= j < i ==> self.entries@[j].user != user,
            decreases self.entries@.len() - i,
        {
            if self.entries[i].user == user {
                proof {
                    lemma_position_at(self.entries@, user, i as int);
                }
                return Some(i);
            }
            i = i + 1;
        }
        None
    }

    /// The stored position of `user`.
    pub fn get(&self, user: UserAddress) -> (r: Option<&Position>)
        requires
            self.wf(),
        ensures
            r is None <==> self.lookup(user) is None,
            r matches Some(p) ==> self.lookup(user) == Some(*p) && p.wf(),
    {
        match self.index_of(user) {
            Some(i) => Some(&self.entries[i].position),
            None => None,
        }
    }

    /// Stores `position` as `user`'s position, replacing any earlier one.
    pub fn put(&mut self, user: UserAddress, position: Position)
        requires
            old(self).wf(),
            position.wf(),
        ensures
            final(self).wf(),
            final(self).lookup(user) == Some(position),
            forall|u: UserAddress| u != user ==> final(self).lookup(u) == old(self).lookup(u),
    {
        let ghost old_entries = self.entries@;
        let ghost stored = PositionEntry { user, position };
        match self.index_of(user) {
            Some(i) => {
                self.entries.set(i, PositionEntry { user, position });
                proof {
                    let s = self.entries@;
                    assert(s == old_entries.update(i as int, stored));
                    lemma_position_at(s, user, i as int);
                    assert forall|u: UserAddress| u != user implies position_of(s, u) == position_of(
                        old_entries,
                        u,
                    ) by {
                        if exists|j: int| 0 <= j < s.len() && s[j].user == u {
                            let j = choose|j: int| 0 <= j < s.len() && s[j].user == u;
                            lemma_position_at(s, u, j);
                            lemma_position_at(old_entries, u, j);
                        } else {
                            assert forall|j: int| 0 <= j < old_entries.len() implies old_entries[j].user
                                != u by {
                                if j != i {
                                    assert(s[j] == old_entries[j]);
                                }
                            }
                        }
                    }
                }
            },
            None => {
                self.entries.push(PositionEntry { user, position });
                proof {
                    let s = self.entries@;
                    assert(s == old_entries.push(stored));
                    lemma_position_at(s, user, old_entries.len() as int);
                    assert forall|u: UserAddress| u != user implies position_of(s, u) == position_of(
                        old_entries,
                        u,
                    ) by {
                        if exists|j: int| 0 <= j < old_entries.len() && old_entries[j].user == u {
                            let j = choose|j: int| 0 <= j < old_entries.len() && old_entries[j].user == u;
                            lemma_position_at(s, u, j);
                            lemma_position_at(old_entries, u, j);
                        }
                    }
                }
            },
        }
    }
}

} // verus!
