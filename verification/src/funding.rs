//! Deposits into and withdrawals out of a user's smart account.
use vstd::prelude::*;

use crate::audit::UnknownCode;
use crate::model::{Amount, ChainId, UnixNanos, UserAddress, amount_u64};
use crate::outside::{u256_add, u256_modulus, u256_saturating_sub, u256_value};
use crate::text::str_eq;

verus! {

/// Direction of a funding event.
#[derive(Clone, Copy, Debug, PartialEq, Eq, Structural, Hash)]
pub enum FundingKind {
    Deposit,
    WithdrawToEoa,
}

/// A recorded funding event; `amount_6dec` is the raw USDC amount.
#[derive(Debug)]
pub struct FundingEvent {
    pub id: u64,
    pub ts: UnixNanos,
    pub user: UserAddress,
    pub chain: ChainId,
    pub kind: FundingKind,
    pub amount_6dec: Amount,
    pub tx_hash: String,
}

/// A funding event before the store assigns it an id.
#[derive(Debug)]
pub struct NewFundingEvent {
    pub ts: UnixNanos,
    pub user: UserAddress,
    pub chain: ChainId,
    pub kind: FundingKind,
    pub amount: Amount,
    pub tx_hash: String,
}

impl NewFundingEvent {
    pub fn new(
        user: UserAddress,
        chain: ChainId,
        kind: FundingKind,
        amount: Amount,
        tx_hash: String,
        ts: UnixNanos,
    ) -> (r: Self)
        ensures
            r == (NewFundingEvent { ts, user, chain, kind, amount, tx_hash }),
    {
        NewFundingEvent { ts, user, chain, kind, amount, tx_hash }
    }
}

impl FundingEvent {
    /// A copy of the event.
    pub fn duplicate(&self) -> (r: FundingEvent)
        ensures
            r == *self,
    {
        FundingEvent {
            id: self.id,
            ts: self.ts,
            user: self.user,
            chain: self.chain,
            kind: self.kind,
            amount_6dec: self.amount_6dec,
            tx_hash: self.tx_hash.clone(),
        }
    }
}

/// `f` records the same transfer as `e`: same user, chain, kind and
/// transaction hash.
pub open spec fn same_transfer(f: FundingEvent, e: NewFundingEvent) -> bool {
    &&& f.user == e.user
    &&& f.chain == e.chain
    &&& f.kind == e.kind
    &&& f.tx_hash@ == e.tx_hash@
}

/// `i` is the first stored record of the transfer `e`.
pub open spec fn first_same_transfer(s: Seq<FundingEvent>, e: NewFundingEvent, i: int) -> bool {
    &&& 0 <= i < s.len()
    &&& same_transfer(s[i], e)
    &&& forall|j: int| 0 <= j < i ==> !same_transfer(s[j], e)
}

pub open spec fn stored_funding(e: NewFundingEvent, id: u64) -> FundingEvent {
    FundingEvent {
        id,
        ts: e.ts,
        user: e.user,
        chain: e.chain,
        kind: e.kind,
        amount_6dec: e.amount,
        tx_hash: e.tx_hash,
    }
}

/// The total amount of `user`'s events of kind `kind` in `s`, added up as
/// 256-bit numbers (modulo `2^256`).
pub open spec fn funding_total(s: Seq<FundingEvent>, user: UserAddress, kind: FundingKind) -> nat
    decreases s.len(),
{
    if s.len() == 0 {
        0
    } else if s.last().user == user && s.last().kind == kind {
        (funding_total(s.drop_last(), user, kind) + u256_value(s.last().amount_6dec@)) % u256_modulus()
    } else {
        funding_total(s.drop_last(), user, kind)
    }
}

/// The newest `limit` events of `user` in `s`, newest first.
pub open spec fn newest_funding(s: Seq<FundingEvent>, user: UserAddress, limit: nat) -> Seq<FundingEvent>
    decreases s.len(),
{
    if s.len() == 0 || limit == 0 {
        Seq::empty()
    } else if s.last().user == user {
        seq![s.last()] + newest_funding(s.drop_last(), user, (limit - 1) as nat)
    } else {
        newest_funding(s.drop_last(), user, limit)
    }
}

/// Funding events kept in memory, with ids assigned from 1 upward; a
/// transfer is recorded once.
#[derive(Debug)]
pub struct InMemoryFundingStore {
    next_id: u64,
    events: Vec<FundingEvent>,
}

impl InMemoryFundingStore {
    /// The stored events, oldest first.
    pub closed spec fn events(&self) -> Seq<FundingEvent> {
        self.events@
    }

    pub closed spec fn wf(&self) -> bool {
        &&& self.next_id == self.events@.len() + 1
        &&& forall|i: int| 0 <= i < self.events@.len() ==> #[trigger] self.events@[i].id == i + 1
    }

    pub fn new() -> (r: Self)
        ensures
            r.wf(),
            r.events() == Seq::<FundingEvent>::empty(),
    {
        InMemoryFundingStore { next_id: 1, events: Vec::new() }
    }

    /// Records the event unless the same transfer is already recorded, and
    /// returns the id of the record.
    pub fn append(&mut self, event: NewFundingEvent) -> (r: u64)
        requires
            old(self).wf(),
            old(self).events().len() + 2 <= u64::MAX,
        ensures
            final(self).wf(),
            (exists|i: int| first_same_transfer(old(self).events(), event, i)) ==> {
                &&& final(self).events() == old(self).events()
                &&& r == old(self).events()[choose|i: int| first_same_transfer(old(self).events(), event, i)].id
            },
            !(exists|i: int| first_same_transfer(old(self).events(), event, i)) ==> {
                &&& r == old(self).events().len() + 1
                &&& final(self).events() == old(self).events().push(stored_funding(event, r))
            },
    {
        let mut i: usize = 0;
        while i < self.events.len()
            invariant
                self.wf(),
                i <= self.events@.len(),
                forall|j: int| 0 <= j < i ==> !same_transfer(self.events@[j], event),
            decreases self.events@.len() - i,
        {
            let e = &self.events[i];
            if e.user == event.user && e.chain == event.chain && e.kind == event.kind && e.tx_hash
                == event.tx_hash {
                proof {
                    assert(first_same_transfer(self.events@, event, i as int));
                    let c = choose|c: int| first_same_transfer(self.events@, event, c);
                    assert(c == i);
                }
                return e.id;
            }
            i = i + 1;
        }
        assert(!exists|i: int| first_same_transfer(self.events@, event, i));
        let id = self.next_id;
        self.events.push(
            FundingEvent {
                id,
                ts: event.ts,
                user: event.user,
                chain: event.chain,
                kind: event.kind,
                amount_6dec: event.amount,
                tx_hash: event.tx_hash,
            },
        );
        self.next_id = id + 1;
        id
    }

    /// The total amount of `user`'s events of kind `kind`.
    pub fn sum(&self, user: UserAddress, kind: FundingKind) -> (r: Amount)
        ensures
            u256_value(r@) == funding_total(self.events(), user, kind),
    {
        let events = &self.events;
        let mut total: Amount = amount_u64(0);
        let mut i: usize = 0;
        while i < events.len()
            invariant
                events == &self.events,
                i <= events@.len(),
                u256_value(total@) == funding_total(events@.subrange(0, i as int), user, kind),
            decreases events@.len() - i,
        {
            assert(events@.subrange(0, i + 1).drop_last() =~= events@.subrange(0, i as int));
            let e = &events[i];
            if e.user == user && e.kind == kind {
                total = u256_add(total, e.amount_6dec);
            }
            i = i + 1;
        }
        assert(events@.subrange(0, events@.len() as int) =~= events@);
        total
    }

    /// The newest `limit` events of `user`, newest first.
    pub fn list_for_user(&self, user: UserAddress, limit: usize) -> (r: Vec<FundingEvent>)
        ensures
            r@ == newest_funding(self.events(), user, limit as nat),
    {
        let events = &self.events;
        let mut out: Vec<FundingEvent> = Vec::new();
        let mut i: usize = events.len();
        assert(events@.subrange(0, i as int) =~= events@);
        assert(out@ + newest_funding(events@, user, limit as nat) =~= newest_funding(
            events@,
            user,
            limit as nat,
        ));
        while i > 0 && out.len() < limit
            invariant
                events == &self.events,
                i <= events@.len(),
                out@.len() <= limit,
                out@ + newest_funding(events@.subrange(0, i as int), user, (limit - out@.len()) as nat)
                    == newest_funding(events@, user, limit as nat),
            decreases i,
        {
            let ghost s = events@.subrange(0, i as int);
            let ghost rest = (limit - out@.len()) as nat;
            assert(s.drop_last() =~= events@.subrange(0, i - 1));
            let e = &events[i - 1];
            if e.user == user {
                let ghost before = out@;
                out.push(e.duplicate());
                assert(seq![s.last()] + newest_funding(s.drop_last(), user, (rest - 1) as nat)
                    == newest_funding(s, user, rest));
                assert(out@ + newest_funding(s.drop_last(), user, (rest - 1) as nat) =~= before
                    + newest_funding(s, user, rest));
            }
            i = i - 1;
        }
        assert(out@ + newest_funding(events@.subrange(0, i as int), user, (limit - out@.len()) as nat)
            =~= out@);
        out
    }
}

/// Deposits less withdrawals, clamped at zero.
pub fn net_of_sums(deposits: Amount, withdrawals: Amount) -> (r: Amount)
    ensures
        u256_value(deposits@) >= u256_value(withdrawals@) ==> u256_value(r@) == u256_value(deposits@)
            - u256_value(withdrawals@),
        u256_value(deposits@) < u256_value(withdrawals@) ==> u256_value(r@) == 0,
{
    u256_saturating_sub(deposits, withdrawals)
}

/// What `user` has put into the smart account, net of withdrawals to their
/// wallet, clamped at zero.
pub fn net_deposited(store: &InMemoryFundingStore, user: UserAddress) -> (r: Amount)
    ensures
        u256_value(r@) == if funding_total(store.events(), user, FundingKind::Deposit) >= funding_total(
            store.events(),
            user,
            FundingKind::WithdrawToEoa,
        ) {
            funding_total(store.events(), user, FundingKind::Deposit) - funding_total(
                store.events(),
                user,
                FundingKind::WithdrawToEoa,
            )
        } else {
            0
        },
{
    let deposits = store.sum(user, FundingKind::Deposit);
    let withdrawals = store.sum(user, FundingKind::WithdrawToEoa);
    net_of_sums(deposits, withdrawals)
}

/// Recording a new transfer adds its amount (modulo `2^256`) to the total
/// of its user and kind, and to no other total.
pub proof fn law_total_after_record(
    s: Seq<FundingEvent>,
    e: NewFundingEvent,
    id: u64,
    user: UserAddress,
    kind: FundingKind,
)
    ensures
        funding_total(s.push(stored_funding(e, id)), user, kind) == if e.user == user && e.kind == kind {
            (funding_total(s, user, kind) + u256_value(e.amount@)) % u256_modulus()
        } else {
            funding_total(s, user, kind)
        },
{
    assert(s.push(stored_funding(e, id)).drop_last() =~= s);
}

// ---------------------------------------------------------------------------
// Text codes of the storage layer

pub open spec fn chain_code(c: ChainId) -> Seq<char> {
    match c {
        ChainId::Arc => "arc"@,
        ChainId::ArbitrumSepolia => "arbitrum_sepolia"@,
    }
}

pub open spec fn chain_named(s: Seq<char>) -> Option<ChainId> {
    if s == "arc"@ {
        Some(ChainId::Arc)
    } else if s == "arbitrum_sepolia"@ {
        Some(ChainId::ArbitrumSepolia)
    } else {
        None
    }
}

pub open spec fn kind_code(k: FundingKind) -> Seq<char> {
    match k {
        FundingKind::Deposit => "deposit"@,
        FundingKind::WithdrawToEoa => "withdraw_to_eoa"@,
    }
}

pub open spec fn kind_named(s: Seq<char>) -> Option<FundingKind> {
    if s == "deposit"@ {
        Some(FundingKind::Deposit)
    } else if s == "withdraw_to_eoa"@ {
        Some(FundingKind::WithdrawToEoa)
    } else {
        None
    }
}

pub fn chain_to_str(c: ChainId) -> (r: &'static str)
    ensures
        r@ == chain_code(c),
{
    match c {
        ChainId::Arc => "arc",
        ChainId::ArbitrumSepolia => "arbitrum_sepolia",
    }
}

pub fn chain_from_str(s: &str) -> (r: Result<ChainId, UnknownCode>)
    ensures
        r is Ok <==> chain_named(s@) is Some,
        r matches Ok(c) ==> chain_named(s@) == Some(c),
        r matches Err(u) ==> u.text@ == s@,
{
    if str_eq(s, "arc") {
        Ok(ChainId::Arc)
    } else if str_eq(s, "arbitrum_sepolia") {
        Ok(ChainId::ArbitrumSepolia)
    } else {
        Err(UnknownCode { text: s.to_owned() })
    }
}

pub fn kind_to_str(k: FundingKind) -> (r: &'static str)
    ensures
        r@ == kind_code(k),
{
    match k {
        FundingKind::Deposit => "deposit",
        FundingKind::WithdrawToEoa => "withdraw_to_eoa",
    }
}

pub fn kind_from_str(s: &str) -> (r: Result<FundingKind, UnknownCode>)
    ensures
        r is Ok <==> kind_named(s@) is Some,
        r matches Ok(k) ==> kind_named(s@) == Some(k),
        r matches Err(u) ==> u.text@ == s@,
{
    if str_eq(s, "deposit") {
        Ok(FundingKind::Deposit)
    } else if str_eq(s, "withdraw_to_eoa") {
        Ok(FundingKind::WithdrawToEoa)
    } else {
        Err(UnknownCode { text: s.to_owned() })
    }
}

/// Decoding a chain's or a kind's code gives it back.
pub proof fn law_funding_codes_round_trip(c: ChainId, k: FundingKind)
    ensures
        chain_named(chain_code(c)) == Some(c),
        kind_named(kind_code(k)) == Some(k),
{
    reveal_strlit("arc");
    reveal_strlit("arbitrum_sepolia");
    reveal_strlit("deposit");
    reveal_strlit("withdraw_to_eoa");
    assert("arc"@.len() == 3);
    assert("arbitrum_sepolia"@.len() == 16);
    assert("deposit"@.len() == 7);
    assert("withdraw_to_eoa"@.len() == 15);
}

/// Once a transfer is recorded, recording it again finds that record: the
/// store is left as it is and the first record's id comes back.
pub proof fn law_funding_recorded_once(s: Seq<FundingEvent>, e: NewFundingEvent, id: u64)
    requires
        !(exists|i: int| first_same_transfer(s, e, i)),
    ensures
        ({
            let after = s.push(stored_funding(e, id));
            &&& exists|i: int| first_same_transfer(after, e, i)
            &&& after[choose|i: int| first_same_transfer(after, e, i)].id == id
        }),
{
    let after = s.push(stored_funding(e, id));
    assert forall|j: int| 0 <= j < s.len() implies !same_transfer(#[trigger] after[j], e) by {
        if same_transfer(after[j], e) {
            assert(s[j] == after[j]);
            lemma_first_of(s, e, j);
        }
    }
    assert(first_same_transfer(after, e, s.len() as int));
    let c = choose|i: int| first_same_transfer(after, e, i);
    assert(c == s.len()) by {
        if c < s.len() {
            assert(!same_transfer(after[c], e));
        }
        if c > s.len() {
            assert(!same_transfer(after[s.len() as int], e));
        }
    }
}

proof fn lemma_first_of(s: Seq<FundingEvent>, e: NewFundingEvent, j: int)
    requires
        0 <= j < s.len(),
        same_transfer(s[j], e),
    ensures
        exists|i: int| first_same_transfer(s, e, i),
    decreases j,
{
    if exists|m: int| 0 <= m < j && same_transfer(s[m], e) {
        let m = choose|m: int| 0 <= m < j && same_transfer(s[m], e);
        lemma_first_of(s, e, m);
    } else {
        assert(first_same_transfer(s, e, j));
    }
}

} // verus!
