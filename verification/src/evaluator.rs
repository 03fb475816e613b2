//! The rebalancing evaluator: the guards that halt the engine, the ranking
//! of venues, and the sizing of a move between two venues.
//!
//! Floating-point market data (APRs, prices, utilization) reaches this module
//! as the verdicts and order keys computed from it: [`MarketReadings`].
use vstd::prelude::*;

use crate::model::{
    amount_u64, amount_value, instant_ok, is_positive, Amount, ChainId, NANOS_PER_MINUTE, ProtocolId,
    UnixNanos, VenueRef,
};
use crate::outside::{
    amount_of, lemma_amount_of, lemma_amount_of_value, u256_add, u256_div, u256_ge, u256_modulus, u256_mul,
    u256_saturating_sub,
};
use crate::policy::Policy;

verus! {

/// Health of the cross-chain gateway
/// (`Healthy` is the state the wire format calls `ok`).
#[derive(Clone, Copy, Debug, PartialEq, Eq, Structural, Hash)]
pub enum GatewayHealth {
    Healthy,
    Degraded,
    Down,
}

/// Capital held in one venue.
#[derive(Clone, Copy, Debug, PartialEq, Eq)]
pub struct Holding {
    pub venue: VenueRef,
    pub amount: Amount,
}

/// The last time the engine moved capital into a venue.
#[derive(Clone, Copy, Debug, PartialEq, Eq, Structural)]
pub struct LastAction {
    pub venue: VenueRef,
    pub at: UnixNanos,
}

/// A user's capital across venues.
#[derive(Debug)]
pub struct Position {
    pub holdings: Vec<Holding>,
    pub last_action_at: Vec<LastAction>,
    pub actions_today: u32,
}

/// No venue has two holdings.
pub open spec fn holding_venues_distinct(hs: Seq<Holding>) -> bool {
    forall|i: int, j: int| 0 <= i < j < hs.len() ==> #[trigger] hs[i].venue != #[trigger] hs[j].venue
}

/// No venue has two records of a last move.
pub open spec fn action_venues_distinct(acts: Seq<LastAction>) -> bool {
    forall|i: int, j: int| 0 <= i < j < acts.len() ==> #[trigger] acts[i].venue != #[trigger] acts[j].venue
}

impl Position {
    /// A position is a map from venue to capital and from venue to last
    /// move: each venue occurs at most once in each list.
    pub open spec fn wf(&self) -> bool {
        &&& holding_venues_distinct(self.holdings@)
        &&& action_venues_distinct(self.last_action_at@)
    }

    /// Whether each venue occurs at most once in each list.
    pub fn is_wf(&self) -> (r: bool)
        ensures
            r == self.wf(),
    {
        let hs = &self.holdings;
        let mut j: usize = 0;
        while j < hs.len()
            invariant
                hs@ == self.holdings@,
                j <= hs@.len(),
                forall|a: int, b: int| 0 <= a < b < j ==> #[trigger] hs@[a].venue != #[trigger] hs@[b].venue,
            decreases hs@.len() - j,
        {
            let mut i: usize = 0;
            while i < j
                invariant
                    hs@ == self.holdings@,
                    i <= j < hs@.len(),
                    forall|a: int| 0 <= a < i ==> #[trigger] hs@[a].venue != hs@[j as int].venue,
                decreases j - i,
            {
                if hs[i].venue == hs[j].venue {
                    assert(!holding_venues_distinct(self.holdings@)) by {
                        assert(hs@[i as int].venue == hs@[j as int].venue);
                    }
                    return false;
                }
                i = i + 1;
            }
            j = j + 1;
        }
        let acts = &self.last_action_at;
        let mut j: usize = 0;
        while j < acts.len()
            invariant
                holding_venues_distinct(self.holdings@),
                acts@ == self.last_action_at@,
                j <= acts@.len(),
                forall|a: int, b: int| 0 <= a < b < j ==> #[trigger] acts@[a].venue != #[trigger] acts@[b].venue,
            decreases acts@.len() - j,
        {
            let mut i: usize = 0;
            while i < j
                invariant
                    acts@ == self.last_action_at@,
                    i <= j < acts@.len(),
                    forall|a: int| 0 <= a < i ==> #[trigger] acts@[a].venue != acts@[j as int].venue,
                decreases j - i,
            {
                if acts[i].venue == acts[j].venue {
                    assert(!action_venues_distinct(self.last_action_at@)) by {
                        assert(acts@[i as int].venue == acts@[j as int].venue);
                    }
                    return false;
                }
                i = i + 1;
            }
            j = j + 1;
        }
        true
    }
}

/// What the latest market snapshot says of one venue, read against a policy.
/// `apr_key` orders venues as their smoothed APR does (equal APRs, equal
/// keys); an APR of zero has the key [`ZERO_APR_KEY`].
#[derive(Clone, Copy, Debug, PartialEq, Eq, Structural)]
pub struct VenueReading {
    pub venue: VenueRef,
    pub apr_key: u64,
    pub utilization_exceeded: bool,
    pub tvl_drop_exceeded: bool,
}

/// The latest market snapshot, read against a policy.
#[derive(Debug)]
pub struct MarketReadings {
    pub built_at: UnixNanos,
    pub gateway_health: GatewayHealth,
    pub usdc_below_peg: bool,
    pub venues: Vec<VenueReading>,
}

/// The order key of an APR of zero.
pub const ZERO_APR_KEY: u64 = 0x8000_0000_0000_0000;

/// Largest snapshot age, in nanoseconds, that the engine still trusts (5 minutes).
pub const SNAPSHOT_MAX_AGE_NANOS: i128 = 300_000_000_000;

/// Why the engine does nothing.
#[derive(Clone, Copy, Debug, PartialEq, Eq, Structural)]
pub enum NoopReason {
    NoCapital,
    AlreadyAtBestVenue,
    AprDeltaBelowThreshold,
    DestinationInCooldown,
    BestVenueAtCap,
    GasExceedsCap,
    EvBelowThreshold,
    DailyQuotaReached,
    GatewayDown,
}

/// Why the engine hands the decision to a human or a model.
#[derive(Clone, Copy, Debug, PartialEq, Eq, Structural)]
pub enum EscalateReason {
    NewListingNoData { venue: VenueRef },
}

/// The health signal that tripped a venue's circuit breaker.
#[derive(Clone, Copy, Debug, PartialEq, Eq, Structural)]
pub enum HealthSignal {
    Utilization,
    TvlDrop,
}

/// Why the engine halted.
#[derive(Clone, Copy, Debug, PartialEq, Eq, Structural)]
pub enum BreakReason {
    SnapshotStale,
    UsdcDepeg,
    VenueUnhealthy { venue: VenueRef, signal: HealthSignal },
}

/// Moving `amount` from one venue to another.
#[derive(Clone, Copy, Debug, PartialEq, Eq)]
pub struct Action {
    pub from: VenueRef,
    pub to: VenueRef,
    pub amount: Amount,
}

/// The moves of a rebalancing plan.
#[derive(Debug)]
pub struct ActionPlan {
    pub actions: Vec<Action>,
}

/// What the engine decided.
#[allow(inconsistent_fields)]
#[derive(Debug)]
pub enum Decision {
    Noop { reason: NoopReason },
    Act { plan: ActionPlan },
    Escalate { reason: EscalateReason },
    CircuitBreak { reason: BreakReason, drain_to: Option<VenueRef> },
}

/// A line of the evaluator's reasoning, as shown to the user.
#[derive(Debug)]
pub struct EvaluatorThought {
    pub label: String,
}

impl EvaluatorThought {
    pub fn new(label: String) -> (r: Self)
        ensures
            r.label@ == label@,
    {
        EvaluatorThought { label }
    }
}

/// The name of a chain in the evaluator's reasoning.
pub fn chain_name(c: ChainId) -> (r: &'static str)
    ensures
        c == ChainId::Arc ==> r@ == "Arc"@,
        c == ChainId::ArbitrumSepolia ==> r@ == "Arbitrum Sepolia"@,
{
    match c {
        ChainId::Arc => "Arc",
        ChainId::ArbitrumSepolia => "Arbitrum Sepolia",
    }
}

/// The name of a protocol in the evaluator's reasoning; the idle balance
/// is the wallet.
pub fn protocol_name(p: ProtocolId) -> (r: &'static str)
    ensures
        p == ProtocolId::Idle ==> r@ == "Wallet"@,
        p == ProtocolId::AaveV3 ==> r@ == "AAVE v3"@,
{
    match p {
        ProtocolId::Idle => "Wallet",
        ProtocolId::AaveV3 => "AAVE v3",
    }
}


// ---------------------------------------------------------------------------
// Lookups

/// `i` is the first reading of venue `v`.
pub open spec fn first_reading_at(rs: Seq<VenueReading>, v: VenueRef, i: int) -> bool {
    &&& 0 <= i < rs.len()
    &&& rs[i].venue == v
    &&& forall|j: int| 0 <= j < i ==> rs[j].venue != v
}

/// The reading of venue `v`, if the snapshot has one.
pub open spec fn reading_of(rs: Seq<VenueReading>, v: VenueRef) -> Option<VenueReading> {
    if exists|i: int| first_reading_at(rs, v, i) {
        Some(rs[choose|i: int| first_reading_at(rs, v, i)])
    } else {
        None
    }
}

/// The order key of venue `v`'s APR: zero for idle balances and for venues
/// the snapshot does not cover.
pub open spec fn apr_key_of(m: MarketReadings, v: VenueRef) -> u64 {
    if v.protocol == ProtocolId::Idle {
        ZERO_APR_KEY
    } else {
        match reading_of(m.venues@, v) {
            Some(r) => r.apr_key,
            None => ZERO_APR_KEY,
        }
    }
}

fn find_reading(rs: &Vec<VenueReading>, v: VenueRef) -> (r: Option<VenueReading>)
    ensures
        r == reading_of(rs@, v),
{
    let mut i: usize = 0;
    while i < rs.len()
        invariant
            i <= rs@.len(),
            forall|j: int| 0 <= j < i ==> rs@[j].venue != v,
        decreases rs@.len() - i,
    {
        if rs[i].venue == v {
            proof {
                assert(first_reading_at(rs@, v, i as int));
                let c = choose|c: int| first_reading_at(rs@, v, c);
                assert(c == i);
            }
            return Some(rs[i]);
        }
        i = i + 1;
    }
    None
}

/// The order key of venue `v`'s APR.
pub fn apr_key(m: &MarketReadings, v: VenueRef) -> (r: u64)
    ensures
        r == apr_key_of(*m, v),
{
    if v.protocol == ProtocolId::Idle {
        ZERO_APR_KEY
    } else {
        match find_reading(&m.venues, v) {
            Some(reading) => reading.apr_key,
            None => ZERO_APR_KEY,
        }
    }
}

/// `k` is the first idle venue of the whitelist.
pub open spec fn first_idle_at(wl: Seq<VenueRef>, k: int) -> bool {
    &&& 0 <= k < wl.len()
    &&& wl[k].protocol == ProtocolId::Idle
    &&& forall|j: int| 0 <= j < k ==> wl[j].protocol != ProtocolId::Idle
}

/// A drain target exists: the whitelist has an idle venue or a chain is whitelisted.
pub open spec fn idle_venue_defined(p: Policy) -> bool {
    (exists|k: int| 0 <= k < p.protocols.whitelist@.len() && p.protocols.whitelist@[k].protocol
        == ProtocolId::Idle) || p.chains.whitelist@.len() > 0
}

/// Where capital is drained to: the first idle venue of the whitelist, else
/// the idle balance on the first whitelisted chain.
pub open spec fn idle_venue(p: Policy) -> VenueRef {
    let wl = p.protocols.whitelist@;
    if exists|k: int| first_idle_at(wl, k) {
        wl[choose|k: int| first_idle_at(wl, k)]
    } else {
        VenueRef { chain: p.chains.whitelist@[0], protocol: ProtocolId::Idle }
    }
}

/// The venue that capital is drained to when the engine halts.
pub fn pick_idle(policy: &Policy) -> (r: VenueRef)
    requires
        idle_venue_defined(*policy),
    ensures
        r == idle_venue(*policy),
        r.protocol == ProtocolId::Idle,
        forall|k: int| first_idle_at(policy.protocols.whitelist@, k) ==> r == policy.protocols.whitelist@[k],
        (forall|k: int|
            0 <= k < policy.protocols.whitelist@.len() ==> #[trigger] policy.protocols.whitelist@[k].protocol
                != ProtocolId::Idle) ==> r == (VenueRef {
            chain: policy.chains.whitelist@[0],
            protocol: ProtocolId::Idle,
        }),
{
    let wl = &policy.protocols.whitelist;
    let mut i: usize = 0;
    while i < wl.len()
        invariant
            wl == &policy.protocols.whitelist,
            i <= wl@.len(),
            forall|j: int| 0 <= j < i ==> wl@[j].protocol != ProtocolId::Idle,
        decreases wl@.len() - i,
    {
        if wl[i].protocol == ProtocolId::Idle {
            proof {
                assert(first_idle_at(wl@, i as int));
                let c = choose|c: int| first_idle_at(wl@, c);
                assert(c == i);
                assert forall|k: int| first_idle_at(wl@, k) implies k == i by {
                    if k < i {
                        assert(wl@[k].protocol != ProtocolId::Idle);
                    }
                    if i < k {
                        assert(wl@[i as int].protocol != ProtocolId::Idle);
                    }
                }
            }
            return wl[i];
        }
        i = i + 1;
    }
    VenueRef { chain: policy.chains.whitelist[0], protocol: ProtocolId::Idle }
}

// ---------------------------------------------------------------------------
// Guards

/// The snapshot is older than the engine trusts.
pub open spec fn snapshot_stale(built_at: UnixNanos, now: UnixNanos) -> bool {
    now - built_at > SNAPSHOT_MAX_AGE_NANOS
}

pub open spec fn stale_decision() -> Decision {
    Decision::CircuitBreak { reason: BreakReason::SnapshotStale, drain_to: None }
}

/// Halts the engine when the snapshot is more than five minutes old.
pub fn check_snapshot_freshness(built_at: UnixNanos, now: UnixNanos) -> (r: Option<Decision>)
    requires
        instant_ok(built_at),
        instant_ok(now),
    ensures
        snapshot_stale(built_at, now) ==> r == Some(stale_decision()),
        !snapshot_stale(built_at, now) ==> r is None,
{
    let age = now - built_at;
    if age > SNAPSHOT_MAX_AGE_NANOS {
        return Some(Decision::CircuitBreak { reason: BreakReason::SnapshotStale, drain_to: None });
    }
    None
}

pub open spec fn depeg_decision(p: Policy) -> Decision {
    Decision::CircuitBreak { reason: BreakReason::UsdcDepeg, drain_to: Some(idle_venue(p)) }
}

/// Halts the engine and drains to an idle venue when USDC trades below the
/// policy's peg floor.
pub fn check_usdc_peg(policy: &Policy, market: &MarketReadings) -> (r: Option<Decision>)
    requires
        market.usdc_below_peg ==> idle_venue_defined(*policy),
    ensures
        market.usdc_below_peg ==> r == Some(depeg_decision(*policy)),
        !market.usdc_below_peg ==> r is None,
{
    if market.usdc_below_peg {
        return Some(
            Decision::CircuitBreak { reason: BreakReason::UsdcDepeg, drain_to: Some(pick_idle(policy)) },
        );
    }
    None
}

/// A non-idle holding with capital whose venue the snapshot does not cover
/// or whose venue trips a health threshold.
pub open spec fn holding_flagged(m: MarketReadings, h: Holding) -> bool {
    &&& amount_value(h.amount) != 0
    &&& h.venue.protocol != ProtocolId::Idle
    &&& match reading_of(m.venues@, h.venue) {
        None => true,
        Some(r) => r.utilization_exceeded || r.tvl_drop_exceeded,
    }
}

/// `k` is the first flagged holding.
pub open spec fn first_flagged_at(m: MarketReadings, hs: Seq<Holding>, k: int) -> bool {
    &&& 0 <= k < hs.len()
    &&& holding_flagged(m, hs[k])
    &&& forall|j: int| 0 <= j < k ==> !holding_flagged(m, hs[j])
}

/// The decision for a flagged holding: escalate a venue without data,
/// otherwise halt and drain, naming utilization before TVL drop.
pub open spec fn flagged_decision(p: Policy, m: MarketReadings, h: Holding) -> Decision {
    match reading_of(m.venues@, h.venue) {
        None => Decision::Escalate { reason: EscalateReason::NewListingNoData { venue: h.venue } },
        Some(r) => Decision::CircuitBreak {
            reason: BreakReason::VenueUnhealthy {
                venue: h.venue,
                signal: if r.utilization_exceeded {
                    HealthSignal::Utilization
                } else {
                    HealthSignal::TvlDrop
                },
            },
            drain_to: Some(idle_venue(p)),
        },
    }
}

/// The outcome of the health check of held venues.
pub open spec fn health_alarm(p: Policy, m: MarketReadings, pos: Position) -> Option<Decision> {
    let hs = pos.holdings@;
    if exists|k: int| first_flagged_at(m, hs, k) {
        Some(flagged_decision(p, m, hs[choose|k: int| first_flagged_at(m, hs, k)]))
    } else {
        None
    }
}

/// The health check would drain capital, so it needs a drain target.
pub open spec fn health_needs_idle(m: MarketReadings, pos: Position) -> bool {
    exists|k: int|
        first_flagged_at(m, pos.holdings@, k) && reading_of(m.venues@, pos.holdings@[k].venue) is Some
}

proof fn lemma_first_flagged_unique(m: MarketReadings, hs: Seq<Holding>, a: int, b: int)
    requires
        first_flagged_at(m, hs, a),
        first_flagged_at(m, hs, b),
    ensures
        a == b,
{
}

/// Checks every holding with capital outside an idle balance, in order, and
/// reacts to the first one whose venue has no data (escalate) or trips the
/// utilization or TVL-drop threshold (halt and drain).
pub fn check_held_venue_health(policy: &Policy, market: &MarketReadings, position: &Position) -> (r:
    Option<Decision>)
    requires
        position.wf(),
        health_needs_idle(*market, *position) ==> idle_venue_defined(*policy),
    ensures
        r == health_alarm(*policy, *market, *position),
{
    let hs = &position.holdings;
    let mut i: usize = 0;
    while i < hs.len()
        invariant
            hs == &position.holdings,
            i <= hs@.len(),
            health_needs_idle(*market, *position) ==> idle_venue_defined(*policy),
            forall|j: int| 0 <= j < i ==> !holding_flagged(*market, hs@[j]),
        decreases hs@.len() - i,
    {
        let h = hs[i];
        if is_positive(h.amount) && h.venue.protocol != ProtocolId::Idle {
            let reading = find_reading(&market.venues, h.venue);
            match reading {
                None => {
                    proof {
                        assert(first_flagged_at(*market, hs@, i as int));
                        let c = choose|c: int| first_flagged_at(*market, hs@, c);
                        lemma_first_flagged_unique(*market, hs@, c, i as int);
                    }
                    return Some(
                        Decision::Escalate {
                            reason: EscalateReason::NewListingNoData { venue: h.venue },
                        },
                    );
                },
                Some(state) => {
                    if state.utilization_exceeded || state.tvl_drop_exceeded {
                        proof {
                            assert(first_flagged_at(*market, hs@, i as int));
                            let c = choose|c: int| first_flagged_at(*market, hs@, c);
                            lemma_first_flagged_unique(*market, hs@, c, i as int);
                            assert(health_needs_idle(*market, *position));
                        }
                        let signal = if state.utilization_exceeded {
                            HealthSignal::Utilization
                        } else {
                            HealthSignal::TvlDrop
                        };
                        return Some(
                            Decision::CircuitBreak {
                                reason: BreakReason::VenueUnhealthy { venue: h.venue, signal },
                                drain_to: Some(pick_idle(policy)),
                            },
                        );
                    }
                },
            }
        }
        i = i + 1;
    }
    None
}


/// The engine's answer before any move is considered, in the order the
/// guards run: stale snapshot, USDC depeg, held venue health, gateway down,
/// daily quota.
pub open spec fn guard_decision(p: Policy, m: MarketReadings, pos: Position, now: UnixNanos) -> Option<
    Decision,
> {
    if snapshot_stale(m.built_at, now) {
        Some(stale_decision())
    } else if m.usdc_below_peg {
        Some(depeg_decision(p))
    } else if health_alarm(p, m, pos) is Some {
        health_alarm(p, m, pos)
    } else if m.gateway_health == GatewayHealth::Down {
        Some(Decision::Noop { reason: NoopReason::GatewayDown })
    } else if pos.actions_today >= p.caps.max_actions_per_day {
        Some(Decision::Noop { reason: NoopReason::DailyQuotaReached })
    } else {
        None
    }
}

/// The guards can name a drain target whenever one of them drains capital.
pub open spec fn guards_defined(p: Policy, m: MarketReadings, pos: Position, now: UnixNanos) -> bool {
    !snapshot_stale(m.built_at, now) ==> {
        &&& m.usdc_below_peg ==> idle_venue_defined(p)
        &&& (!m.usdc_below_peg && health_needs_idle(m, pos)) ==> idle_venue_defined(p)
    }
}

/// Runs the guards in order and returns the first decision one of them
/// makes; `None` means that a move may be considered.
pub fn evaluate_guards(policy: &Policy, market: &MarketReadings, position: &Position, now: UnixNanos) -> (r:
    Option<Decision>)
    requires
        position.wf(),
        instant_ok(market.built_at),
        instant_ok(now),
        guards_defined(*policy, *market, *position, now),
    ensures
        r == guard_decision(*policy, *market, *position, now),
{
    let fresh = check_snapshot_freshness(market.built_at, now);
    if fresh.is_some() {
        return fresh;
    }
    let peg = check_usdc_peg(policy, market);
    if peg.is_some() {
        return peg;
    }
    let health = check_held_venue_health(policy, market, position);
    if health.is_some() {
        return health;
    }
    if market.gateway_health == GatewayHealth::Down {
        return Some(Decision::Noop { reason: NoopReason::GatewayDown });
    }
    if position.actions_today >= policy.caps.max_actions_per_day {
        return Some(Decision::Noop { reason: NoopReason::DailyQuotaReached });
    }
    None
}

// ---------------------------------------------------------------------------
// Capital

/// Total capital of the holdings, added up as 256-bit numbers (modulo
/// `2^256`).
pub open spec fn holdings_total(hs: Seq<Holding>) -> nat
    decreases hs.len(),
{
    if hs.len() == 0 {
        0
    } else {
        (holdings_total(hs.drop_last()) + amount_value(hs.last().amount)) % u256_modulus()
    }
}

/// The total is a 256-bit number.
pub proof fn lemma_holdings_total_bound(hs: Seq<Holding>)
    ensures
        holdings_total(hs) < u256_modulus(),
{
}

/// Sums the capital held across all venues.
pub fn sum_holdings(position: &Position) -> (r: Amount)
    requires
        position.wf(),
    ensures
        amount_value(r) == holdings_total(position.holdings@),
{
    let hs = &position.holdings;
    let mut total: Amount = amount_u64(0);
    let mut i: usize = 0;
    while i < hs.len()
        invariant
            i <= hs@.len(),
            amount_value(total) == holdings_total(hs@.subrange(0, i as int)),
        decreases hs@.len() - i,
    {
        proof {
            assert(hs@.subrange(0, i + 1).drop_last() =~= hs@.subrange(0, i as int));
        }
        total = u256_add(total, hs[i].amount);
        i = i + 1;
    }
    assert(hs@.subrange(0, hs@.len() as int) =~= hs@);
    total
}

// ---------------------------------------------------------------------------
// Ranking

/// A whitelisted venue with the order key of its APR.
#[derive(Clone, Copy, Debug, PartialEq, Eq, Structural)]
pub struct Candidate {
    pub venue: VenueRef,
    pub apr_key: u64,
}

/// The whitelist, each venue paired with its APR key.
pub open spec fn candidates_of(p: Policy, m: MarketReadings) -> Seq<Candidate> {
    p.protocols.whitelist@.map_values(|v: VenueRef| Candidate { venue: v, apr_key: apr_key_of(m, v) })
}

/// Some entry of `perm` is `k`.
pub open spec fn perm_hits(perm: Seq<int>, k: int) -> bool {
    exists|i: int| 0 <= i < perm.len() && perm[i] == k
}

/// `out` is `input` sorted by descending key, equal keys kept in input
/// order; `perm[i]` is the input index of `out[i]`.
pub open spec fn stable_desc(input: Seq<Candidate>, out: Seq<Candidate>, perm: Seq<int>) -> bool {
    &&& perm.len() == input.len()
    &&& out.len() == input.len()
    &&& forall|i: int| 0 <= i < perm.len() ==> 0 <= #[trigger] perm[i] < input.len()
    &&& forall|i: int, j: int| 0 <= i < perm.len() && 0 <= j < perm.len() && i != j ==> perm[i] != perm[j]
    &&& forall|k: int| 0 <= k < input.len() ==> #[trigger] perm_hits(perm, k)
    &&& forall|i: int| 0 <= i < out.len() ==> #[trigger] out[i] == input[perm[i]]
    &&& forall|i: int, j: int|
        0 <= i < j < out.len() ==> out[i].apr_key > out[j].apr_key || (out[i].apr_key == out[j].apr_key
            && perm[i] < perm[j])
}

/// `k` holds the first of the highest keys.
pub open spec fn first_max_at(c: Seq<Candidate>, k: int) -> bool {
    &&& 0 <= k < c.len()
    &&& forall|j: int| 0 <= j < c.len() ==> c[j].apr_key <= c[k].apr_key
    &&& forall|j: int| 0 <= j < k ==> c[j].apr_key < c[k].apr_key
}

/// The best candidate: the first whitelisted venue with the highest APR.
pub open spec fn best_candidate(p: Policy, m: MarketReadings) -> Candidate {
    let c = candidates_of(p, m);
    c[choose|k: int| first_max_at(c, k)]
}

pub proof fn lemma_first_max_unique(c: Seq<Candidate>, a: int, b: int)
    requires
        first_max_at(c, a),
        first_max_at(c, b),
    ensures
        a == b,
{
}

/// The head of a stable descending sort is the first of the highest keys.
pub proof fn lemma_stable_desc_head(input: Seq<Candidate>, out: Seq<Candidate>, perm: Seq<int>)
    requires
        stable_desc(input, out, perm),
        input.len() > 0,
    ensures
        first_max_at(input, perm[0]),
        out[0] == input[perm[0]],
{
    assert(out[0] == input[perm[0]]);
    assert forall|j: int| 0 <= j < input.len() implies #[trigger] input[j].apr_key <= input[perm[0]].apr_key by {
        assert(perm_hits(perm, j));
        let i = choose|i: int| 0 <= i < perm.len() && perm[i] == j;
        if i != 0 {
            assert(out[i] == input[perm[i]]);
        }
    }
    assert forall|j: int| 0 <= j < perm[0] implies #[trigger] input[j].apr_key < input[perm[0]].apr_key by {
        assert(perm_hits(perm, j));
        let i = choose|i: int| 0 <= i < perm.len() && perm[i] == j;
        assert(out[i] == input[perm[i]]);
        assert(i != 0);
    }
}

/// Inserting a new last input element right after every output element
/// whose key is at least its own keeps the output a stable descending sort.
proof fn lemma_insert_keeps_stable(
    sub: Seq<Candidate>,
    old_out: Seq<Candidate>,
    old_perm: Seq<int>,
    pos: int,
    x: Candidate,
)
    requires
        stable_desc(sub, old_out, old_perm),
        0 <= pos <= old_out.len(),
        forall|j: int| 0 <= j < pos ==> old_out[j].apr_key >= x.apr_key,
        forall|j: int| pos <= j < old_out.len() ==> old_out[j].apr_key < x.apr_key,
    ensures
        stable_desc(sub.push(x), old_out.insert(pos, x), old_perm.insert(pos, sub.len() as int)),
{
    let i = sub.len() as int;
    let sub1 = sub.push(x);
    let out = old_out.insert(pos, x);
    let perm = old_perm.insert(pos, i);
    assert forall|k: int| 0 <= k < sub1.len() implies #[trigger] perm_hits(perm, k) by {
        if k == i {
            assert(perm[pos] == k);
        } else {
            assert(perm_hits(old_perm, k));
            let q = choose|q: int| 0 <= q < old_perm.len() && old_perm[q] == k;
            if q < pos {
                assert(perm[q] == k);
            } else {
                assert(perm[q + 1] == k);
            }
        }
    }
    assert forall|a: int| 0 <= a < out.len() implies #[trigger] out[a] == sub1[perm[a]] by {
        if a < pos {
            assert(out[a] == old_out[a]);
            assert(old_out[a] == sub[old_perm[a]]);
        } else if a > pos {
            assert(out[a] == old_out[a - 1]);
            assert(old_out[a - 1] == sub[old_perm[a - 1]]);
        }
    }
    assert forall|a: int, b: int| 0 <= a < b < out.len() implies out[a].apr_key > out[b].apr_key
        || (out[a].apr_key == out[b].apr_key && perm[a] < perm[b]) by {
        if a < pos && b < pos {
        } else if a < pos && b == pos {
            assert(0 <= old_perm[a] < i);
        } else if a < pos && b > pos {
            assert(old_out[a] == out[a]);
            assert(old_out[b - 1] == out[b]);
        } else if a == pos {
            assert(out[b] == old_out[b - 1]);
        } else {
            assert(out[a] == old_out[a - 1]);
            assert(out[b] == old_out[b - 1]);
        }
    }
    assert forall|a: int| 0 <= a < perm.len() implies 0 <= #[trigger] perm[a] < sub1.len() by {
        if a < pos {
        } else if a > pos {
            assert(perm[a] == old_perm[a - 1]);
        }
    }
    assert forall|a: int, b: int|
        0 <= a < perm.len() && 0 <= b < perm.len() && a != b implies perm[a] != perm[b] by {
        if a != pos && b != pos {
            let a0 = if a < pos { a } else { a - 1 };
            let b0 = if b < pos { b } else { b - 1 };
            assert(perm[a] == old_perm[a0]);
            assert(perm[b] == old_perm[b0]);
        } else if a == pos {
            let b0 = if b < pos { b } else { b - 1 };
            assert(perm[b] == old_perm[b0]);
        } else {
            let a0 = if a < pos { a } else { a - 1 };
            assert(perm[a] == old_perm[a0]);
        }
    }
}

/// The whitelist, ranked by APR from highest to lowest; venues with equal
/// APRs keep their whitelist order.
pub fn rank_candidates(policy: &Policy, market: &MarketReadings) -> (r: Vec<Candidate>)
    ensures
        exists|perm: Seq<int>| stable_desc(candidates_of(*policy, *market), r@, perm),
{
    let wl = &policy.protocols.whitelist;
    let ghost input = candidates_of(*policy, *market);
    let mut out: Vec<Candidate> = Vec::new();
    let ghost mut perm: Seq<int> = Seq::empty();
    let mut i: usize = 0;
    while i < wl.len()
        invariant
            wl == &policy.protocols.whitelist,
            input == candidates_of(*policy, *market),
            i <= wl@.len(),
            stable_desc(input.subrange(0, i as int), out@, perm),
        decreases wl@.len() - i,
    {
        let v = wl[i];
        let x = Candidate { venue: v, apr_key: apr_key(market, v) };
        assert(x == input[i as int]);
        let mut pos: usize = 0;
        while pos < out.len() && out[pos].apr_key >= x.apr_key
            invariant
                pos <= out@.len(),
                forall|j: int| 0 <= j < pos ==> out@[j].apr_key >= x.apr_key,
            decreases out@.len() - pos,
        {
            pos = pos + 1;
        }
        let ghost old_out = out@;
        let ghost old_perm = perm;
        proof {
            assert forall|j: int| pos <= j < old_out.len() implies old_out[j].apr_key < x.apr_key by {
                if j > pos {
                    assert(old_out[pos as int].apr_key >= old_out[j].apr_key);
                }
            }
            assert(input.subrange(0, i + 1) =~= input.subrange(0, i as int).push(x));
            lemma_insert_keeps_stable(input.subrange(0, i as int), old_out, old_perm, pos as int, x);
        }
        out.insert(pos, x);
        proof {
            perm = old_perm.insert(pos as int, i as int);
        }
        i = i + 1;
    }
    assert(input.subrange(0, wl@.len() as int) =~= input);
    out
}


/// The best whitelisted venue: the first one with the highest APR.
pub fn best_candidate_of(policy: &Policy, market: &MarketReadings) -> (r: Candidate)
    requires
        policy.protocols.whitelist@.len() > 0,
    ensures
        r == best_candidate(*policy, *market),
{
    let wl = &policy.protocols.whitelist;
    let ghost c = candidates_of(*policy, *market);
    let mut best = Candidate { venue: wl[0], apr_key: apr_key(market, wl[0]) };
    let ghost mut best_at: int = 0;
    let mut i: usize = 1;
    while i < wl.len()
        invariant
            wl == &policy.protocols.whitelist,
            c == candidates_of(*policy, *market),
            1 <= i <= wl@.len(),
            0 <= best_at < i,
            best == c[best_at],
            forall|j: int| 0 <= j < i ==> c[j].apr_key <= best.apr_key,
            forall|j: int| 0 <= j < best_at ==> c[j].apr_key < best.apr_key,
        decreases wl@.len() - i,
    {
        let k = apr_key(market, wl[i]);
        if k > best.apr_key {
            best = Candidate { venue: wl[i], apr_key: k };
            proof {
                best_at = i as int;
            }
        }
        i = i + 1;
    }
    proof {
        assert(first_max_at(c, best_at));
        let b = choose|k: int| first_max_at(c, k);
        lemma_first_max_unique(c, b, best_at);
    }
    best
}

/// The head of the ranking is the best candidate.
pub proof fn law_ranking_head_is_best(p: Policy, m: MarketReadings, ranked: Seq<Candidate>, perm: Seq<int>)
    requires
        stable_desc(candidates_of(p, m), ranked, perm),
        p.protocols.whitelist@.len() > 0,
    ensures
        ranked[0] == best_candidate(p, m),
{
    let c = candidates_of(p, m);
    lemma_stable_desc_head(c, ranked, perm);
    let b = choose|k: int| first_max_at(c, k);
    lemma_first_max_unique(c, b, perm[0]);
}

/// A held venue with its APR key and the capital in it.
#[derive(Clone, Copy, Debug, PartialEq, Eq)]
pub struct HeldCandidate {
    pub venue: VenueRef,
    pub apr_key: u64,
    pub amount: Amount,
}

/// A holding that capital may be moved out of: it holds capital and its
/// venue is whitelisted or an idle balance.
pub open spec fn movable(p: Policy, h: Holding) -> bool {
    amount_value(h.amount) != 0 && (p.protocols.whitelist@.contains(h.venue) || h.venue.protocol == ProtocolId::Idle)
}

/// `k` is the first movable holding with the lowest APR.
pub open spec fn first_worst_at(p: Policy, m: MarketReadings, hs: Seq<Holding>, k: int) -> bool {
    &&& 0 <= k < hs.len()
    &&& movable(p, hs[k])
    &&& forall|j: int|
        0 <= j < hs.len() && movable(p, hs[j]) ==> apr_key_of(m, hs[k].venue) <= apr_key_of(m, hs[j].venue)
    &&& forall|j: int|
        0 <= j < k && movable(p, hs[j]) ==> apr_key_of(m, hs[j].venue) > apr_key_of(m, hs[k].venue)
}

/// The worst holding: the first movable holding with the lowest APR.
pub open spec fn worst_of(p: Policy, m: MarketReadings, pos: Position) -> Option<HeldCandidate> {
    let hs = pos.holdings@;
    if exists|k: int| first_worst_at(p, m, hs, k) {
        let h = hs[choose|k: int| first_worst_at(p, m, hs, k)];
        Some(HeldCandidate { venue: h.venue, apr_key: apr_key_of(m, h.venue), amount: h.amount })
    } else {
        None
    }
}

fn venue_listed(wl: &Vec<VenueRef>, v: VenueRef) -> (r: bool)
    ensures
        r == wl@.contains(v),
{
    let mut i: usize = 0;
    while i < wl.len()
        invariant
            i <= wl@.len(),
            forall|j: int| 0 <= j < i ==> wl@[j] != v,
        decreases wl@.len() - i,
    {
        if wl[i] == v {
            return true;
        }
        i = i + 1;
    }
    false
}

/// The holding to move capital out of: among holdings with capital in a
/// whitelisted venue or an idle balance, the first with the lowest APR.
pub fn worst_holding(policy: &Policy, market: &MarketReadings, position: &Position) -> (r: Option<
    HeldCandidate,
>)
    requires
        position.wf(),
    ensures
        r == worst_of(*policy, *market, *position),
{
    let hs = &position.holdings;
    let mut worst: Option<HeldCandidate> = None;
    let ghost mut worst_at: int = -1;
    let mut i: usize = 0;
    while i < hs.len()
        invariant
            hs == &position.holdings,
            i <= hs@.len(),
            worst is None ==> forall|j: int| 0 <= j < i ==> !movable(*policy, hs@[j]),
            worst is Some ==> {
                &&& 0 <= worst_at < i
                &&& movable(*policy, hs@[worst_at])
                &&& worst->0 == HeldCandidate {
                    venue: hs@[worst_at].venue,
                    apr_key: apr_key_of(*market, hs@[worst_at].venue),
                    amount: hs@[worst_at].amount,
                }
                &&& forall|j: int|
                    0 <= j < i && movable(*policy, hs@[j]) ==> apr_key_of(*market, hs@[worst_at].venue)
                        <= apr_key_of(*market, hs@[j].venue)
                &&& forall|j: int|
                    0 <= j < worst_at && movable(*policy, hs@[j]) ==> apr_key_of(*market, hs@[j].venue)
                        > apr_key_of(*market, hs@[worst_at].venue)
            },
        decreases hs@.len() - i,
    {
        let h = hs[i];
        if is_positive(h.amount) && (venue_listed(&policy.protocols.whitelist, h.venue) || h.venue.protocol
            == ProtocolId::Idle) {
            let k = apr_key(market, h.venue);
            let replace = match worst {
                None => true,
                Some(w) => k < w.apr_key,
            };
            if replace {
                worst = Some(HeldCandidate { venue: h.venue, apr_key: k, amount: h.amount });
                proof {
                    worst_at = i as int;
                }
            }
        }
        i = i + 1;
    }
    proof {
        if worst is Some {
            assert(first_worst_at(*policy, *market, hs@, worst_at));
            let c = choose|k: int| first_worst_at(*policy, *market, hs@, k);
            assert(c == worst_at) by {
                if c < worst_at {
                    assert(movable(*policy, hs@[c]));
                } else if c > worst_at {
                    assert(movable(*policy, hs@[worst_at]));
                }
            }
        } else {
            assert(!exists|k: int| first_worst_at(*policy, *market, hs@, k));
        }
    }
    worst
}

/// Two venues to compare before sizing a move: the best whitelisted venue,
/// the worst held one, and the capital in all venues.
#[derive(Clone, Copy, Debug)]
pub struct Comparison {
    pub best: Candidate,
    pub worst: HeldCandidate,
    pub total: Amount,
}

/// The rebalancing proposal before its APR gap is priced.
#[derive(Debug)]
pub enum Proposal {
    Decided(Decision),
    Compare(Comparison),
}

/// What the proposal step decides: no capital at all, nothing movable, or
/// the worst holding already in the best venue; otherwise compare the two.
pub open spec fn proposal_of(p: Policy, m: MarketReadings, pos: Position) -> Proposal {
    let total = holdings_total(pos.holdings@);
    if total == 0 {
        Proposal::Decided(Decision::Noop { reason: NoopReason::NoCapital })
    } else {
        let best = best_candidate(p, m);
        match worst_of(p, m, pos) {
            None => Proposal::Decided(Decision::Noop { reason: NoopReason::NoCapital }),
            Some(w) => if w.venue == best.venue {
                Proposal::Decided(Decision::Noop { reason: NoopReason::AlreadyAtBestVenue })
            } else {
                Proposal::Compare(Comparison { best, worst: w, total: amount_of(total) })
            },
        }
    }
}

/// Picks the two venues a move would run between, or decides that no move
/// is possible.
pub fn compare_venues(policy: &Policy, market: &MarketReadings, position: &Position) -> (r: Proposal)
    requires
        position.wf(),
        holdings_total(position.holdings@) != 0 ==> policy.protocols.whitelist@.len() > 0,
    ensures
        r == proposal_of(*policy, *market, *position),
{
    let total = sum_holdings(position);
    if !is_positive(total) {
        return Proposal::Decided(Decision::Noop { reason: NoopReason::NoCapital });
    }
    proof {
        lemma_amount_of(total);
    }
    let best = best_candidate_of(policy, market);
    match worst_holding(policy, market, position) {
        None => Proposal::Decided(Decision::Noop { reason: NoopReason::NoCapital }),
        Some(w) => {
            if w.venue == best.venue {
                Proposal::Decided(Decision::Noop { reason: NoopReason::AlreadyAtBestVenue })
            } else {
                Proposal::Compare(Comparison { best, worst: w, total })
            }
        },
    }
}


// ---------------------------------------------------------------------------
// Sizing

/// `pct` percent of `total`, rounded down, the product taken modulo
/// `2^256` as 256-bit numbers multiply.
pub open spec fn pct_of(total: int, pct: int) -> int {
    (total * pct) % (u256_modulus() as int) / 100
}

proof fn lemma_pct_split(t: int, p: int)
    requires
        t >= 0,
        p >= 0,
    ensures
        (t * p) / 100 == (t / 100) * p + ((t % 100) * p) / 100,
        (t % 100) * p >= 0,
{
    let q = t / 100;
    let r = t % 100;
    assert(t == 100 * q + r && 0 <= r < 100) by (nonlinear_arith)
        requires
            q == t / 100,
            r == t % 100,
            t >= 0,
    ;
    assert(t * p == 100 * (q * p) + r * p) by (nonlinear_arith)
        requires
            t == 100 * q + r,
    ;
    assert(r * p >= 0) by (nonlinear_arith)
        requires
            r >= 0,
            p >= 0,
    ;
    assert((100 * (q * p) + r * p) / 100 == q * p + (r * p) / 100) by (nonlinear_arith)
        requires
            r * p >= 0,
    ;
}

/// `pct` percent of `total`, as 256-bit numbers compute it.
pub fn mul_pct(total: Amount, pct: u8) -> (r: Amount)
    ensures
        amount_value(r) == pct_of(amount_value(total) as int, pct as int),
{
    let hundred = amount_u64(100);
    u256_div(u256_mul(total, amount_u64(pct as u64)), hundred)
}

/// `k` is the first holding in venue `v`.
pub open spec fn first_holding_at(hs: Seq<Holding>, v: VenueRef, k: int) -> bool {
    &&& 0 <= k < hs.len()
    &&& hs[k].venue == v
    &&& forall|j: int| 0 <= j < k ==> hs[j].venue != v
}

/// The capital held in venue `v` (zero when none is).
pub open spec fn held_amount(pos: Position, v: VenueRef) -> nat {
    let hs = pos.holdings@;
    if exists|k: int| first_holding_at(hs, v, k) {
        amount_value(hs[choose|k: int| first_holding_at(hs, v, k)].amount)
    } else {
        0
    }
}

/// `k` is the first record of a move into venue `v`.
pub open spec fn first_action_at(acts: Seq<LastAction>, v: VenueRef, k: int) -> bool {
    &&& 0 <= k < acts.len()
    &&& acts[k].venue == v
    &&& forall|j: int| 0 <= j < k ==> acts[j].venue != v
}

/// When capital last moved into venue `v`.
pub open spec fn last_action_of(pos: Position, v: VenueRef) -> Option<UnixNanos> {
    let acts = pos.last_action_at@;
    if exists|k: int| first_action_at(acts, v, k) {
        Some(acts[choose|k: int| first_action_at(acts, v, k)].at)
    } else {
        None
    }
}

/// Capital moved into `v` less than `min_idle_minutes` before `now`.
pub open spec fn in_cooldown(pos: Position, v: VenueRef, now: UnixNanos, min_idle_minutes: u32) -> bool {
    match last_action_of(pos, v) {
        Some(t) => now - t < min_idle_minutes * NANOS_PER_MINUTE,
        None => false,
    }
}

/// Every recorded move lies inside the range of instants the engine handles.
pub open spec fn last_actions_ok(pos: Position) -> bool {
    forall|i: int| 0 <= i < pos.last_action_at@.len() ==> instant_ok(#[trigger] pos.last_action_at@[i].at)
}

fn held_amount_of(position: &Position, v: VenueRef) -> (r: Amount)
    ensures
        amount_value(r) == held_amount(*position, v),
{
    let hs = &position.holdings;
    let mut i: usize = 0;
    while i < hs.len()
        invariant
            hs == &position.holdings,
            i <= hs@.len(),
            forall|j: int| 0 <= j < i ==> hs@[j].venue != v,
        decreases hs@.len() - i,
    {
        if hs[i].venue == v {
            proof {
                assert(first_holding_at(hs@, v, i as int));
                let c = choose|c: int| first_holding_at(hs@, v, c);
                assert(c == i);
            }
            return hs[i].amount;
        }
        i = i + 1;
    }
    amount_u64(0)
}

fn last_action_time(position: &Position, v: VenueRef) -> (r: Option<UnixNanos>)
    ensures
        r == last_action_of(*position, v),
        r is Some ==> exists|k: int|
            0 <= k < position.last_action_at@.len() && position.last_action_at@[k].at == r->0,
{
    let acts = &position.last_action_at;
    let mut i: usize = 0;
    while i < acts.len()
        invariant
            acts == &position.last_action_at,
            i <= acts@.len(),
            forall|j: int| 0 <= j < i ==> acts@[j].venue != v,
        decreases acts@.len() - i,
    {
        if acts[i].venue == v {
            proof {
                assert(first_action_at(acts@, v, i as int));
                let c = choose|c: int| first_action_at(acts@, v, c);
                assert(c == i);
            }
            return Some(acts[i].at);
        }
        i = i + 1;
    }
    None
}

/// The outcome of sizing a move.
#[derive(Debug)]
pub enum Sizing {
    Decided(Decision),
    Move(Action),
}

pub open spec fn min_int(a: int, b: int) -> int {
    if a <= b {
        a
    } else {
        b
    }
}

/// The size of the move, in the order the checks run: the APR gap must
/// reach the policy's threshold, the destination must be out of cooldown,
/// and the move is the smallest of the worst holding, the per-move cap and
/// the room left under the destination's cap; no room means no move.
pub open spec fn sizing_of(p: Policy, pos: Position, c: Comparison, delta_bps: u32, now: UnixNanos) -> Sizing {
    if delta_bps < p.triggers.apr_delta_bps {
        Sizing::Decided(Decision::Noop { reason: NoopReason::AprDeltaBelowThreshold })
    } else if in_cooldown(pos, c.best.venue, now, p.triggers.min_idle_minutes) {
        Sizing::Decided(Decision::Noop { reason: NoopReason::DestinationInCooldown })
    } else {
        let max_move = pct_of(amount_value(c.total) as int, p.caps.max_move_pct_per_action as int);
        let cap = pct_of(amount_value(c.total) as int, p.protocols.per_protocol_cap_pct as int);
        let current = held_amount(pos, c.best.venue) as int;
        let room = if cap > current {
            cap - current
        } else {
            0
        };
        let amount = min_int(min_int(amount_value(c.worst.amount) as int, max_move), room);
        if room == 0 || amount == 0 {
            Sizing::Decided(Decision::Noop { reason: NoopReason::BestVenueAtCap })
        } else {
            Sizing::Move(Action { from: c.worst.venue, to: c.best.venue, amount: amount_of(amount as nat) })
        }
    }
}

/// Sizes the move from the worst holding to the best venue, given the APR
/// gap between them in basis points (`delta_bps`, the gap times 10 000,
/// rounded toward zero and floored at 0).
pub fn size_move(policy: &Policy, position: &Position, c: &Comparison, delta_bps: u32, now: UnixNanos) -> (r:
    Sizing)
    requires
        position.wf(),
        instant_ok(now),
        last_actions_ok(*position),
    ensures
        r == sizing_of(*policy, *position, *c, delta_bps, now),
{
    if delta_bps < policy.triggers.apr_delta_bps {
        return Sizing::Decided(Decision::Noop { reason: NoopReason::AprDeltaBelowThreshold });
    }
    match last_action_time(position, c.best.venue) {
        Some(last) => {
            let elapsed = now - last;
            let window: i128 = policy.triggers.min_idle_minutes as i128 * NANOS_PER_MINUTE;
            if elapsed < window {
                return Sizing::Decided(Decision::Noop { reason: NoopReason::DestinationInCooldown });
            }
        },
        None => {},
    }
    let max_move = mul_pct(c.total, policy.caps.max_move_pct_per_action);
    let best_current = held_amount_of(position, c.best.venue);
    let best_cap = mul_pct(c.total, policy.protocols.per_protocol_cap_pct);
    let best_room = u256_saturating_sub(best_cap, best_current);
    if !is_positive(best_room) {
        return Sizing::Decided(Decision::Noop { reason: NoopReason::BestVenueAtCap });
    }
    let mut move_amount: Amount = c.worst.amount;
    if !u256_ge(max_move, move_amount) {
        move_amount = max_move;
    }
    if !u256_ge(best_room, move_amount) {
        move_amount = best_room;
    }
    if !is_positive(move_amount) {
        return Sizing::Decided(Decision::Noop { reason: NoopReason::BestVenueAtCap });
    }
    proof {
        lemma_amount_of(move_amount);
    }
    Sizing::Move(Action { from: c.worst.venue, to: c.best.venue, amount: move_amount })
}

/// Settles a sized move once it is priced: `gas_exceeds_cap` is whether the
/// estimated cost (user-operation gas on both chains, plus the bridge fee
/// when the chains differ) exceeds the policy's gas cap; `ev_below_threshold`
/// is whether the policy asks for a positive minimum net profit and the
/// expected profit over the holding period, less the cost, falls short of it.
pub fn settle(m: Action, gas_exceeds_cap: bool, ev_below_threshold: bool) -> (r: Decision)
    ensures
        gas_exceeds_cap ==> r == (Decision::Noop { reason: NoopReason::GasExceedsCap }),
        (!gas_exceeds_cap && ev_below_threshold) ==> r == (Decision::Noop {
            reason: NoopReason::EvBelowThreshold,
        }),
        (!gas_exceeds_cap && !ev_below_threshold) ==> (r matches Decision::Act { plan }
            && plan.actions@ == seq![m]),
{
    if gas_exceeds_cap {
        return Decision::Noop { reason: NoopReason::GasExceedsCap };
    }
    if ev_below_threshold {
        return Decision::Noop { reason: NoopReason::EvBelowThreshold };
    }
    let mut actions: Vec<Action> = Vec::new();
    actions.push(m);
    Decision::Act { plan: ActionPlan { actions } }
}

// ---------------------------------------------------------------------------
// Laws

/// A snapshot more than five minutes old halts the engine, whatever the
/// policy, the market and the position, and drains nothing.
pub proof fn law_stale_snapshot_halts(p: Policy, m: MarketReadings, pos: Position, now: UnixNanos)
    requires
        snapshot_stale(m.built_at, now),
    ensures
        guard_decision(p, m, pos, now) == Some(
            Decision::CircuitBreak { reason: BreakReason::SnapshotStale, drain_to: None },
        ),
{
}

/// The drain target is always an idle balance.
pub proof fn law_drain_target_is_idle(p: Policy)
    ensures
        idle_venue(p).protocol == ProtocolId::Idle,
{
    let wl = p.protocols.whitelist@;
    if exists|k: int| first_idle_at(wl, k) {
        let k = choose|k: int| first_idle_at(wl, k);
        assert(first_idle_at(wl, k));
    }
}

/// Every halt that drains capital drains it to an idle balance; a venue
/// that lacks data is escalated, never drained.
pub proof fn law_guards_drain_to_idle(p: Policy, m: MarketReadings, pos: Position, now: UnixNanos)
    ensures
        guard_decision(p, m, pos, now) matches Some(Decision::CircuitBreak { drain_to: Some(v), .. })
            ==> v == idle_venue(p) && v.protocol == ProtocolId::Idle,
{
    law_drain_target_is_idle(p);
}

/// No move is proposed between a venue and itself, nor without capital.
pub proof fn law_compare_distinct_venues(p: Policy, m: MarketReadings, pos: Position)
    ensures
        proposal_of(p, m, pos) matches Proposal::Compare(c) ==> c.worst.venue != c.best.venue
            && amount_value(c.total) == holdings_total(pos.holdings@) && holdings_total(pos.holdings@) > 0,
        holdings_total(pos.holdings@) == 0 ==> proposal_of(p, m, pos) == Proposal::Decided(
            Decision::Noop { reason: NoopReason::NoCapital },
        ),
{
    lemma_holdings_total_bound(pos.holdings@);
    lemma_amount_of_value(holdings_total(pos.holdings@));
}

/// A sized move runs from the worst holding to the best venue, moves
/// something, and never more than the worst holding, the policy's per-move
/// share of the capital, or the room left under the destination's cap; it
/// only happens when the APR gap reaches the threshold and the destination
/// is out of cooldown.
pub proof fn law_move_within_limits(
    p: Policy,
    pos: Position,
    c: Comparison,
    delta_bps: u32,
    now: UnixNanos,
)
    ensures
        sizing_of(p, pos, c, delta_bps, now) matches Sizing::Move(a) ==> {
            &&& a.from == c.worst.venue
            &&& a.to == c.best.venue
            &&& 0 < amount_value(a.amount) <= amount_value(c.worst.amount)
            &&& amount_value(a.amount) <= pct_of(amount_value(c.total) as int, p.caps.max_move_pct_per_action as int)
            &&& held_amount(pos, c.best.venue) + amount_value(a.amount) <= pct_of(
                amount_value(c.total) as int,
                p.protocols.per_protocol_cap_pct as int,
            )
            &&& delta_bps >= p.triggers.apr_delta_bps
            &&& !in_cooldown(pos, c.best.venue, now, p.triggers.min_idle_minutes)
        },
        delta_bps < p.triggers.apr_delta_bps ==> sizing_of(p, pos, c, delta_bps, now) == Sizing::Decided(
            Decision::Noop { reason: NoopReason::AprDeltaBelowThreshold },
        ),
{
    let mm = pct_of(amount_value(c.total) as int, p.caps.max_move_pct_per_action as int);
    let cap = pct_of(amount_value(c.total) as int, p.protocols.per_protocol_cap_pct as int);
    let cur = held_amount(pos, c.best.venue) as int;
    let room = if cap > cur {
        cap - cur
    } else {
        0
    };
    let amount = min_int(min_int(amount_value(c.worst.amount) as int, mm), room);
    if amount > 0 {
        crate::outside::lemma_u256_value_bound(c.worst.amount@);
        lemma_amount_of_value(amount as nat);
    }
}


/// How a sized move settles once priced: `d` is the decision `settle`
/// gives for it.
pub open spec fn settles_to(a: Action, gas_exceeds_cap: bool, ev_below_threshold: bool, d: Decision) -> bool {
    if gas_exceeds_cap {
        d == Decision::Noop { reason: NoopReason::GasExceedsCap }
    } else if ev_below_threshold {
        d == Decision::Noop { reason: NoopReason::EvBelowThreshold }
    } else {
        d matches Decision::Act { plan } && plan.actions@ == seq![a]
    }
}

/// `d` is what the evaluator's stages decide, in order: the guards, the
/// proposal, the sizing of the move for the APR gap `delta_bps`, and its
/// settling for the priced verdicts `gas_exceeds_cap` and
/// `ev_below_threshold`.
pub open spec fn evaluation_gives(
    p: Policy,
    m: MarketReadings,
    pos: Position,
    now: UnixNanos,
    delta_bps: u32,
    gas_exceeds_cap: bool,
    ev_below_threshold: bool,
    d: Decision,
) -> bool {
    match guard_decision(p, m, pos, now) {
        Some(g) => d == g,
        None => match proposal_of(p, m, pos) {
            Proposal::Decided(x) => d == x,
            Proposal::Compare(c) => match sizing_of(p, pos, c, delta_bps, now) {
                Sizing::Decided(x) => d == x,
                Sizing::Move(a) => settles_to(a, gas_exceeds_cap, ev_below_threshold, d),
            },
        },
    }
}

proof fn lemma_first_max_exists(c: Seq<Candidate>)
    requires
        c.len() > 0,
    ensures
        exists|k: int| first_max_at(c, k),
    decreases c.len(),
{
    if c.len() == 1 {
        assert(first_max_at(c, 0));
    } else {
        let d = c.drop_last();
        lemma_first_max_exists(d);
        let k = choose|k: int| first_max_at(d, k);
        let n = c.len() - 1;
        if c[n].apr_key > d[k].apr_key {
            assert forall|j: int| 0 <= j < c.len() implies c[j].apr_key <= c[n].apr_key by {
                if j < n {
                    assert(c[j] == d[j]);
                }
            }
            assert forall|j: int| 0 <= j < n implies c[j].apr_key < c[n].apr_key by {
                assert(c[j] == d[j]);
            }
            assert(first_max_at(c, n));
        } else {
            assert forall|j: int| 0 <= j < c.len() implies c[j].apr_key <= c[k].apr_key by {
                if j < n {
                    assert(c[j] == d[j]);
                }
            }
            assert forall|j: int| 0 <= j < k implies c[j].apr_key < c[k].apr_key by {
                assert(c[j] == d[j]);
            }
            assert(first_max_at(c, k));
        }
    }
}

/// The best candidate is a whitelisted venue.
proof fn lemma_best_is_whitelisted(p: Policy, m: MarketReadings)
    requires
        p.protocols.whitelist@.len() > 0,
    ensures
        p.protocols.whitelist@.contains(best_candidate(p, m).venue),
{
    let c = candidates_of(p, m);
    lemma_first_max_exists(c);
    let k = choose|k: int| first_max_at(c, k);
    assert(c[k].venue == p.protocols.whitelist@[k]);
}

/// In a well-formed position, the worst holding's capital is all that its
/// venue holds.
proof fn lemma_worst_is_held_amount(p: Policy, m: MarketReadings, pos: Position)
    requires
        pos.wf(),
        worst_of(p, m, pos) is Some,
    ensures
        amount_value(worst_of(p, m, pos)->0.amount) == held_amount(pos, worst_of(p, m, pos)->0.venue),
{
    let hs = pos.holdings@;
    let k = choose|k: int| first_worst_at(p, m, hs, k);
    let v = hs[k].venue;
    assert forall|j: int| 0 <= j < k implies hs[j].venue != v by {
        assert(hs[j].venue != hs[k].venue);
    }
    assert(first_holding_at(hs, v, k));
    let k2 = choose|k2: int| first_holding_at(hs, v, k2);
    if k2 != k {
        if k2 < k {
            assert(hs[k2].venue != v);
        } else {
            assert(hs[k].venue != v);
        }
    }
}

/// What the evaluator decides, whatever the priced verdicts: a stale
/// snapshot halts it and drains nothing; otherwise a USDC depeg halts it
/// and drains to an idle balance; and a plan is only made while the
/// gateway is up and the daily quota is not used up, within the gas cap,
/// as one move from a held venue to a different whitelisted one, of some
/// of that venue's capital and no more than the per-move share of all
/// capital or the room under the destination's cap, and never into a
/// venue in cooldown.
pub proof fn law_evaluation_decision(
    p: Policy,
    m: MarketReadings,
    pos: Position,
    now: UnixNanos,
    delta_bps: u32,
    gas_exceeds_cap: bool,
    ev_below_threshold: bool,
    d: Decision,
)
    requires
        pos.wf(),
        p.protocols.whitelist@.len() > 0,
        evaluation_gives(p, m, pos, now, delta_bps, gas_exceeds_cap, ev_below_threshold, d),
    ensures
        snapshot_stale(m.built_at, now) ==> d == stale_decision(),
        !snapshot_stale(m.built_at, now) && m.usdc_below_peg ==> d == depeg_decision(p)
            && idle_venue(p).protocol == ProtocolId::Idle,
        d matches Decision::Act { plan } ==> {
            let total = holdings_total(pos.holdings@) as int;
            let a = plan.actions@[0];
            &&& m.gateway_health != GatewayHealth::Down
            &&& pos.actions_today < p.caps.max_actions_per_day
            &&& !gas_exceeds_cap
            &&& plan.actions@.len() == 1
            &&& a.from != a.to
            &&& p.protocols.whitelist@.contains(a.to)
            &&& 0 < amount_value(a.amount) <= held_amount(pos, a.from)
            &&& amount_value(a.amount) <= pct_of(total, p.caps.max_move_pct_per_action as int)
            &&& held_amount(pos, a.to) + amount_value(a.amount) <= pct_of(total, p.protocols.per_protocol_cap_pct as int)
            &&& !in_cooldown(pos, a.to, now, p.triggers.min_idle_minutes)
        },
{
    law_drain_target_is_idle(p);
    if let Decision::Act { plan } = d {
        if guard_decision(p, m, pos, now) is Some {
            assert(false) by {
                if health_alarm(p, m, pos) is Some {
                    let hs = pos.holdings@;
                    let k = choose|k: int| first_flagged_at(m, hs, k);
                    assert(!(flagged_decision(p, m, hs[k]) is Act));
                }
            }
        }
        assert(m.gateway_health != GatewayHealth::Down);
        assert(pos.actions_today < p.caps.max_actions_per_day);
        law_compare_distinct_venues(p, m, pos);
        match proposal_of(p, m, pos) {
            Proposal::Decided(x) => {
                assert(false);
            },
            Proposal::Compare(c) => {
                law_move_within_limits(p, pos, c, delta_bps, now);
                lemma_best_is_whitelisted(p, m);
                lemma_worst_is_held_amount(p, m, pos);
                match sizing_of(p, pos, c, delta_bps, now) {
                    Sizing::Decided(x) => {
                        assert(false);
                    },
                    Sizing::Move(a) => {
                        assert(plan.actions@ == seq![a]);
                        assert(c.best == best_candidate(p, m));
                        assert(worst_of(p, m, pos) == Some(c.worst));
                    },
                }
            },
        }
    }
}

/// Runs the evaluator's stages in order: the guards, the proposal, the
/// sizing of the move for the APR gap that `gap` gives for the compared
/// venues, and its settling for the verdicts that `price` gives for the
/// sized move (whether its cost exceeds the gas cap, and whether its
/// expected net profit falls short of the policy's minimum). `gap` is
/// asked only when two venues are compared, and `price` only when a move
/// is sized.
pub fn decide<G: Fn(Comparison) -> u32, P: Fn(Action) -> (bool, bool)>(
    policy: &Policy,
    market: &MarketReadings,
    position: &Position,
    now: UnixNanos,
    gap: G,
    price: P,
) -> (r: Decision)
    requires
        position.wf(),
        instant_ok(market.built_at),
        instant_ok(now),
        last_actions_ok(*position),
        guards_defined(*policy, *market, *position, now),
        holdings_total(position.holdings@) != 0 ==> policy.protocols.whitelist@.len() > 0,
        forall|c: Comparison| gap.requires((c,)),
        forall|a: Action| price.requires((a,)),
    ensures
        exists|delta_bps: u32, gas_exceeds_cap: bool, ev_below_threshold: bool|
            {
                &&& evaluation_gives(
                    *policy,
                    *market,
                    *position,
                    now,
                    delta_bps,
                    gas_exceeds_cap,
                    ev_below_threshold,
                    r,
                )
                &&& match guard_decision(*policy, *market, *position, now) {
                    Some(_) => true,
                    None => match proposal_of(*policy, *market, *position) {
                        Proposal::Decided(_) => true,
                        Proposal::Compare(c) => gap.ensures((c,), delta_bps) && match sizing_of(
                            *policy,
                            *position,
                            c,
                            delta_bps,
                            now,
                        ) {
                            Sizing::Move(a) => price.ensures((a,), (gas_exceeds_cap, ev_below_threshold)),
                            Sizing::Decided(_) => true,
                        },
                    },
                }
            },
        snapshot_stale(market.built_at, now) ==> r == stale_decision(),
        !snapshot_stale(market.built_at, now) && market.usdc_below_peg ==> r == depeg_decision(*policy),
        r is Act ==> market.gateway_health != GatewayHealth::Down && position.actions_today
            < policy.caps.max_actions_per_day,
{
    if let Some(d) = evaluate_guards(policy, market, position, now) {
        assert(evaluation_gives(*policy, *market, *position, now, 0, false, false, d));
        return d;
    }
    match compare_venues(policy, market, position) {
        Proposal::Decided(d) => {
            assert(evaluation_gives(*policy, *market, *position, now, 0, false, false, d));
            d
        },
        Proposal::Compare(c) => {
            let delta_bps = gap(c);
            match size_move(policy, position, &c, delta_bps, now) {
                Sizing::Decided(d) => {
                    assert(evaluation_gives(*policy, *market, *position, now, delta_bps, false, false, d));
                    d
                },
                Sizing::Move(a) => {
                    let (gas_exceeds_cap, ev_below_threshold) = price(a);
                    let d = settle(a, gas_exceeds_cap, ev_below_threshold);
                    assert(evaluation_gives(
                        *policy,
                        *market,
                        *position,
                        now,
                        delta_bps,
                        gas_exceeds_cap,
                        ev_below_threshold,
                        d,
                    ));
                    proof {
                        if d is Act {
                            assert(market.gateway_health != GatewayHealth::Down);
                        }
                    }
                    d
                },
            }
        },
    }
}

/// The drain target is the first idle venue of the protocol whitelist;
/// only when the whitelist lists no idle venue is it the idle balance on
/// the first whitelisted chain. A USDC depeg drains to that target.
pub proof fn law_drain_target_first_idle(p: Policy)
    ensures
        forall|k: int|
            0 <= k < p.protocols.whitelist@.len() && p.protocols.whitelist@[k].protocol == ProtocolId::Idle
                && (forall|j: int| 0 <= j < k ==> p.protocols.whitelist@[j].protocol != ProtocolId::Idle)
                ==> #[trigger] p.protocols.whitelist@[k] == idle_venue(p),
        (forall|k: int|
            0 <= k < p.protocols.whitelist@.len() ==> #[trigger] p.protocols.whitelist@[k].protocol
                != ProtocolId::Idle) ==> idle_venue(p) == (VenueRef {
            chain: p.chains.whitelist@[0],
            protocol: ProtocolId::Idle,
        }),
        depeg_decision(p) == (Decision::CircuitBreak {
            reason: BreakReason::UsdcDepeg,
            drain_to: Some(idle_venue(p)),
        }),
{
    let wl = p.protocols.whitelist@;
    assert forall|k: int|
        0 <= k < wl.len() && wl[k].protocol == ProtocolId::Idle && (forall|j: int|
            0 <= j < k ==> wl[j].protocol != ProtocolId::Idle) implies #[trigger] wl[k] == idle_venue(p) by {
        assert(first_idle_at(wl, k));
        let c = choose|c: int| first_idle_at(wl, c);
        assert(first_idle_at(wl, c));
        if c < k {
            assert(wl[c].protocol != ProtocolId::Idle);
        }
        if k < c {
            assert(wl[k].protocol != ProtocolId::Idle);
        }
    }
    if forall|k: int| 0 <= k < wl.len() ==> #[trigger] wl[k].protocol != ProtocolId::Idle {
        if exists|k: int| first_idle_at(wl, k) {
            let c = choose|c: int| first_idle_at(wl, c);
            assert(wl[c].protocol != ProtocolId::Idle);
        }
    }
}

} // verus!
