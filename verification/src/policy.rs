//! The user's automation policy and its validation rules.
use vstd::prelude::*;

use crate::model::{ChainId, ProtocolId, Real64, UnixNanos, UserAddress, VenueRef};

verus! {

/// Whether the automation acts on the policy.
#[derive(Clone, Copy, Debug, PartialEq, Eq, Structural, Hash)]
pub enum PolicyStatus {
    Active,
    Paused,
}

impl Default for PolicyStatus {
    fn default() -> (r: Self)
        ensures
            r == PolicyStatus::Active,
    {
        PolicyStatus::Active
    }
}

/// The venues capital may be placed in, and the share of capital one venue may hold.
#[derive(Debug)]
pub struct ProtocolsConfig {
    pub whitelist: Vec<VenueRef>,
    pub per_protocol_cap_pct: u8,
}

/// The chains capital may be placed on.
#[derive(Debug)]
pub struct ChainsConfig {
    pub whitelist: Vec<ChainId>,
}

/// When a move is worth considering.
#[derive(Clone, Copy, Debug)]
pub struct TriggersConfig {
    pub apr_delta_bps: u32,
    pub apr_lookback_minutes: u32,
    pub min_idle_minutes: u32,
}

/// Limits on the size and number of moves.
#[derive(Clone, Copy, Debug)]
pub struct CapsConfig {
    pub max_move_pct_per_action: u8,
    pub max_actions_per_day: u32,
    pub min_net_profit_usd: Real64,
}

/// Gas budget of one move.
#[derive(Clone, Copy, Debug)]
pub struct GasConfig {
    pub estimated_hold_days: u32,
    pub max_gas_usd_per_action: Real64,
}

/// Thresholds that halt the automation.
#[derive(Clone, Copy, Debug)]
pub struct CircuitBreakersConfig {
    pub usdc_peg_min: Real64,
    pub utilization_max: Real64,
    pub tvl_drop_pct_1h: Real64,
    pub protocol_blacklist_on_event: bool,
}

/// Events that a webhook is told about.
#[derive(Clone, Copy, Debug, PartialEq, Eq, Structural, Hash)]
pub enum NotificationEvent {
    Action,
    CircuitBreak,
    Escalate,
}

/// Where and on what events the user is notified.
#[derive(Debug)]
pub struct NotificationsConfig {
    pub webhook_url: String,
    pub on: Vec<NotificationEvent>,
}

/// A user's automation policy.
#[derive(Debug)]
pub struct Policy {
    pub version: u32,
    pub user: UserAddress,
    pub risk_label: String,
    pub created_at: UnixNanos,
    pub compiled_from: Option<String>,
    pub status: PolicyStatus,
    pub protocols: ProtocolsConfig,
    pub chains: ChainsConfig,
    pub triggers: TriggersConfig,
    pub caps: CapsConfig,
    pub gas: GasConfig,
    pub circuit_breakers: CircuitBreakersConfig,
    pub notifications: Option<NotificationsConfig>,
}

/// The verdicts of the bound checks on the policy's floating-point fields,
/// one per field, in the order in which validation reaches them. Each is
/// `true` when the field lies in its range:
/// `min_net_profit_usd` finite and `>= 0`; `max_gas_usd_per_action` finite
/// and `> 0`; `usdc_peg_min` and `utilization_max` finite and in `(0, 1]`;
/// `tvl_drop_pct_1h` finite and in `(0, 100]`.
#[derive(Clone, Copy, Debug)]
pub struct RealBounds {
    pub min_net_profit_ok: bool,
    pub max_gas_ok: bool,
    pub usdc_peg_min_ok: bool,
    pub utilization_max_ok: bool,
    pub tvl_drop_pct_ok: bool,
}

/// Why a policy was refused.
#[derive(Clone, Copy, Debug, PartialEq, Eq, Structural)]
pub enum ValidationError {
    EmptyWhitelist,
    EmptyChainsWhitelist,
    InvalidProtocolCapPct(u8),
    InvalidMoveCapPct(u8),
    UnsatisfiableCap { pct: u8, n: usize, total: u32 },
    AprDeltaTooSmall(u32),
    ZeroLookback,
    ZeroMinIdle,
    ZeroMaxActions,
    InvalidMinProfit(Real64),
    ZeroHoldDays,
    InvalidMaxGas(Real64),
    InvalidPegMin(Real64),
    InvalidUtilizationMax(Real64),
    InvalidTvlDropPct(Real64),
    VenueChainNotWhitelisted { chain: ChainId, protocol: ProtocolId },
    DuplicateVenue { chain: ChainId, protocol: ProtocolId },
}

/// Smallest accepted `apr_delta_bps`.
pub const MIN_APR_DELTA_BPS: u32 = 10;

/// `pct × n` where `n` is the whitelist length taken modulo 2^32, as the
/// capacity check computes it.
pub open spec fn cap_total(pct: u8, n: nat) -> int {
    pct * (n % 0x1_0000_0000)
}

/// The capacity check can be computed without overflowing `u32`.
pub open spec fn protocols_checkable(p: Policy) -> bool {
    let pct = p.protocols.per_protocol_cap_pct;
    p.protocols.whitelist@.len() == 0 || pct == 0 || pct > 100
        || cap_total(pct, p.protocols.whitelist@.len()) <= u32::MAX
}

pub open spec fn protocols_error(p: Policy) -> Option<ValidationError> {
    let pct = p.protocols.per_protocol_cap_pct;
    let n = p.protocols.whitelist@.len();
    if n == 0 {
        Some(ValidationError::EmptyWhitelist)
    } else if pct == 0 || pct > 100 {
        Some(ValidationError::InvalidProtocolCapPct(pct))
    } else if cap_total(pct, n) < 100 {
        Some(ValidationError::UnsatisfiableCap { pct, n: n as usize, total: cap_total(pct, n) as u32 })
    } else {
        None
    }
}

pub open spec fn chains_error(p: Policy) -> Option<ValidationError> {
    if p.chains.whitelist@.len() == 0 {
        Some(ValidationError::EmptyChainsWhitelist)
    } else {
        None
    }
}

/// Whitelist entry `k` repeats an earlier entry.
pub open spec fn venue_repeats(wl: Seq<VenueRef>, k: int) -> bool {
    exists|j: int| 0 <= j < k && wl[j] == wl[k]
}

/// Whitelist entry `k` is refused: it repeats an earlier entry or its chain
/// is not whitelisted.
pub open spec fn venue_refused(p: Policy, k: int) -> bool {
    venue_repeats(p.protocols.whitelist@, k) || !p.chains.whitelist@.contains(
        p.protocols.whitelist@[k].chain,
    )
}

/// `k` is the first refused whitelist entry.
pub open spec fn first_refused_venue(p: Policy, k: int) -> bool {
    &&& 0 <= k < p.protocols.whitelist@.len()
    &&& venue_refused(p, k)
    &&& forall|j: int| 0 <= j < k ==> !venue_refused(p, j)
}

pub open spec fn venue_error(p: Policy, k: int) -> ValidationError {
    let v = p.protocols.whitelist@[k];
    if venue_repeats(p.protocols.whitelist@, k) {
        ValidationError::DuplicateVenue { chain: v.chain, protocol: v.protocol }
    } else {
        ValidationError::VenueChainNotWhitelisted { chain: v.chain, protocol: v.protocol }
    }
}

pub open spec fn venues_error(p: Policy) -> Option<ValidationError> {
    if exists|k: int| first_refused_venue(p, k) {
        Some(venue_error(p, choose|k: int| first_refused_venue(p, k)))
    } else {
        None
    }
}

pub open spec fn triggers_error(p: Policy) -> Option<ValidationError> {
    let t = p.triggers;
    if t.apr_delta_bps < MIN_APR_DELTA_BPS {
        Some(ValidationError::AprDeltaTooSmall(t.apr_delta_bps))
    } else if t.apr_lookback_minutes == 0 {
        Some(ValidationError::ZeroLookback)
    } else if t.min_idle_minutes == 0 {
        Some(ValidationError::ZeroMinIdle)
    } else {
        None
    }
}

pub open spec fn caps_error(p: Policy, b: RealBounds) -> Option<ValidationError> {
    let c = p.caps;
    if c.max_move_pct_per_action == 0 || c.max_move_pct_per_action > 100 {
        Some(ValidationError::InvalidMoveCapPct(c.max_move_pct_per_action))
    } else if c.max_actions_per_day == 0 {
        Some(ValidationError::ZeroMaxActions)
    } else if !b.min_net_profit_ok {
        Some(ValidationError::InvalidMinProfit(c.min_net_profit_usd))
    } else {
        None
    }
}

pub open spec fn gas_error(p: Policy, b: RealBounds) -> Option<ValidationError> {
    if p.gas.estimated_hold_days == 0 {
        Some(ValidationError::ZeroHoldDays)
    } else if !b.max_gas_ok {
        Some(ValidationError::InvalidMaxGas(p.gas.max_gas_usd_per_action))
    } else {
        None
    }
}

pub open spec fn breakers_error(p: Policy, b: RealBounds) -> Option<ValidationError> {
    let cb = p.circuit_breakers;
    if !b.usdc_peg_min_ok {
        Some(ValidationError::InvalidPegMin(cb.usdc_peg_min))
    } else if !b.utilization_max_ok {
        Some(ValidationError::InvalidUtilizationMax(cb.utilization_max))
    } else if !b.tvl_drop_pct_ok {
        Some(ValidationError::InvalidTvlDropPct(cb.tvl_drop_pct_1h))
    } else {
        None
    }
}

pub open spec fn either<E>(a: Option<E>, b: Option<E>) -> Option<E> {
    if a is Some {
        a
    } else {
        b
    }
}

/// The first rule that the policy breaks, in the order in which validation
/// checks them: protocols, chains, venues, triggers, caps, gas, circuit breakers.
pub open spec fn first_violation(p: Policy, b: RealBounds) -> Option<ValidationError> {
    either(
        protocols_error(p),
        either(
            chains_error(p),
            either(
                venues_error(p),
                either(
                    triggers_error(p),
                    either(caps_error(p, b), either(gas_error(p, b), breakers_error(p, b))),
                ),
            ),
        ),
    )
}

pub open spec fn as_outcome(e: Option<ValidationError>) -> Result<(), ValidationError> {
    match e {
        Some(e) => Err(e),
        None => Ok(()),
    }
}

/// The policy passes validation.
pub open spec fn policy_valid(p: Policy, b: RealBounds) -> bool {
    first_violation(p, b) is None
}

/// `c` occurs in `chains`.
fn chain_listed(chains: &Vec<ChainId>, c: ChainId) -> (r: bool)
    ensures
        r == chains@.contains(c),
{
    let mut i: usize = 0;
    while i < chains.len()
        invariant
            i <= chains@.len(),
            forall|j: int| 0 <= j < i ==> chains@[j] != c,
        decreases chains@.len() - i,
    {
        if chains[i] == c {
            return true;
        }
        i = i + 1;
    }
    false
}

/// `v` occurs among the first `k` entries of `wl`.
fn venue_among_first(wl: &Vec<VenueRef>, k: usize, v: VenueRef) -> (r: bool)
    requires
        k <= wl@.len(),
    ensures
        r == exists|j: int| 0 <= j < k && wl@[j] == v,
{
    let mut j: usize = 0;
    while j < k
        invariant
            k <= wl@.len(),
            j <= k,
            forall|i: int| 0 <= i < j ==> wl@[i] != v,
        decreases k - j,
    {
        if wl[j] == v {
            return true;
        }
        j = j + 1;
    }
    false
}

proof fn lemma_first_refused_unique(p: Policy, k1: int, k2: int)
    requires
        first_refused_venue(p, k1),
        first_refused_venue(p, k2),
    ensures
        k1 == k2,
{
}

/// If some whitelist entry is refused, a first refused entry exists, at or
/// before it.
proof fn lemma_first_refused_exists(p: Policy, k: int)
    requires
        0 <= k < p.protocols.whitelist@.len(),
        venue_refused(p, k),
    ensures
        exists|j: int| 0 <= j <= k && first_refused_venue(p, j),
    decreases k,
{
    if exists|j: int| 0 <= j < k && venue_refused(p, j) {
        let j = choose|j: int| 0 <= j < k && venue_refused(p, j);
        lemma_first_refused_exists(p, j);
    } else {
        assert(first_refused_venue(p, k));
    }
}

/// A policy passes validation exactly when every rule holds of its fields:
/// the protocol whitelist is non-empty, the per-venue cap is a percentage in
/// `1..=100` that lets the whitelisted venues hold all capital, the chain
/// whitelist is non-empty, no venue is listed twice and every venue's chain
/// is whitelisted, the APR delta is at least the minimum, the lookback and
/// idle windows are non-zero, the per-move cap is a percentage in `1..=100`,
/// at least one move a day is allowed, the hold period is non-zero, and
/// every floating-point field lies in its range.
pub proof fn law_valid_policy_rules(p: Policy, b: RealBounds)
    ensures
        policy_valid(p, b) <==> {
            let wl = p.protocols.whitelist@;
            let pct = p.protocols.per_protocol_cap_pct;
            &&& wl.len() > 0
            &&& 1 <= pct <= 100
            &&& pct * (wl.len() % 0x1_0000_0000) >= 100
            &&& p.chains.whitelist@.len() > 0
            &&& forall|i: int, j: int| 0 <= i < j < wl.len() ==> wl[i] != wl[j]
            &&& forall|k: int| 0 <= k < wl.len() ==> p.chains.whitelist@.contains(#[trigger] wl[k].chain)
            &&& p.triggers.apr_delta_bps >= 10
            &&& p.triggers.apr_lookback_minutes > 0
            &&& p.triggers.min_idle_minutes > 0
            &&& 1 <= p.caps.max_move_pct_per_action <= 100
            &&& p.caps.max_actions_per_day > 0
            &&& p.gas.estimated_hold_days > 0
            &&& b.min_net_profit_ok
            &&& b.max_gas_ok
            &&& b.usdc_peg_min_ok
            &&& b.utilization_max_ok
            &&& b.tvl_drop_pct_ok
        },
{
    let wl = p.protocols.whitelist@;
    if venues_error(p) is None {
        assert forall|k: int| 0 <= k < wl.len() implies !venue_refused(p, k) by {
            if venue_refused(p, k) {
                lemma_first_refused_exists(p, k);
            }
        }
        assert forall|i: int, j: int| 0 <= i < j < wl.len() implies wl[i] != wl[j] by {
            assert(!venue_refused(p, j));
        }
        assert forall|k: int| 0 <= k < wl.len() implies p.chains.whitelist@.contains(
            #[trigger] wl[k].chain,
        ) by {
            assert(!venue_refused(p, k));
        }
    }
    if (forall|i: int, j: int| 0 <= i < j < wl.len() ==> wl[i] != wl[j]) && (forall|k: int|
        0 <= k < wl.len() ==> p.chains.whitelist@.contains(#[trigger] wl[k].chain)) {
        assert forall|k: int| 0 <= k < wl.len() implies !venue_refused(p, k) by {
            assert(p.chains.whitelist@.contains(wl[k].chain));
        }
        assert(!exists|k: int| first_refused_venue(p, k));
    }
}

/// The per-move cap is a percentage: a valid policy has it in `1..=100`,
/// and a policy that passes the protocol, chain, venue and trigger rules
/// with a per-move cap of 0 or above 100 is refused with that cap.
pub proof fn law_move_cap_is_percentage(p: Policy, b: RealBounds)
    ensures
        policy_valid(p, b) ==> 1 <= p.caps.max_move_pct_per_action <= 100,
        protocols_error(p) is None && chains_error(p) is None && venues_error(p) is None
            && triggers_error(p) is None && (p.caps.max_move_pct_per_action == 0
            || p.caps.max_move_pct_per_action > 100) ==> first_violation(p, b) == Some(
            ValidationError::InvalidMoveCapPct(p.caps.max_move_pct_per_action),
        ),
{
}

impl Policy {
    /// Checks the policy against every rule, in order, and names the first
    /// rule that it breaks. `bounds` holds the verdicts on its floating-point
    /// fields (see [`RealBounds`]).
    pub fn validate(&self, bounds: &RealBounds) -> (r: Result<(), ValidationError>)
        requires
            protocols_checkable(*self),
        ensures
            r == as_outcome(first_violation(*self, *bounds)),
            r is Ok ==> 1 <= self.caps.max_move_pct_per_action <= 100,
    {
        match self.validate_protocols() {
            Err(e) => return Err(e),
            Ok(()) => {},
        }
        match self.validate_chains_whitelist() {
            Err(e) => return Err(e),
            Ok(()) => {},
        }
        match self.validate_venues() {
            Err(e) => return Err(e),
            Ok(()) => {},
        }
        match self.validate_triggers() {
            Err(e) => return Err(e),
            Ok(()) => {},
        }
        match self.validate_caps(bounds) {
            Err(e) => return Err(e),
            Ok(()) => {},
        }
        match self.validate_gas(bounds) {
            Err(e) => return Err(e),
            Ok(()) => {},
        }
        self.validate_circuit_breakers(bounds)
    }

    fn validate_protocols(&self) -> (r: Result<(), ValidationError>)
        requires
            protocols_checkable(*self),
        ensures
            r == as_outcome(protocols_error(*self)),
    {
        let p = &self.protocols;
        let n = p.whitelist.len();
        if n == 0 {
            return Err(ValidationError::EmptyWhitelist);
        }
        if p.per_protocol_cap_pct == 0 || p.per_protocol_cap_pct > 100 {
            return Err(ValidationError::InvalidProtocolCapPct(p.per_protocol_cap_pct));
        }
        let n32: u32 = (n as u64 % 0x1_0000_0000u64) as u32;
        let pct32: u32 = p.per_protocol_cap_pct as u32;
        assert(pct32 * n32 <= u32::MAX);
        let total: u32 = pct32 * n32;
        if total < 100 {
            return Err(ValidationError::UnsatisfiableCap { pct: p.per_protocol_cap_pct, n, total });
        }
        Ok(())
    }

    fn validate_chains_whitelist(&self) -> (r: Result<(), ValidationError>)
        ensures
            r == as_outcome(chains_error(*self)),
    {
        if self.chains.whitelist.len() == 0 {
            return Err(ValidationError::EmptyChainsWhitelist);
        }
        Ok(())
    }

    fn validate_venues(&self) -> (r: Result<(), ValidationError>)
        ensures
            r == as_outcome(venues_error(*self)),
    {
        let wl = &self.protocols.whitelist;
        let mut k: usize = 0;
        while k < wl.len()
            invariant
                wl == &self.protocols.whitelist,
                k <= wl@.len(),
                forall|j: int| 0 <= j < k ==> !venue_refused(*self, j),
            decreases wl@.len() - k,
        {
            let v = wl[k];
            let repeated = venue_among_first(wl, k, v);
            let listed = chain_listed(&self.chains.whitelist, v.chain);
            if repeated || !listed {
                proof {
                    assert(venue_refused(*self, k as int));
                    assert(first_refused_venue(*self, k as int));
                    let c = choose|c: int| first_refused_venue(*self, c);
                    lemma_first_refused_unique(*self, c, k as int);
                }
                if repeated {
                    return Err(ValidationError::DuplicateVenue { chain: v.chain, protocol: v.protocol });
                }
                return Err(
                    ValidationError::VenueChainNotWhitelisted { chain: v.chain, protocol: v.protocol },
                );
            }
            k = k + 1;
        }
        assert(!exists|k: int| first_refused_venue(*self, k));
        Ok(())
    }

    fn validate_triggers(&self) -> (r: Result<(), ValidationError>)
        ensures
            r == as_outcome(triggers_error(*self)),
    {
        let t = &self.triggers;
        if t.apr_delta_bps < MIN_APR_DELTA_BPS {
            return Err(ValidationError::AprDeltaTooSmall(t.apr_delta_bps));
        }
        if t.apr_lookback_minutes == 0 {
            return Err(ValidationError::ZeroLookback);
        }
        if t.min_idle_minutes == 0 {
            return Err(ValidationError::ZeroMinIdle);
        }
        Ok(())
    }

    fn validate_caps(&self, bounds: &RealBounds) -> (r: Result<(), ValidationError>)
        ensures
            r == as_outcome(caps_error(*self, *bounds)),
            self.caps.max_move_pct_per_action == 0 || self.caps.max_move_pct_per_action > 100 ==> r
                == Err::<(), ValidationError>(
                ValidationError::InvalidMoveCapPct(self.caps.max_move_pct_per_action),
            ),
            r is Ok ==> 1 <= self.caps.max_move_pct_per_action <= 100,
    {
        let c = &self.caps;
        if c.max_move_pct_per_action == 0 || c.max_move_pct_per_action > 100 {
            return Err(ValidationError::InvalidMoveCapPct(c.max_move_pct_per_action));
        }
        if c.max_actions_per_day == 0 {
            return Err(ValidationError::ZeroMaxActions);
        }
        if !bounds.min_net_profit_ok {
            return Err(ValidationError::InvalidMinProfit(c.min_net_profit_usd));
        }
        Ok(())
    }

    fn validate_gas(&self, bounds: &RealBounds) -> (r: Result<(), ValidationError>)
        ensures
            r == as_outcome(gas_error(*self, *bounds)),
    {
        if self.gas.estimated_hold_days == 0 {
            return Err(ValidationError::ZeroHoldDays);
        }
        if !bounds.max_gas_ok {
            return Err(ValidationError::InvalidMaxGas(self.gas.max_gas_usd_per_action));
        }
        Ok(())
    }

    fn validate_circuit_breakers(&self, bounds: &RealBounds) -> (r: Result<(), ValidationError>)
        ensures
            r == as_outcome(breakers_error(*self, *bounds)),
    {
        let cb = &self.circuit_breakers;
        if !bounds.usdc_peg_min_ok {
            return Err(ValidationError::InvalidPegMin(cb.usdc_peg_min));
        }
        if !bounds.utilization_max_ok {
            return Err(ValidationError::InvalidUtilizationMax(cb.utilization_max));
        }
        if !bounds.tvl_drop_pct_ok {
            return Err(ValidationError::InvalidTvlDropPct(cb.tvl_drop_pct_1h));
        }
        Ok(())
    }
}

} // verus!
