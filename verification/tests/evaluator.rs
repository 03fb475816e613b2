use std::cell::Cell;
use std::collections::HashMap;

use compass::evaluator::{
    decide, Action, Comparison, BreakReason, Decision,
    EscalateReason, GatewayHealth, HealthSignal, Holding, LastAction, MarketReadings, NoopReason,
    Position, VenueReading, ZERO_APR_KEY,
};
use compass::model::{ChainId, ProtocolId, Real64, UnixNanos, UserAddress, VenueRef};
use compass::policy::{
    CapsConfig, ChainsConfig, CircuitBreakersConfig, GasConfig, Policy, PolicyStatus,
    ProtocolsConfig, TriggersConfig,
};

const MINUTE: i128 = 60_000_000_000;

fn real64(x: f64) -> Real64 {
    Real64 { bits: x.to_bits() }
}

fn float(x: Real64) -> f64 {
    f64::from_bits(x.bits)
}

struct VenueState {
    apr_smoothed_1h: f64,
    utilization: f64,
    tvl_drop_pct_1h: f64,
}

struct Snapshot {
    built_at: UnixNanos,
    usdc_usd: f64,
    gateway_health: GatewayHealth,
    venues: HashMap<VenueRef, VenueState>,
    gas_usd_per_userop: HashMap<ChainId, f64>,
    gateway_fee_usd: f64,
}

/// The order key of an APR, as the service computes it.
fn apr_order_key(apr: f64) -> u64 {
    let bits = apr.to_bits();
    if bits >> 63 == 1 {
        !bits
    } else {
        bits | 0x8000_0000_0000_0000
    }
}

fn readings(p: &Policy, s: &Snapshot) -> MarketReadings {
    let venues = s
        .venues
        .iter()
        .map(|(v, st)| VenueReading {
            venue: *v,
            apr_key: apr_order_key(st.apr_smoothed_1h),
            utilization_exceeded: st.utilization > float(p.circuit_breakers.utilization_max),
            tvl_drop_exceeded: st.tvl_drop_pct_1h > float(p.circuit_breakers.tvl_drop_pct_1h),
        })
        .collect();
    MarketReadings {
        built_at: s.built_at,
        gateway_health: s.gateway_health,
        usdc_below_peg: s.usdc_usd < float(p.circuit_breakers.usdc_peg_min),
        venues,
    }
}

fn apr_of(s: &Snapshot, v: VenueRef) -> f64 {
    if v.protocol == ProtocolId::Idle {
        0.0
    } else {
        s.venues.get(&v).map(|st| st.apr_smoothed_1h).unwrap_or(0.0)
    }
}

/// What an evaluation gives: the decision and, for a priced move, its
/// estimated cost and expected profit in USD.
struct Outcome {
    decision: Decision,
    cost: Option<f64>,
    profit: Option<f64>,
}

/// Runs the library's `decide`, giving it the APR gap and the priced
/// verdicts as the service computes them in floating point.
fn evaluate(p: &Policy, s: &Snapshot, pos: &Position, now: UnixNanos) -> Outcome {
    let m = readings(p, s);
    let delta = Cell::new(0.0f64);
    let cost = Cell::new(None);
    let profit = Cell::new(None);
    let gap = |c: Comparison| {
        let d = apr_of(s, c.best.venue) - apr_of(s, c.worst.venue);
        delta.set(d);
        (d * 10_000.0).max(0.0) as u32
    };
    let price = |a: Action| {
        let amount_usd = a.amount[0] as f64 / 1_000_000.0 * s.usdc_usd;
        let pr = amount_usd * delta.get() * (p.gas.estimated_hold_days as f64 / 365.0);
        let from_gas = s.gas_usd_per_userop.get(&a.from.chain).copied().unwrap_or(0.0);
        let to_gas = s.gas_usd_per_userop.get(&a.to.chain).copied().unwrap_or(0.0);
        let bridge = if a.from.chain != a.to.chain { s.gateway_fee_usd } else { 0.0 };
        let c = from_gas + to_gas + bridge;
        cost.set(Some(c));
        profit.set(Some(pr));
        let min_profit = float(p.caps.min_net_profit_usd);
        (c > float(p.gas.max_gas_usd_per_action), min_profit > 0.0 && pr - c < min_profit)
    };
    let decision = decide(p, &m, pos, now, gap, price);
    Outcome { decision, cost: cost.get(), profit: profit.get() }
}

fn aave() -> VenueRef {
    VenueRef { chain: ChainId::ArbitrumSepolia, protocol: ProtocolId::AaveV3 }
}

fn idle_arc() -> VenueRef {
    VenueRef { chain: ChainId::Arc, protocol: ProtocolId::Idle }
}

fn idle_arb() -> VenueRef {
    VenueRef { chain: ChainId::ArbitrumSepolia, protocol: ProtocolId::Idle }
}

fn good_policy() -> Policy {
    Policy {
        version: 1,
        user: UserAddress { hi: 0, mid: 0, lo: 0 },
        risk_label: "balanced".to_string(),
        created_at: 1_700_000_000 * 1_000_000_000,
        compiled_from: None,
        status: PolicyStatus::Active,
        protocols: ProtocolsConfig { whitelist: vec![idle_arc(), idle_arb(), aave()], per_protocol_cap_pct: 100 },
        chains: ChainsConfig { whitelist: vec![ChainId::Arc, ChainId::ArbitrumSepolia] },
        triggers: TriggersConfig { apr_delta_bps: 100, apr_lookback_minutes: 60, min_idle_minutes: 30 },
        caps: CapsConfig { max_move_pct_per_action: 100, max_actions_per_day: 6, min_net_profit_usd: real64(0.0) },
        gas: GasConfig { estimated_hold_days: 7, max_gas_usd_per_action: real64(5.0) },
        circuit_breakers: CircuitBreakersConfig {
            usdc_peg_min: real64(0.98),
            utilization_max: real64(0.95),
            tvl_drop_pct_1h: real64(30.0),
            protocol_blacklist_on_event: true,
        },
        notifications: None,
    }
}

fn now() -> UnixNanos {
    2_000_000_000 * 1_000_000_000
}

fn good_snapshot() -> Snapshot {
    let mut venues = HashMap::new();
    venues.insert(aave(), VenueState { apr_smoothed_1h: 0.05, utilization: 0.5, tvl_drop_pct_1h: 0.0 });
    let mut gas = HashMap::new();
    gas.insert(ChainId::Arc, 0.50);
    gas.insert(ChainId::ArbitrumSepolia, 0.50);
    Snapshot {
        built_at: now(),
        usdc_usd: 1.0,
        gateway_health: GatewayHealth::Healthy,
        venues,
        gas_usd_per_userop: gas,
        gateway_fee_usd: 0.10,
    }
}

fn position_of(holdings: Vec<(VenueRef, u64)>) -> Position {
    Position {
        holdings: holdings.into_iter().map(|(venue, amount)| Holding { venue, amount: [amount, 0, 0, 0] }).collect(),
        last_action_at: Vec::new(),
        actions_today: 0,
    }
}

fn position_idle(usdc: u64) -> Position {
    position_of(vec![(idle_arc(), usdc)])
}

#[test]
fn snapshot_stale_circuit_breaks() {
    let mut s = good_snapshot();
    s.built_at = now() - 10 * MINUTE;
    let d = evaluate(&good_policy(), &s, &position_idle(10_000_000_000), now()).decision;
    assert!(matches!(d, Decision::CircuitBreak { reason: BreakReason::SnapshotStale, drain_to: None }));
}

#[test]
fn usdc_depeg_drains_to_idle() {
    let mut s = good_snapshot();
    s.usdc_usd = 0.95;
    let d = evaluate(&good_policy(), &s, &position_idle(10_000_000_000), now()).decision;
    match d {
        Decision::CircuitBreak { reason: BreakReason::UsdcDepeg, drain_to } => {
            assert_eq!(drain_to.unwrap().protocol, ProtocolId::Idle);
            assert_eq!(drain_to, Some(idle_arc()));
        }
        other => panic!("expected CircuitBreak UsdcDepeg, got {other:?}"),
    }
}

#[test]
fn utilization_breaks_for_held_venue() {
    let mut s = good_snapshot();
    s.venues.get_mut(&aave()).unwrap().utilization = 0.99;
    let pos = position_of(vec![(aave(), 5_000_000_000)]);
    let d = evaluate(&good_policy(), &s, &pos, now()).decision;
    assert!(matches!(
        d,
        Decision::CircuitBreak {
            reason: BreakReason::VenueUnhealthy { signal: HealthSignal::Utilization, .. },
            ..
        }
    ));
}

#[test]
fn tvl_drop_breaks_for_held_venue() {
    let mut s = good_snapshot();
    s.venues.get_mut(&aave()).unwrap().tvl_drop_pct_1h = 50.0;
    let pos = position_of(vec![(aave(), 5_000_000_000)]);
    let d = evaluate(&good_policy(), &s, &pos, now()).decision;
    assert!(matches!(
        d,
        Decision::CircuitBreak { reason: BreakReason::VenueUnhealthy { signal: HealthSignal::TvlDrop, .. }, .. }
    ));
}

#[test]
fn missing_held_venue_data_escalates() {
    let mut s = good_snapshot();
    s.venues.clear();
    let pos = position_of(vec![(aave(), 5_000_000_000)]);
    let d = evaluate(&good_policy(), &s, &pos, now()).decision;
    assert!(matches!(d, Decision::Escalate { reason: EscalateReason::NewListingNoData { .. } }));
}

#[test]
fn gateway_down_yields_noop() {
    let mut s = good_snapshot();
    s.gateway_health = GatewayHealth::Down;
    let d = evaluate(&good_policy(), &s, &position_idle(10_000_000_000), now()).decision;
    assert!(matches!(d, Decision::Noop { reason: NoopReason::GatewayDown }));
}

#[test]
fn daily_quota_yields_noop() {
    let mut pos = position_idle(10_000_000_000);
    pos.actions_today = 6;
    let d = evaluate(&good_policy(), &good_snapshot(), &pos, now()).decision;
    assert!(matches!(d, Decision::Noop { reason: NoopReason::DailyQuotaReached }));
}

#[test]
fn no_capital_yields_noop() {
    let pos = Position::empty();
    let d = evaluate(&good_policy(), &good_snapshot(), &pos, now()).decision;
    assert!(matches!(d, Decision::Noop { reason: NoopReason::NoCapital }));
}

#[test]
fn happy_path_idle_to_aave() {
    let out = evaluate(&good_policy(), &good_snapshot(), &position_idle(10_000_000_000), now());
    match out.decision {
        Decision::Act { plan } => {
            assert_eq!(plan.actions.len(), 1);
            let a = &plan.actions[0];
            assert_eq!(a.from, idle_arc());
            assert_eq!(a.to, aave());
            assert_eq!(a.amount, [10_000_000_000, 0, 0, 0]);
            assert!(out.profit.unwrap() > out.cost.unwrap());
        }
        other => panic!("expected Act, got {other:?}"),
    }
}

#[test]
fn already_at_best_venue_noop() {
    let pos = position_of(vec![(aave(), 10_000_000_000)]);
    let d = evaluate(&good_policy(), &good_snapshot(), &pos, now()).decision;
    assert!(matches!(d, Decision::Noop { reason: NoopReason::AlreadyAtBestVenue }));
}

#[test]
fn apr_delta_below_threshold_noop() {
    let mut s = good_snapshot();
    s.venues.get_mut(&aave()).unwrap().apr_smoothed_1h = 0.005;
    let mut p = good_policy();
    p.triggers.apr_delta_bps = 100;
    let d = evaluate(&p, &s, &position_idle(10_000_000_000), now()).decision;
    assert!(matches!(d, Decision::Noop { reason: NoopReason::AprDeltaBelowThreshold }));
}

#[test]
fn cooldown_blocks_move() {
    let mut pos = position_idle(10_000_000_000);
    pos.last_action_at.push(LastAction { venue: aave(), at: now() - 10 * MINUTE });
    let d = evaluate(&good_policy(), &good_snapshot(), &pos, now()).decision;
    assert!(matches!(d, Decision::Noop { reason: NoopReason::DestinationInCooldown }));
}

#[test]
fn cooldown_elapsed_allows_move() {
    let mut pos = position_idle(10_000_000_000);
    pos.last_action_at.push(LastAction { venue: aave(), at: now() - 60 * MINUTE });
    let d = evaluate(&good_policy(), &good_snapshot(), &pos, now()).decision;
    assert!(matches!(d, Decision::Act { .. }));
}

#[test]
fn best_venue_at_cap_noop() {
    let mut p = good_policy();
    p.protocols.per_protocol_cap_pct = 50;
    let pos = position_of(vec![(idle_arc(), 5_000_000_000), (aave(), 5_000_000_000)]);
    let d = evaluate(&p, &good_snapshot(), &pos, now()).decision;
    assert!(matches!(d, Decision::Noop { reason: NoopReason::BestVenueAtCap }));
}

#[test]
fn max_move_pct_caps_action_size() {
    let mut p = good_policy();
    p.caps.max_move_pct_per_action = 25;
    let d = evaluate(&p, &good_snapshot(), &position_idle(10_000_000_000), now()).decision;
    match d {
        Decision::Act { plan } => assert_eq!(plan.actions[0].amount, [2_500_000_000, 0, 0, 0]),
        other => panic!("expected Act, got {other:?}"),
    }
}

#[test]
fn gas_exceeding_cap_noop() {
    let mut s = good_snapshot();
    s.gas_usd_per_userop.insert(ChainId::ArbitrumSepolia, 10.0);
    let d = evaluate(&good_policy(), &s, &position_idle(10_000_000_000), now()).decision;
    assert!(matches!(d, Decision::Noop { reason: NoopReason::GasExceedsCap }));
}

#[test]
fn ev_below_threshold_noop() {
    let mut p = good_policy();
    p.caps.min_net_profit_usd = real64(1_000.0);
    let d = evaluate(&p, &good_snapshot(), &position_idle(10_000_000_000), now()).decision;
    assert!(matches!(d, Decision::Noop { reason: NoopReason::EvBelowThreshold }));
}

#[test]
fn stale_snapshot_wins_over_every_other_guard() {
    let mut s = good_snapshot();
    s.built_at = now() - 6 * MINUTE;
    s.usdc_usd = 0.5;
    s.gateway_health = GatewayHealth::Down;
    let mut pos = position_idle(10_000_000_000);
    pos.actions_today = 100;
    let d = evaluate(&good_policy(), &s, &pos, now()).decision;
    assert!(matches!(d, Decision::CircuitBreak { reason: BreakReason::SnapshotStale, drain_to: None }));
}

#[test]
fn snapshot_exactly_five_minutes_old_is_fresh() {
    let mut s = good_snapshot();
    s.built_at = now() - 5 * MINUTE;
    let d = evaluate(&good_policy(), &s, &position_idle(10_000_000_000), now()).decision;
    assert!(matches!(d, Decision::Act { .. }));
}

#[test]
fn drain_target_falls_back_to_first_chain() {
    // No idle venue in the whitelist: the idle balance of the first chain.
    let mut p = good_policy();
    p.protocols.whitelist = vec![aave()];
    p.chains.whitelist = vec![ChainId::ArbitrumSepolia, ChainId::Arc];
    let mut s = good_snapshot();
    s.usdc_usd = 0.5;
    let d = evaluate(&p, &s, &position_idle(10_000_000_000), now()).decision;
    assert!(matches!(
        d,
        Decision::CircuitBreak { reason: BreakReason::UsdcDepeg, drain_to: Some(v) } if v == idle_arb()
    ));
}

#[test]
fn move_limited_by_room_under_cap() {
    // Cap 60%: AAVE holds 2 000 of 10 000, so at most 4 000 more fits.
    let mut p = good_policy();
    p.protocols.per_protocol_cap_pct = 60;
    let pos = position_of(vec![(idle_arc(), 8_000_000_000), (aave(), 2_000_000_000)]);
    let d = evaluate(&p, &good_snapshot(), &pos, now()).decision;
    match d {
        Decision::Act { plan } => assert_eq!(plan.actions[0].amount, [4_000_000_000, 0, 0, 0]),
        other => panic!("expected Act, got {other:?}"),
    }
}

#[test]
fn zero_apr_key_orders_idle_below_positive_apr() {
    assert_eq!(apr_order_key(0.0), ZERO_APR_KEY);
    assert!(apr_order_key(0.05) > ZERO_APR_KEY);
    assert!(apr_order_key(-0.01) < ZERO_APR_KEY);
}
