use compass::audit::{EventType, InMemoryAuditStore};
use std::cell::Cell;

use compass::evaluator::{
    decide, Action, BreakReason, Comparison, Decision, GatewayHealth, Holding, MarketReadings, NoopReason,
    Position, VenueReading, ZERO_APR_KEY,
};
use compass::model::{ChainId, ProtocolId, Real64, UnixNanos, UserAddress, VenueRef};
use compass::policy::{
    CapsConfig, ChainsConfig, CircuitBreakersConfig, GasConfig, Policy, PolicyStatus,
    ProtocolsConfig, RealBounds, TriggersConfig,
};
use compass::policy_store::InMemoryPolicyStore;
use compass::position_store::InMemoryPositionStore;
use compass::tick::{run_round, SkipReason};

const MINUTE: i128 = 60_000_000_000;

fn now() -> UnixNanos {
    2_000_000_000 * 1_000_000_000
}

fn real64(x: f64) -> Real64 {
    Real64 { bits: x.to_bits() }
}

fn aave() -> VenueRef {
    VenueRef { chain: ChainId::ArbitrumSepolia, protocol: ProtocolId::AaveV3 }
}

fn idle_arc() -> VenueRef {
    VenueRef { chain: ChainId::Arc, protocol: ProtocolId::Idle }
}

fn good_policy(user: UserAddress) -> Policy {
    Policy {
        version: 0,
        user,
        risk_label: "balanced".to_string(),
        created_at: now(),
        compiled_from: None,
        status: PolicyStatus::Active,
        protocols: ProtocolsConfig { whitelist: vec![idle_arc(), aave()], per_protocol_cap_pct: 100 },
        chains: ChainsConfig { whitelist: vec![ChainId::Arc, ChainId::ArbitrumSepolia] },
        triggers: TriggersConfig { apr_delta_bps: 100, apr_lookback_minutes: 60, min_idle_minutes: 30 },
        caps: CapsConfig { max_move_pct_per_action: 100, max_actions_per_day: 6, min_net_profit_usd: real64(0.0) },
        gas: GasConfig { estimated_hold_days: 7, max_gas_usd_per_action: real64(5.0) },
        circuit_breakers: CircuitBreakersConfig {
            usdc_peg_min: real64(0.98),
            utilization_max: real64(0.95),
            tvl_drop_pct_1h: real64(30.0),
            protocol_blacklist_on_event: true,
        },
        notifications: None,
    }
}

fn bounds() -> RealBounds {
    RealBounds {
        min_net_profit_ok: true,
        max_gas_ok: true,
        usdc_peg_min_ok: true,
        utilization_max_ok: true,
        tvl_drop_pct_ok: true,
    }
}

/// A healthy market where AAVE pays 5% (its order key) and the snapshot
/// was built `age` ago.
fn market(age: i128) -> MarketReadings {
    MarketReadings {
        built_at: now() - age,
        gateway_health: GatewayHealth::Healthy,
        usdc_below_peg: false,
        venues: vec![VenueReading {
            venue: aave(),
            apr_key: 0.05f64.to_bits() | ZERO_APR_KEY,
            utilization_exceeded: false,
            tvl_drop_exceeded: false,
        }],
    }
}

struct Harness {
    policies: InMemoryPolicyStore,
    positions: InMemoryPositionStore,
    audit: InMemoryAuditStore,
    snapshot: Option<MarketReadings>,
}

struct TickOutcome {
    trigger_event_id: u64,
    skipped: Option<SkipReason>,
    decision: Option<Decision>,
}

/// One round, run by the library's `run_round`: the evaluation is the
/// library's `decide` with a fixed APR gap and priced verdicts that pass.
fn tick(h: &mut Harness, user: UserAddress) -> TickOutcome {
    let empty = Position::empty();
    let pos = h.positions.get(user).unwrap_or(&empty);
    let snapshot = h.snapshot.as_ref();
    let decided = Cell::new(None);
    let evaluate = |p: &Policy| {
        let d = decide(p, snapshot.unwrap(), pos, now(), |_c: Comparison| 500, |_a: Action| (false, false));
        decided.set(Some(d));
        (vec!["\"audit\"".to_string(), "\"position\"".to_string()], "\"decision\"".to_string())
    };
    let round = run_round(
        &mut h.audit,
        &h.policies,
        user,
        "{\"trigger_kind\":\"cron\"}".to_string(),
        now(),
        snapshot.is_some(),
        evaluate,
    )
    .unwrap();
    TickOutcome { trigger_event_id: round.trigger_event_id, skipped: round.skipped, decision: decided.take() }
}

fn harness() -> Harness {
    Harness {
        policies: InMemoryPolicyStore::new(),
        positions: InMemoryPositionStore::new(),
        audit: InMemoryAuditStore::new(),
        snapshot: None,
    }
}

fn user(b: u8) -> UserAddress {
    UserAddress::from_bytes([b; 20])
}

fn position_idle(amount: u64) -> Position {
    Position { holdings: vec![Holding { venue: idle_arc(), amount: [amount, 0, 0, 0] }], last_action_at: vec![], actions_today: 0 }
}

#[test]
fn no_policy_skips_with_only_trigger_audit() {
    let mut h = harness();
    let u = user(0xAA);
    let out = tick(&mut h, u);
    assert_eq!(out.skipped, Some(SkipReason::NoPolicy));
    assert!(out.decision.is_none());
    assert_eq!(out.trigger_event_id, 1);
    let events = h.audit.list_for_user(u, None, 10);
    assert_eq!(events.len(), 1);
    assert_eq!(events[0].event_type, EventType::TriggerFired);
}

#[test]
fn paused_policy_skips() {
    let mut h = harness();
    let u = user(0xBB);
    let mut p = good_policy(u);
    p.status = PolicyStatus::Paused;
    h.policies.put(p, &bounds()).unwrap();
    h.snapshot = Some(market(0));
    let out = tick(&mut h, u);
    assert_eq!(out.skipped, Some(SkipReason::Paused));
    assert!(out.decision.is_none());
}

#[test]
fn no_snapshot_skips() {
    let mut h = harness();
    let u = user(0xCC);
    h.policies.put(good_policy(u), &bounds()).unwrap();
    let out = tick(&mut h, u);
    assert_eq!(out.skipped, Some(SkipReason::NoSnapshot));
}

#[test]
fn happy_path_writes_trigger_and_decision() {
    let mut h = harness();
    let u = user(0xDD);
    h.policies.put(good_policy(u), &bounds()).unwrap();
    h.snapshot = Some(market(0));
    h.positions.put(u, position_idle(10_000_000_000));
    let out = tick(&mut h, u);
    assert!(out.skipped.is_none());
    assert!(matches!(out.decision, Some(Decision::Act { .. })));
    let events = h.audit.list_for_user(u, None, 20);
    assert_eq!(events[0].event_type, EventType::EvaluatorDecision);
    assert_eq!(events[0].policy_version, Some(1));
    assert_eq!(events.last().unwrap().event_type, EventType::TriggerFired);
    let thoughts = events.iter().filter(|e| e.event_type == EventType::EvaluatorThought).count();
    assert!(thoughts >= 2, "expected at least 2 thoughts, got {thoughts}");
    // Thoughts and decision are stamped one millisecond apart, after the trigger.
    assert_eq!(events[0].ts, now() + 3_000_000);
    assert_eq!(events[1].ts, now() + 2_000_000);
    assert_eq!(events[2].ts, now() + 1_000_000);
}

#[test]
fn missing_position_treated_as_empty_yields_no_capital_noop() {
    let mut h = harness();
    let u = user(0xEE);
    h.policies.put(good_policy(u), &bounds()).unwrap();
    h.snapshot = Some(market(0));
    let out = tick(&mut h, u);
    assert!(matches!(out.decision, Some(Decision::Noop { reason: NoopReason::NoCapital })));
}

#[test]
fn stale_snapshot_records_circuit_break() {
    let mut h = harness();
    let u = user(0xFF);
    h.policies.put(good_policy(u), &bounds()).unwrap();
    h.snapshot = Some(market(10 * MINUTE));
    h.positions.put(u, position_idle(10_000_000_000));
    let out = tick(&mut h, u);
    assert!(matches!(out.decision, Some(Decision::CircuitBreak { reason: BreakReason::SnapshotStale, .. })));
    let events = h.audit.list_for_user(u, None, 20);
    assert_eq!(events[0].event_type, EventType::EvaluatorDecision);
    assert_eq!(events.last().unwrap().event_type, EventType::TriggerFired);
}
