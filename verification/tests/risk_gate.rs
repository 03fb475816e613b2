use compass::evaluator::{Action, ActionPlan, Decision, NoopReason};
use compass::model::{ChainId, ProtocolId, Real64, UserAddress, VenueRef};
use compass::policy::{
    CapsConfig, ChainsConfig, CircuitBreakersConfig, GasConfig, Policy, PolicyStatus,
    ProtocolsConfig, TriggersConfig,
};
use compass::risk_gate::{check, GateDecision, GateRejection};
use compass::tick::{follow_up, FollowUp};

fn real64(x: f64) -> Real64 {
    Real64 { bits: x.to_bits() }
}

fn aave() -> VenueRef {
    VenueRef { chain: ChainId::ArbitrumSepolia, protocol: ProtocolId::AaveV3 }
}

fn idle() -> VenueRef {
    VenueRef { chain: ChainId::ArbitrumSepolia, protocol: ProtocolId::Idle }
}

fn policy(status: PolicyStatus, max_gas: f64) -> Policy {
    Policy {
        version: 1,
        user: UserAddress { hi: 0, mid: 0, lo: 0 },
        risk_label: "balanced".to_string(),
        created_at: 0,
        compiled_from: None,
        status,
        protocols: ProtocolsConfig { whitelist: vec![idle(), aave()], per_protocol_cap_pct: 100 },
        chains: ChainsConfig { whitelist: vec![ChainId::ArbitrumSepolia] },
        triggers: TriggersConfig { apr_delta_bps: 100, apr_lookback_minutes: 60, min_idle_minutes: 30 },
        caps: CapsConfig { max_move_pct_per_action: 100, max_actions_per_day: 6, min_net_profit_usd: real64(0.0) },
        gas: GasConfig { estimated_hold_days: 7, max_gas_usd_per_action: real64(max_gas) },
        circuit_breakers: CircuitBreakersConfig {
            usdc_peg_min: real64(0.98),
            utilization_max: real64(0.95),
            tvl_drop_pct_1h: real64(30.0),
            protocol_blacklist_on_event: true,
        },
        notifications: None,
    }
}

fn plan() -> ActionPlan {
    ActionPlan { actions: vec![Action { from: idle(), to: aave(), amount: [1_000_000, 0, 0, 0] }] }
}

/// The risk gate as the service runs it: the plan's estimated cost is compared
/// with the policy's cap in floating point.
fn gate(p: &Policy, plan: &ActionPlan, cost: f64) -> GateDecision {
    let cap = f64::from_bits(p.gas.max_gas_usd_per_action.bits);
    check(p, plan, cost > cap)
}

fn reason_text(d: GateDecision) -> &'static str {
    match d {
        GateDecision::Reject { reason } => reason.message(),
        GateDecision::Pass => panic!("expected reject"),
    }
}

#[test]
fn happy_path_passes() {
    assert_eq!(gate(&policy(PolicyStatus::Active, 5.0), &plan(), 2.0), GateDecision::Pass);
}

#[test]
fn paused_rejected() {
    let d = gate(&policy(PolicyStatus::Paused, 5.0), &plan(), 2.0);
    assert!(reason_text(d).contains("paused"));
}

#[test]
fn empty_plan_rejected() {
    let mut p = plan();
    p.actions.clear();
    let d = gate(&policy(PolicyStatus::Active, 5.0), &p, 2.0);
    assert!(reason_text(d).contains("no actions"));
}

#[test]
fn gas_over_cap_rejected() {
    let d = gate(&policy(PolicyStatus::Active, 5.0), &plan(), 10.0);
    assert!(reason_text(d).contains("exceeds"));
}

#[test]
fn paused_checked_before_everything() {
    let mut p = plan();
    p.actions.clear();
    let d = gate(&policy(PolicyStatus::Paused, 5.0), &p, 10.0);
    assert_eq!(d, GateDecision::Reject { reason: GateRejection::Paused });
}

#[test]
fn follow_up_executes_passed_plan() {
    let d = Decision::Act { plan: plan() };
    let p = policy(PolicyStatus::Active, 5.0);
    assert_eq!(follow_up(Some(&d), Some(&p), false), FollowUp::Execute);
}

#[test]
fn follow_up_records_rejection() {
    let d = Decision::Act { plan: plan() };
    let p = policy(PolicyStatus::Paused, 5.0);
    assert_eq!(
        follow_up(Some(&d), Some(&p), false),
        FollowUp::RecordRejection { reason: GateRejection::Paused }
    );
    let p = policy(PolicyStatus::Active, 5.0);
    assert_eq!(
        follow_up(Some(&d), Some(&p), true),
        FollowUp::RecordRejection { reason: GateRejection::CostExceedsCap }
    );
}

#[test]
fn follow_up_nothing_without_plan_or_policy() {
    let p = policy(PolicyStatus::Active, 5.0);
    let noop = Decision::Noop { reason: NoopReason::NoCapital };
    assert_eq!(follow_up(Some(&noop), Some(&p), false), FollowUp::Nothing);
    assert_eq!(follow_up(None, Some(&p), false), FollowUp::Nothing);
    let act = Decision::Act { plan: plan() };
    assert_eq!(follow_up(Some(&act), None, false), FollowUp::Nothing);
}
