use compass::model::{ChainId, ProtocolId, Real64, UserAddress, VenueRef};
use compass::policy::{
    CapsConfig, ChainsConfig, CircuitBreakersConfig, GasConfig, Policy, PolicyStatus,
    ProtocolsConfig, RealBounds, TriggersConfig, ValidationError,
};

fn real64(x: f64) -> Real64 {
    Real64 { bits: x.to_bits() }
}

fn float(x: Real64) -> f64 {
    f64::from_bits(x.bits)
}

fn in_unit(x: f64) -> bool {
    x.is_finite() && x > 0.0 && x <= 1.0
}

/// The verdicts on the policy's floating-point fields, as the service
/// computes them before validating.
fn bounds(p: &Policy) -> RealBounds {
    let min_profit = float(p.caps.min_net_profit_usd);
    let max_gas = float(p.gas.max_gas_usd_per_action);
    let tvl = float(p.circuit_breakers.tvl_drop_pct_1h);
    RealBounds {
        min_net_profit_ok: min_profit.is_finite() && min_profit >= 0.0,
        max_gas_ok: max_gas.is_finite() && max_gas > 0.0,
        usdc_peg_min_ok: in_unit(float(p.circuit_breakers.usdc_peg_min)),
        utilization_max_ok: in_unit(float(p.circuit_breakers.utilization_max)),
        tvl_drop_pct_ok: tvl.is_finite() && tvl > 0.0 && tvl <= 100.0,
    }
}

fn validate(p: &Policy) -> Result<(), ValidationError> {
    p.validate(&bounds(p))
}

fn zero_user() -> UserAddress {
    UserAddress { hi: 0, mid: 0, lo: 0 }
}

fn good_policy() -> Policy {
    Policy {
        version: 0,
        user: zero_user(),
        risk_label: "balanced".to_string(),
        created_at: 1_700_000_000 * 1_000_000_000,
        compiled_from: None,
        status: PolicyStatus::Active,
        protocols: ProtocolsConfig {
            whitelist: vec![
                VenueRef { chain: ChainId::Arc, protocol: ProtocolId::Idle },
                VenueRef { chain: ChainId::ArbitrumSepolia, protocol: ProtocolId::AaveV3 },
            ],
            per_protocol_cap_pct: 60,
        },
        chains: ChainsConfig { whitelist: vec![ChainId::Arc, ChainId::ArbitrumSepolia] },
        triggers: TriggersConfig { apr_delta_bps: 100, apr_lookback_minutes: 60, min_idle_minutes: 30 },
        caps: CapsConfig {
            max_move_pct_per_action: 100,
            max_actions_per_day: 6,
            min_net_profit_usd: real64(1.0),
        },
        gas: GasConfig { estimated_hold_days: 7, max_gas_usd_per_action: real64(5.0) },
        circuit_breakers: CircuitBreakersConfig {
            usdc_peg_min: real64(0.98),
            utilization_max: real64(0.95),
            tvl_drop_pct_1h: real64(30.0),
            protocol_blacklist_on_event: true,
        },
        notifications: None,
    }
}

#[test]
fn baseline_is_valid() {
    assert!(validate(&good_policy()).is_ok());
}

#[test]
fn empty_whitelist_rejected() {
    let mut p = good_policy();
    p.protocols.whitelist.clear();
    assert_eq!(validate(&p), Err(ValidationError::EmptyWhitelist));
}

#[test]
fn empty_chains_rejected() {
    let mut p = good_policy();
    p.chains.whitelist.clear();
    assert_eq!(validate(&p), Err(ValidationError::EmptyChainsWhitelist));
}

#[test]
fn protocol_cap_out_of_range() {
    let mut p = good_policy();
    p.protocols.per_protocol_cap_pct = 0;
    assert_eq!(validate(&p), Err(ValidationError::InvalidProtocolCapPct(0)));
    p.protocols.per_protocol_cap_pct = 101;
    assert_eq!(validate(&p), Err(ValidationError::InvalidProtocolCapPct(101)));
}

#[test]
fn unsatisfiable_cap_rejected() {
    let mut p = good_policy();
    p.protocols.per_protocol_cap_pct = 30;
    assert_eq!(
        validate(&p),
        Err(ValidationError::UnsatisfiableCap { pct: 30, n: 2, total: 60 })
    );
}

#[test]
fn unsatisfiable_cap_passes_when_count_makes_up() {
    let mut p = good_policy();
    p.protocols.per_protocol_cap_pct = 50;
    assert!(validate(&p).is_ok());
}

#[test]
fn duplicate_venue_rejected() {
    let mut p = good_policy();
    p.protocols.whitelist.push(VenueRef { chain: ChainId::Arc, protocol: ProtocolId::Idle });
    assert_eq!(
        validate(&p),
        Err(ValidationError::DuplicateVenue { chain: ChainId::Arc, protocol: ProtocolId::Idle })
    );
}

#[test]
fn venue_chain_not_whitelisted() {
    let mut p = good_policy();
    p.chains.whitelist = vec![ChainId::Arc];
    assert_eq!(
        validate(&p),
        Err(ValidationError::VenueChainNotWhitelisted {
            chain: ChainId::ArbitrumSepolia,
            protocol: ProtocolId::AaveV3,
        })
    );
}

#[test]
fn apr_delta_too_small() {
    let mut p = good_policy();
    p.triggers.apr_delta_bps = 5;
    assert_eq!(validate(&p), Err(ValidationError::AprDeltaTooSmall(5)));
}

#[test]
fn zero_lookback_and_idle_rejected() {
    let mut p = good_policy();
    p.triggers.apr_lookback_minutes = 0;
    assert_eq!(validate(&p), Err(ValidationError::ZeroLookback));
    p = good_policy();
    p.triggers.min_idle_minutes = 0;
    assert_eq!(validate(&p), Err(ValidationError::ZeroMinIdle));
}

#[test]
fn caps_validation() {
    let mut p = good_policy();
    p.caps.max_move_pct_per_action = 0;
    assert_eq!(validate(&p), Err(ValidationError::InvalidMoveCapPct(0)));
    p = good_policy();
    p.caps.max_actions_per_day = 0;
    assert_eq!(validate(&p), Err(ValidationError::ZeroMaxActions));
    p = good_policy();
    p.caps.min_net_profit_usd = real64(-1.0);
    assert_eq!(validate(&p), Err(ValidationError::InvalidMinProfit(real64(-1.0))));
    p = good_policy();
    p.caps.min_net_profit_usd = real64(f64::NAN);
    match validate(&p) {
        Err(ValidationError::InvalidMinProfit(v)) => assert!(float(v).is_nan()),
        other => panic!("expected InvalidMinProfit(NaN), got {other:?}"),
    }
}

#[test]
fn gas_validation() {
    let mut p = good_policy();
    p.gas.estimated_hold_days = 0;
    assert_eq!(validate(&p), Err(ValidationError::ZeroHoldDays));
    p = good_policy();
    p.gas.max_gas_usd_per_action = real64(0.0);
    assert_eq!(validate(&p), Err(ValidationError::InvalidMaxGas(real64(0.0))));
    p = good_policy();
    p.gas.max_gas_usd_per_action = real64(f64::INFINITY);
    assert_eq!(validate(&p), Err(ValidationError::InvalidMaxGas(real64(f64::INFINITY))));
}

#[test]
fn circuit_breaker_bounds() {
    let mut p = good_policy();
    p.circuit_breakers.usdc_peg_min = real64(1.5);
    assert_eq!(validate(&p), Err(ValidationError::InvalidPegMin(real64(1.5))));
    p = good_policy();
    p.circuit_breakers.utilization_max = real64(0.0);
    assert_eq!(validate(&p), Err(ValidationError::InvalidUtilizationMax(real64(0.0))));
    p = good_policy();
    p.circuit_breakers.tvl_drop_pct_1h = real64(150.0);
    assert_eq!(validate(&p), Err(ValidationError::InvalidTvlDropPct(real64(150.0))));
}

#[test]
fn status_default_is_active() {
    assert_eq!(PolicyStatus::default(), PolicyStatus::Active);
}

#[test]
fn first_broken_rule_is_reported() {
    // Several rules broken at once: the protocol rules are checked first.
    let mut p = good_policy();
    p.protocols.per_protocol_cap_pct = 0;
    p.chains.whitelist.clear();
    p.triggers.apr_delta_bps = 1;
    assert_eq!(validate(&p), Err(ValidationError::InvalidProtocolCapPct(0)));
    // Then the chains, then the venues, then the triggers.
    p.protocols.per_protocol_cap_pct = 60;
    assert_eq!(validate(&p), Err(ValidationError::EmptyChainsWhitelist));
    p.chains.whitelist = vec![ChainId::Arc];
    assert_eq!(
        validate(&p),
        Err(ValidationError::VenueChainNotWhitelisted {
            chain: ChainId::ArbitrumSepolia,
            protocol: ProtocolId::AaveV3,
        })
    );
    p.chains.whitelist = vec![ChainId::Arc, ChainId::ArbitrumSepolia];
    assert_eq!(validate(&p), Err(ValidationError::AprDeltaTooSmall(1)));
}

#[test]
fn floating_point_rules_follow_their_verdicts() {
    // The verdicts alone decide the floating-point rules, in field order.
    let p = good_policy();
    let mut b = bounds(&p);
    b.max_gas_ok = false;
    b.utilization_max_ok = false;
    assert_eq!(p.validate(&b), Err(ValidationError::InvalidMaxGas(real64(5.0))));
    b.max_gas_ok = true;
    assert_eq!(p.validate(&b), Err(ValidationError::InvalidUtilizationMax(real64(0.95))));
}
