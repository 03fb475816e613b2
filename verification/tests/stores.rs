use compass::audit::{EventType, InMemoryAuditStore, NewAuditEvent};
use compass::chat_history::{ChatRole, InMemoryChatHistoryStore, NewChatTurn};
use compass::evaluator::{Holding, Position};
use compass::funding::{net_deposited, net_of_sums, FundingKind, InMemoryFundingStore, NewFundingEvent};
use compass::model::{ChainId, ProtocolId, Real64, UnixNanos, UserAddress, VenueRef};
use compass::policy::{
    CapsConfig, ChainsConfig, CircuitBreakersConfig, GasConfig, Policy, PolicyStatus,
    ProtocolsConfig, RealBounds, TriggersConfig,
};
use compass::position_store::{fetched_position, InMemoryPositionStore};
use compass::session_cache::InMemorySessionCacheStore;

const SECOND: i128 = 1_000_000_000;

fn now() -> UnixNanos {
    2_000_000_000 * SECOND
}

fn repeat_byte(b: u8) -> UserAddress {
    UserAddress::from_bytes([b; 20])
}

fn ev(user: UserAddress, ts: UnixNanos, et: EventType) -> NewAuditEvent {
    NewAuditEvent::new(user, et, "{\"hello\":\"world\"}".to_string(), ts)
}

// ---------------------------------------------------------------- audit

#[test]
fn append_assigns_sequential_ids() {
    let mut store = InMemoryAuditStore::new();
    let u = repeat_byte(0x11);
    let id1 = store.append(ev(u, now(), EventType::TriggerFired));
    let id2 = store.append(ev(u, now(), EventType::EvaluatorDecision));
    let id3 = store.append(ev(u, now(), EventType::ExecutorActionDone));
    assert_eq!((id1, id2, id3), (1, 2, 3));
}

#[test]
fn get_returns_stored_event() {
    let mut store = InMemoryAuditStore::new();
    let u = repeat_byte(0x22);
    let id = store.append(
        NewAuditEvent::new(u, EventType::PolicyChange, "{\"v\":5}".to_string(), now())
            .with_policy_version(5)
            .with_chain(ChainId::Arc)
            .with_cost_usd(Real64 { bits: 0.0f64.to_bits() }),
    );
    let got = store.get(id).unwrap();
    assert_eq!(got.id, id);
    assert_eq!(got.user, u);
    assert_eq!(got.policy_version, Some(5));
    assert_eq!(got.chain, Some(ChainId::Arc));
    assert_eq!(got.payload, "{\"v\":5}");
}

#[test]
fn get_missing_returns_none() {
    let store = InMemoryAuditStore::new();
    assert!(store.get(999).is_none());
    assert!(store.get(0).is_none());
}

#[test]
fn list_filters_by_user_and_returns_newest_first() {
    let mut store = InMemoryAuditStore::new();
    let u1 = repeat_byte(0x33);
    let u2 = repeat_byte(0x44);
    store.append(ev(u1, now(), EventType::TriggerFired));
    store.append(ev(u2, now(), EventType::TriggerFired));
    store.append(ev(u1, now(), EventType::EvaluatorDecision));
    let out = store.list_for_user(u1, None, 10);
    assert_eq!(out.len(), 2);
    assert_eq!(out[0].event_type, EventType::EvaluatorDecision);
    assert_eq!(out[1].event_type, EventType::TriggerFired);
}

#[test]
fn list_respects_limit() {
    let mut store = InMemoryAuditStore::new();
    let u = repeat_byte(0x55);
    for _ in 0..5 {
        store.append(ev(u, now(), EventType::TriggerFired));
    }
    let out = store.list_for_user(u, None, 2);
    assert_eq!(out.len(), 2);
    assert_eq!((out[0].id, out[1].id), (5, 4));
}

#[test]
fn list_respects_since() {
    let mut store = InMemoryAuditStore::new();
    let u = repeat_byte(0x66);
    let t0 = now();
    let t1 = t0 + 10 * SECOND;
    let t2 = t0 + 20 * SECOND;
    store.append(ev(u, t0, EventType::TriggerFired));
    store.append(ev(u, t1, EventType::TriggerFired));
    store.append(ev(u, t2, EventType::TriggerFired));
    let out = store.list_for_user(u, Some(t1), 10);
    assert_eq!(out.len(), 1);
    assert_eq!(out[0].ts, t2);
}

#[test]
fn list_empty_for_unknown_user() {
    let store = InMemoryAuditStore::new();
    assert!(store.list_for_user(repeat_byte(0x77), None, 10).is_empty());
}

#[test]
fn audit_read_after_append_keeps_earlier_events() {
    let mut store = InMemoryAuditStore::new();
    let u = repeat_byte(0x78);
    let first = store.append(ev(u, now(), EventType::TriggerFired));
    let second = store.append(
        NewAuditEvent::new(u, EventType::ExecutorSubstep, "{}".to_string(), now())
            .with_tx_hash("0xabc".to_string()),
    );
    assert_eq!(store.get(first).unwrap().event_type, EventType::TriggerFired);
    let got = store.get(second).unwrap();
    assert_eq!(got.tx_hash.as_deref(), Some("0xabc"));
    assert_eq!(got.event_type, EventType::ExecutorSubstep);
}

// -------------------------------------------------------------- funding

fn fev(user: UserAddress, kind: FundingKind, amount: u64, tx: &str) -> NewFundingEvent {
    NewFundingEvent::new(user, ChainId::Arc, kind, [amount, 0, 0, 0], tx.to_string(), now())
}

#[test]
fn store_append_assigns_sequential_ids() {
    let mut store = InMemoryFundingStore::new();
    let u = repeat_byte(0x11);
    let id1 = store.append(fev(u, FundingKind::Deposit, 100, "0xa"));
    let id2 = store.append(fev(u, FundingKind::Deposit, 200, "0xb"));
    assert_eq!((id1, id2), (1, 2));
}

#[test]
fn append_is_idempotent_per_tx_hash() {
    let mut store = InMemoryFundingStore::new();
    let u = repeat_byte(0x22);
    let id1 = store.append(fev(u, FundingKind::Deposit, 100, "0xdupe"));
    let id2 = store.append(fev(u, FundingKind::Deposit, 999, "0xdupe"));
    assert_eq!(id1, id2);
    assert_eq!(store.sum(u, FundingKind::Deposit), [100, 0, 0, 0]);
}

#[test]
fn same_hash_for_another_kind_is_another_transfer() {
    let mut store = InMemoryFundingStore::new();
    let u = repeat_byte(0x23);
    let id1 = store.append(fev(u, FundingKind::Deposit, 100, "0xsame"));
    let id2 = store.append(fev(u, FundingKind::WithdrawToEoa, 40, "0xsame"));
    assert_eq!((id1, id2), (1, 2));
    assert_eq!(net_deposited(&store, u), [60, 0, 0, 0]);
}

#[test]
fn sum_filters_by_user_and_kind() {
    let mut store = InMemoryFundingStore::new();
    let u1 = repeat_byte(0x33);
    let u2 = repeat_byte(0x44);
    store.append(fev(u1, FundingKind::Deposit, 100, "0x1"));
    store.append(fev(u1, FundingKind::Deposit, 200, "0x2"));
    store.append(fev(u1, FundingKind::WithdrawToEoa, 50, "0x3"));
    store.append(fev(u2, FundingKind::Deposit, 999, "0x4"));
    assert_eq!(store.sum(u1, FundingKind::Deposit), [300, 0, 0, 0]);
    assert_eq!(store.sum(u1, FundingKind::WithdrawToEoa), [50, 0, 0, 0]);
    assert_eq!(store.sum(u2, FundingKind::Deposit), [999, 0, 0, 0]);
}

#[test]
fn net_deposited_clamps_to_zero() {
    let mut store = InMemoryFundingStore::new();
    let u = repeat_byte(0x55);
    store.append(fev(u, FundingKind::Deposit, 50, "0x1"));
    store.append(fev(u, FundingKind::WithdrawToEoa, 999, "0x2"));
    assert_eq!(net_deposited(&store, u), [0; 4]);
    assert_eq!(net_of_sums([300, 0, 0, 0], [50, 0, 0, 0]), [250, 0, 0, 0]);
}

#[test]
fn funding_list_newest_first_with_limit() {
    let mut store = InMemoryFundingStore::new();
    let u = repeat_byte(0x56);
    store.append(fev(u, FundingKind::Deposit, 1, "0x1"));
    store.append(fev(repeat_byte(0x57), FundingKind::Deposit, 2, "0x2"));
    store.append(fev(u, FundingKind::Deposit, 3, "0x3"));
    store.append(fev(u, FundingKind::Deposit, 4, "0x4"));
    let out = store.list_for_user(u, 2);
    assert_eq!(out.len(), 2);
    assert_eq!((out[0].amount_6dec[0], out[1].amount_6dec[0]), (4, 3));
}

#[test]
fn funding_sums_wrap_at_256_bits() {
    let mut store = InMemoryFundingStore::new();
    let u = repeat_byte(0x58);
    let max = [u64::MAX; 4];
    store.append(NewFundingEvent::new(u, ChainId::Arc, FundingKind::Deposit, max, "0x1".to_string(), now()));
    store.append(fev(u, FundingKind::Deposit, 2, "0x2"));
    assert_eq!(store.sum(u, FundingKind::Deposit), [1, 0, 0, 0]);
}

// --------------------------------------------------------------- policy

fn real64(x: f64) -> Real64 {
    Real64 { bits: x.to_bits() }
}

fn all_in_range() -> RealBounds {
    RealBounds {
        min_net_profit_ok: true,
        max_gas_ok: true,
        usdc_peg_min_ok: true,
        utilization_max_ok: true,
        tvl_drop_pct_ok: true,
    }
}

fn good_policy(user: UserAddress) -> Policy {
    Policy {
        version: 0,
        user,
        risk_label: "balanced".to_string(),
        created_at: 1_700_000_000 * SECOND,
        compiled_from: None,
        status: PolicyStatus::Active,
        protocols: ProtocolsConfig {
            whitelist: vec![
                VenueRef { chain: ChainId::Arc, protocol: ProtocolId::Idle },
                VenueRef { chain: ChainId::ArbitrumSepolia, protocol: ProtocolId::AaveV3 },
            ],
            per_protocol_cap_pct: 60,
        },
        chains: ChainsConfig { whitelist: vec![ChainId::Arc, ChainId::ArbitrumSepolia] },
        triggers: TriggersConfig { apr_delta_bps: 10, apr_lookback_minutes: 60, min_idle_minutes: 30 },
        caps: CapsConfig { max_move_pct_per_action: 100, max_actions_per_day: 6, min_net_profit_usd: real64(0.0) },
        gas: GasConfig { estimated_hold_days: 7, max_gas_usd_per_action: real64(5.0) },
        circuit_breakers: CircuitBreakersConfig {
            usdc_peg_min: real64(0.98),
            utilization_max: real64(0.95),
            tvl_drop_pct_1h: real64(30.0),
            protocol_blacklist_on_event: true,
        },
        notifications: None,
    }
}

#[test]
fn store_put_then_get_round_trip() {
    let mut store = compass::policy_store::InMemoryPolicyStore::new();
    let user = repeat_byte(0x11);
    let v = store.put(good_policy(user), &all_in_range()).unwrap();
    assert_eq!(v, 1);
    let fetched = store.get(user).unwrap();
    assert_eq!(fetched.version, 1);
    assert_eq!(fetched.user, user);
}

#[test]
fn versions_increment_per_user() {
    let mut store = compass::policy_store::InMemoryPolicyStore::new();
    let user = repeat_byte(0x22);
    assert_eq!(store.put(good_policy(user), &all_in_range()).unwrap(), 1);
    assert_eq!(store.put(good_policy(user), &all_in_range()).unwrap(), 2);
    assert_eq!(store.put(good_policy(user), &all_in_range()).unwrap(), 3);
    let other = repeat_byte(0x33);
    assert_eq!(store.put(good_policy(other), &all_in_range()).unwrap(), 1);
    assert_eq!(store.get(user).unwrap().version, 3);
    assert_eq!(store.get(other).unwrap().version, 1);
}

#[test]
fn put_rejects_invalid_policy() {
    let mut store = compass::policy_store::InMemoryPolicyStore::new();
    let user = repeat_byte(0x44);
    let mut bad = good_policy(user);
    bad.protocols.whitelist.clear();
    assert!(store.put(bad, &all_in_range()).is_err());
    assert!(store.get(user).is_none());
}

#[test]
fn set_status_updates_existing() {
    let mut store = compass::policy_store::InMemoryPolicyStore::new();
    let user = repeat_byte(0x55);
    store.put(good_policy(user), &all_in_range()).unwrap();
    store.set_status(user, PolicyStatus::Paused).unwrap();
    assert_eq!(store.get(user).unwrap().status, PolicyStatus::Paused);
}

#[test]
fn set_status_errors_for_unknown_user() {
    let mut store = compass::policy_store::InMemoryPolicyStore::new();
    assert!(store.set_status(repeat_byte(0x66), PolicyStatus::Paused).is_err());
}

#[test]
fn get_returns_none_for_unknown_user() {
    let store = compass::policy_store::InMemoryPolicyStore::new();
    assert!(store.get(repeat_byte(0x77)).is_none());
}

#[test]
fn list_active_users_filters_paused() {
    let mut store = compass::policy_store::InMemoryPolicyStore::new();
    let u1 = repeat_byte(0x81);
    let u2 = repeat_byte(0x82);
    let u3 = repeat_byte(0x83);
    store.put(good_policy(u1), &all_in_range()).unwrap();
    store.put(good_policy(u2), &all_in_range()).unwrap();
    store.put(good_policy(u3), &all_in_range()).unwrap();
    store.set_status(u3, PolicyStatus::Paused).unwrap();
    assert_eq!(store.list_active_users(), vec![u1, u2]);
}

#[test]
fn list_active_users_empty_when_no_policies() {
    let store = compass::policy_store::InMemoryPolicyStore::new();
    assert!(store.list_active_users().is_empty());
}

#[test]
fn policy_status_codes() {
    assert_eq!(compass::policy_store::status_to_str(PolicyStatus::Active), "active");
    assert_eq!(compass::policy_store::status_to_str(PolicyStatus::Paused), "paused");
}

// ------------------------------------------------------------- position

fn position_with_idle(amount: u64) -> Position {
    Position {
        holdings: vec![Holding { venue: VenueRef { chain: ChainId::Arc, protocol: ProtocolId::Idle }, amount: [amount, 0, 0, 0] }],
        last_action_at: Vec::new(),
        actions_today: 0,
    }
}

#[test]
fn empty_for_unknown_user() {
    let store = InMemoryPositionStore::new();
    assert!(store.get(repeat_byte(0)).is_none());
}

#[test]
fn position_put_then_get_round_trip() {
    let mut store = InMemoryPositionStore::new();
    let u = repeat_byte(0x11);
    store.put(u, position_with_idle(5_000));
    assert_eq!(store.get(u).unwrap().holdings[0].amount[0], 5_000);
}

#[test]
fn put_overwrites_existing() {
    let mut store = InMemoryPositionStore::new();
    let u = repeat_byte(0x22);
    store.put(u, position_with_idle(1));
    store.put(u, position_with_idle(2));
    assert_eq!(store.get(u).unwrap().holdings[0].amount[0], 2);
}

#[test]
fn isolates_users() {
    let mut store = InMemoryPositionStore::new();
    let u1 = repeat_byte(0x33);
    let u2 = repeat_byte(0x44);
    store.put(u1, position_with_idle(10));
    store.put(u2, position_with_idle(20));
    assert_eq!(store.get(u1).unwrap().holdings[0].amount[0], 10);
    assert_eq!(store.get(u2).unwrap().holdings[0].amount[0], 20);
}

#[test]
fn fetched_position_keeps_non_empty_holdings_in_order() {
    let p = fetched_position([7, 0, 0, 0], [0; 4], [9, 0, 0, 0]);
    assert_eq!(p.holdings.len(), 2);
    assert_eq!(p.holdings[0].venue, VenueRef { chain: ChainId::Arc, protocol: ProtocolId::Idle });
    assert_eq!(p.holdings[0].amount[0], 7);
    assert_eq!(
        p.holdings[1].venue,
        VenueRef { chain: ChainId::ArbitrumSepolia, protocol: ProtocolId::AaveV3 }
    );
    assert_eq!(p.holdings[1].amount[0], 9);
    assert!(p.last_action_at.is_empty());
    assert_eq!(p.actions_today, 0);
    assert!(fetched_position([0; 4], [0; 4], [0; 4]).holdings.is_empty());
}

// -------------------------------------------------------- session cache

#[test]
fn session_cache_fresh_then_stale() {
    let mut cache = InMemorySessionCacheStore::new();
    let u = repeat_byte(0x91);
    cache.put(u, "{\"ready\":true}".to_string(), now());
    assert_eq!(cache.get_fresh(u, now()).as_deref(), Some("{\"ready\":true}"));
    assert_eq!(cache.get_fresh(u, now() + 30 * SECOND).as_deref(), Some("{\"ready\":true}"));
    assert!(cache.get_fresh(u, now() + 31 * SECOND).is_none());
    assert!(cache.get_fresh(repeat_byte(0x92), now()).is_none());
}

#[test]
fn session_cache_invalidate_and_overwrite() {
    let mut cache = InMemorySessionCacheStore::new();
    let u = repeat_byte(0x93);
    let v = repeat_byte(0x94);
    cache.put(u, "a".to_string(), now());
    cache.put(v, "b".to_string(), now());
    cache.put(u, "c".to_string(), now() + SECOND);
    assert_eq!(cache.get_fresh(u, now() + SECOND).as_deref(), Some("c"));
    cache.invalidate(u);
    assert!(cache.get_fresh(u, now() + SECOND).is_none());
    assert_eq!(cache.get_fresh(v, now() + SECOND).as_deref(), Some("b"));
}

// --------------------------------------------------------- chat history

fn turn(user: UserAddress, role: ChatRole, text: &str) -> NewChatTurn {
    NewChatTurn { user, role, text: text.to_string(), trace: None }
}

#[test]
fn chat_history_keeps_last_turns_per_user() {
    let mut store = InMemoryChatHistoryStore::new();
    let u = repeat_byte(0xa1);
    let v = repeat_byte(0xa2);
    let id1 = store.append(turn(u, ChatRole::User, "hi"), now());
    let id2 = store.append(turn(v, ChatRole::User, "other"), now());
    let id3 = store.append(turn(u, ChatRole::Assistant, "hello"), now() + SECOND);
    assert_eq!((id1, id2, id3), (1, 2, 3));
    let all = store.list_for_user(u, 10);
    assert_eq!(all.len(), 2);
    assert_eq!(all[0].text, "hi");
    assert_eq!(all[1].text, "hello");
    let last = store.list_for_user(u, 1);
    assert_eq!(last.len(), 1);
    assert_eq!(last[0].role, ChatRole::Assistant);
    store.clear_for_user(u);
    assert!(store.list_for_user(u, 10).is_empty());
    assert_eq!(store.list_for_user(v, 10).len(), 1);
}
