use compass::audit::{event_type_from_str, event_type_to_str, row_to_event, AuditRow, EventType, RowError};
use compass::chat_history::ChatRole;
use compass::evaluator::{chain_name, protocol_name, EvaluatorThought};
use compass::funding::{kind_from_str, kind_to_str, FundingKind};
use compass::model::{ChainId, ProtocolId, UserAddress};
use compass::text::{decimal, parse_u64, str_contains, trim, trim_start_matches};

const ALL_EVENT_TYPES: [EventType; 12] = [
    EventType::TriggerFired,
    EventType::EvaluatorThought,
    EventType::EvaluatorDecision,
    EventType::RiskGateDecision,
    EventType::LlmEscalateIn,
    EventType::LlmEscalateOut,
    EventType::ExecutorActionStart,
    EventType::ExecutorSubstep,
    EventType::ExecutorActionDone,
    EventType::CircuitBreak,
    EventType::PolicyChange,
    EventType::SessionRevoke,
];

#[test]
fn event_type_codes_round_trip() {
    for et in ALL_EVENT_TYPES {
        assert_eq!(event_type_from_str(event_type_to_str(et)).ok(), Some(et));
    }
    assert_eq!(event_type_to_str(EventType::ExecutorActionStart), "executor_action_start");
    assert_eq!(event_type_from_str("nope").err().map(|u| u.text), Some("nope".to_string()));
}

#[test]
fn funding_codes_round_trip() {
    for c in [ChainId::Arc, ChainId::ArbitrumSepolia] {
        assert_eq!(compass::funding::chain_from_str(compass::funding::chain_to_str(c)).ok(), Some(c));
    }
    for k in [FundingKind::Deposit, FundingKind::WithdrawToEoa] {
        assert_eq!(kind_from_str(kind_to_str(k)).ok(), Some(k));
    }
    assert_eq!(compass::funding::chain_to_str(ChainId::ArbitrumSepolia), "arbitrum_sepolia");
    assert_eq!(kind_to_str(FundingKind::WithdrawToEoa), "withdraw_to_eoa");
    assert!(kind_from_str("Deposit").is_err());
}

#[test]
fn audit_chain_codes() {
    assert_eq!(compass::audit::chain_to_str(Some(ChainId::Arc)), Some("arc"));
    assert_eq!(compass::audit::chain_to_str(None), None);
    assert_eq!(compass::audit::chain_from_str(Some("arbitrum_sepolia".to_string())), Some(ChainId::ArbitrumSepolia));
    assert_eq!(compass::audit::chain_from_str(Some("mainnet".to_string())), None);
    assert_eq!(compass::audit::chain_from_str(None), None);
}

#[test]
fn chat_role_codes_round_trip() {
    for r in [ChatRole::User, ChatRole::Assistant] {
        assert_eq!(ChatRole::from_str(r.as_str()).ok(), Some(r));
    }
    assert!(ChatRole::from_str("system").is_err());
}

#[test]
fn venue_names() {
    assert_eq!(chain_name(ChainId::Arc), "Arc");
    assert_eq!(chain_name(ChainId::ArbitrumSepolia), "Arbitrum Sepolia");
    assert_eq!(protocol_name(ProtocolId::Idle), "Wallet");
    assert_eq!(protocol_name(ProtocolId::AaveV3), "AAVE v3");
    assert_eq!(EvaluatorThought::new("Session complete".to_string()).label, "Session complete");
}

fn row(user: &str, et: &str, chain: Option<&str>) -> AuditRow {
    AuditRow {
        id: 7,
        ts: 42,
        user_addr: user.to_string(),
        event_type: et.to_string(),
        policy_version: Some(3),
        payload: "{}".to_string(),
        tx_hash: Some("0xdead".to_string()),
        chain: chain.map(|c| c.to_string()),
        cost_usd: None,
    }
}

#[test]
fn stored_rows_read_back() {
    let addr = "0x1111111111111111111111111111111111111111";
    let e = row_to_event(row(addr, "executor_substep", Some("arc"))).ok().unwrap();
    assert_eq!(e.id, 7);
    assert_eq!(e.ts, 42);
    assert_eq!(e.user, UserAddress::from_bytes([0x11; 20]));
    assert_eq!(e.event_type, EventType::ExecutorSubstep);
    assert_eq!(e.policy_version, Some(3));
    assert_eq!(e.chain, Some(ChainId::Arc));
    assert_eq!(e.tx_hash.as_deref(), Some("0xdead"));
    let unknown_chain = row_to_event(row(addr, "trigger_fired", Some("solana"))).ok().unwrap();
    assert_eq!(unknown_chain.chain, None);
}

#[test]
fn stored_rows_refused() {
    match row_to_event(row("not an address", "trigger_fired", None)) {
        Err(RowError::BadUserAddress { text }) => assert_eq!(text, "not an address"),
        other => panic!("expected a bad user address, got {other:?}"),
    }
    let addr = "0x2222222222222222222222222222222222222222";
    match row_to_event(row(addr, "mystery", None)) {
        Err(RowError::UnknownEventType { text }) => assert_eq!(text, "mystery"),
        other => panic!("expected an unknown event type, got {other:?}"),
    }
}

#[test]
fn text_helpers_match_std() {
    for s in ["  a b  ", "\t\n", "", "x", " \u{3000}y\u{a0}"] {
        assert_eq!(trim(s), s.trim());
    }
    for s in ["0", "42", "+7", "-1", "", "+", "18446744073709551615", "18446744073709551616", "1a"] {
        assert_eq!(parse_u64(s), s.parse::<u64>().ok());
    }
    assert_eq!(trim_start_matches("0x0x12", "0x"), "12");
    assert_eq!(trim_start_matches("12", "0x"), "12");
    assert!(str_contains("error: Signer is not authorized for x", "Signer is not authorized"));
    assert!(!str_contains("signer", "Signer"));
    assert_eq!(decimal(0), "0");
    assert_eq!(decimal(1_000_000_007), "1000000007");
    assert_eq!(decimal(u128::MAX), u128::MAX.to_string());
}

#[test]
fn address_bytes_and_text() {
    let mut bytes = [0u8; 20];
    for (i, b) in bytes.iter_mut().enumerate() {
        *b = (i as u8) * 13 + 1;
    }
    let a = UserAddress::from_bytes(bytes);
    assert_eq!(a.to_bytes(), bytes);
    let expected: String = bytes.iter().map(|b| format!("{b:02x}")).collect();
    assert_eq!(a.text(), format!("0x{expected}"));
    assert_eq!(UserAddress::from_bytes([0xAB; 20]).text(), format!("0x{}", "ab".repeat(20)));
    assert_ne!(UserAddress::from_bytes([1; 20]), UserAddress::from_bytes([2; 20]));
}
