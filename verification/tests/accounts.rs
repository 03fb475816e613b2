use compass::accounts::{
    balance_response, earnings_response, format_usdc, send_to_wallet_response, sweep_event, sweep_needed,
    PERFORMANCE_FEE_PCT,
};
use compass::funding::FundingKind;
use compass::model::{ChainId, UserAddress};
use compass::session::{
    diamond_status, expiry_from_read, paymaster_address, session_expiry, session_status, validate_init,
    ChainProbe, InitAddresses, SetupError, ACCOUNT_SALT,
};

fn addr(b: u8) -> UserAddress {
    UserAddress::from_bytes([b; 20])
}

fn text(b: u8) -> String {
    format!("0x{}", format!("{b:02x}").repeat(20))
}

#[test]
fn usdc_amounts_formatted_with_six_decimals() {
    assert_eq!(format_usdc(big(0)), "0.000000");
    assert_eq!(format_usdc(big(1_500_000)), "1.500000");
    assert_eq!(format_usdc(big(42)), "0.000042");
    assert_eq!(format_usdc(big(123_456_789_012)), "123456.789012");
}

#[test]
fn balance_report() {
    let r = balance_response(addr(1), addr(2), big(2_500_000), big(0));
    assert_eq!(r.user, text(1));
    assert_eq!(r.smart_account, text(2));
    assert_eq!(r.arc_usdc_6dec, "2500000");
    assert_eq!(r.arbitrum_sepolia_usdc_6dec, "0");
    assert_eq!(r.arc_usdc, "2.500000");
    assert_eq!(r.arbitrum_sepolia_usdc, "0.000000");
    assert!(r.has_funds);
    assert!(!balance_response(addr(1), addr(2), big(0), big(0)).has_funds);
    assert!(balance_response(addr(1), addr(2), big(0), big(1)).has_funds);
}

#[test]
fn earnings_gain() {
    let r = earnings_response(addr(3), addr(4), big(1_000_000), big(500_000), big(200_000), big(400_000));
    assert_eq!(r.net_deposited_6dec, "1000000");
    assert_eq!(r.current_value_6dec, "1100000");
    assert_eq!(r.gross_earned_6dec, "100000");
    assert_eq!(r.performance_fee_pct, PERFORMANCE_FEE_PCT);
    assert_eq!(r.fee_6dec, "0");
    assert_eq!(r.net_earned_6dec, "100000");
    assert_eq!(r.user, text(3));
    assert_eq!(r.smart_account, text(4));
}

#[test]
fn earnings_loss_is_reported_negative() {
    let r = earnings_response(addr(3), addr(4), big(1_000_000), big(900_000), big(0), big(0));
    assert_eq!(r.gross_earned_6dec, "-100000");
    assert_eq!(r.fee_6dec, "0");
    assert_eq!(r.net_earned_6dec, "-100000");
}

#[test]
fn sweep_report_and_event() {
    assert!(!sweep_needed(big(0)));
    assert!(sweep_needed(big(1)));
    let empty = send_to_wallet_response(addr(5), addr(6), big(0), None);
    assert_eq!(empty.balance_before_6dec, "0");
    assert_eq!(empty.sent_6dec, "0");
    assert!(empty.tx_hash.is_none());
    let done = send_to_wallet_response(addr(5), addr(6), big(7_000_000), Some("0xab".to_string()));
    assert_eq!(done.balance_before_6dec, "7000000");
    assert_eq!(done.sent_6dec, "7000000");
    assert_eq!(done.tx_hash.as_deref(), Some("0xab"));
    let e = sweep_event(addr(5), big(7_000_000), "0xab".to_string(), 11);
    assert_eq!(e.chain, ChainId::Arc);
    assert_eq!(e.kind, FundingKind::WithdrawToEoa);
    assert_eq!(e.amount, big(7_000_000));
    assert_eq!(e.tx_hash, "0xab");
    assert_eq!(e.ts, 11);
}

#[test]
fn session_status_ready_only_with_both_sessions() {
    let arc = ChainProbe { address: addr(7), deployed: true, session: Some((true, 1_000)) };
    let arb = ChainProbe { address: addr(7), deployed: true, session: Some((true, 2_000)) };
    let s = session_status(addr(1), addr(9), &arc, &arb);
    assert!(s.ready);
    assert!(s.addresses_match);
    assert_eq!(s.salt, ACCOUNT_SALT);
    assert_eq!(s.arc.chain, "arc");
    assert_eq!(s.arbitrum_sepolia.chain, "arbitrum_sepolia");
    assert_eq!(s.arc.session_expires_at, 1_000);
    assert_eq!(s.agent, text(9));
    let undeployed = ChainProbe { address: addr(8), deployed: false, session: Some((true, 5)) };
    let s = session_status(addr(1), addr(9), &arc, &undeployed);
    assert!(!s.ready);
    assert!(!s.addresses_match);
    assert!(!s.arbitrum_sepolia.session_valid);
    assert_eq!(s.arbitrum_sepolia.session_expires_at, 0);
    let unread = ChainProbe { address: addr(7), deployed: true, session: None };
    let d = diamond_status(ChainId::Arc, &unread);
    assert!(d.deployed && !d.session_valid);
    assert_eq!(d.address, text(7));
}

#[test]
fn session_expiry_and_read() {
    assert_eq!(session_expiry(1_700_000_000), 1_700_086_400);
    assert_eq!(expiry_from_read(Some([77, 0, 0, 0])), 77);
    assert_eq!(expiry_from_read(Some([77, 1, 0, 0])), 0);
    assert_eq!(expiry_from_read(None), 0);
}

#[test]
fn init_addresses_checked() {
    let zero = UserAddress { hi: 0, mid: 0, lo: 0 };
    let good = InitAddresses {
        entry_point: addr(1),
        usdc: addr(2),
        gateway_wallet: addr(3),
        gateway_minter: addr(4),
        aave_pool: zero,
        upgrade_authority: addr(5),
        paymaster: zero,
    };
    assert!(validate_init(&good).is_ok());
    let no_entry = InitAddresses { entry_point: zero, usdc: zero, ..good };
    assert!(matches!(validate_init(&no_entry), Err(SetupError::ZeroEntryPoint)));
    let no_usdc = InitAddresses { usdc: zero, ..good };
    assert!(matches!(validate_init(&no_usdc), Err(SetupError::ZeroUsdc)));
}

#[test]
fn paymaster_defaults_to_zero() {
    assert_eq!(paymaster_address(&None, "ARC_PAYMASTER").ok(), Some(UserAddress { hi: 0, mid: 0, lo: 0 }));
    let set = Some("0x3333333333333333333333333333333333333333".to_string());
    assert_eq!(paymaster_address(&set, "ARC_PAYMASTER").ok(), Some(addr(0x33)));
    match paymaster_address(&Some("nope".to_string()), "ARC_PAYMASTER") {
        Err(SetupError::BadAddress { setting }) => assert_eq!(setting, "ARC_PAYMASTER"),
        other => panic!("expected a bad address, got {other:?}"),
    }
}

#[test]
fn session_expiry_reads_the_instant_as_unsigned() {
    assert_eq!(session_expiry(-100_000), (-100_000i64 as u64).wrapping_add(86_400));
}

fn big(v: u64) -> [u64; 4] {
    [v, 0, 0, 0]
}

#[test]
fn balances_beyond_64_bits() {
    let huge = [0, 0, 1, 0];
    let r = balance_response(addr(1), addr(2), huge, big(0));
    assert_eq!(r.arc_usdc_6dec, "340282366920938463463374607431768211456");
    assert_eq!(r.arc_usdc, "340282366920938463463374607431768.211456");
    assert!(r.has_funds);
    let e = earnings_response(addr(3), addr(4), big(1), huge, big(0), big(0));
    assert_eq!(e.gross_earned_6dec, "340282366920938463463374607431768211455");
}
