use compass::funding::FundingKind;
use compass::model::{ChainId, UserAddress};
use compass::requests::{
    parse_hex_amount, parse_user_address, funded_response, parse_chain, parse_kind, parse_recover_amount, prepare_funding, strategy_message,
    strategy_user, FundedRequest, RequestError, StrategyRequest,
};

fn user() -> UserAddress {
    UserAddress::from_bytes([0x11; 20])
}

fn req(chain: &str, kind: &str, amount: &str, tx: &str) -> FundedRequest {
    FundedRequest {
        chain: chain.to_string(),
        kind: kind.to_string(),
        amount_6dec: amount.to_string(),
        tx_hash: tx.to_string(),
    }
}

#[test]
fn parse_chain_and_kind() {
    assert_eq!(parse_chain("arc").ok(), Some(ChainId::Arc));
    assert_eq!(parse_chain("arbitrum_sepolia").ok(), Some(ChainId::ArbitrumSepolia));
    assert_eq!(parse_chain("base").err().map(|e| e.message()), Some("unknown chain: base".to_string()));
    assert_eq!(parse_kind("deposit").ok(), Some(FundingKind::Deposit));
    assert_eq!(parse_kind("withdraw_to_eoa").ok(), Some(FundingKind::WithdrawToEoa));
    assert_eq!(parse_kind("withdraw").err().map(|e| e.message()), Some("unknown kind: withdraw".to_string()));
}

#[test]
fn funding_report_becomes_event() {
    let r = req("arbitrum_sepolia", "deposit", "1500000", "  0xfeed \n");
    let e = prepare_funding(user(), &r, 99).ok().unwrap();
    assert_eq!(e.user, user());
    assert_eq!(e.chain, ChainId::ArbitrumSepolia);
    assert_eq!(e.kind, FundingKind::Deposit);
    assert_eq!(e.amount, [1_500_000, 0, 0, 0]);
    assert_eq!(e.tx_hash, "0xfeed");
    assert_eq!(e.ts, 99);
    let resp = funded_response(5, r, &e);
    assert_eq!(resp.id, 5);
    assert_eq!(resp.user, format!("0x{}", "11".repeat(20)));
    assert_eq!(resp.chain, "arbitrum_sepolia");
    assert_eq!(resp.kind, "deposit");
    assert_eq!(resp.amount_6dec, "1500000");
    assert_eq!(resp.tx_hash, "0xfeed");
}

#[test]
fn funding_amount_in_hex() {
    let e = prepare_funding(user(), &req("arc", "withdraw_to_eoa", "0x10", "0x1"), 0).ok().unwrap();
    assert_eq!(e.amount, [16, 0, 0, 0]);
}

#[test]
fn funding_report_refusals_in_order() {
    let refusal = |r: FundedRequest| prepare_funding(user(), &r, 0).err().unwrap().message();
    assert_eq!(refusal(req("eth", "nope", "x", "")), "unknown chain: eth");
    assert_eq!(refusal(req("arc", "nope", "x", "")), "unknown kind: nope");
    assert_eq!(refusal(req("arc", "deposit", "12abc", "")), "bad amount_6dec");
    // Any 256-bit amount is recorded.
    assert_eq!(
        prepare_funding(user(), &req("arc", "deposit", "18446744073709551616", "0x1"), 0).ok().map(|e| e.amount),
        Some([0, 1, 0, 0])
    );
    assert_eq!(refusal(req("arc", "deposit", "5", "   ")), "tx_hash required");
    assert!(matches!(
        prepare_funding(user(), &req("arc", "deposit", "5", ""), 0),
        Err(RequestError::TxHashRequired)
    ));
}

#[test]
fn recover_amount_decimal_then_hex() {
    assert_eq!(parse_recover_amount("1000000").ok(), Some([1_000_000, 0, 0, 0]));
    // Not decimal: read in base 16 after the prefix.
    assert_eq!(parse_recover_amount("0xff").ok(), Some([255, 0, 0, 0]));
    // Decimal digits after the prefix are read in base 10.
    assert_eq!(parse_recover_amount("0x10").ok(), Some([10, 0, 0, 0]));
    assert!(matches!(parse_recover_amount("0"), Err(RequestError::AmountNotPositive)));
    assert!(matches!(parse_recover_amount("0x0"), Err(RequestError::AmountNotPositive)));
    assert!(matches!(parse_recover_amount("xyz"), Err(RequestError::BadRecoverAmount)));
    assert_eq!(
        parse_recover_amount("100000000000000000000").ok(),
        Some([0x6bc7_5e2d_6310_0000, 5, 0, 0])
    );
}

#[test]
fn strategy_request_fields() {
    let r = StrategyRequest {
        user: "0x2222222222222222222222222222222222222222".to_string(),
        risk: None,
        message: None,
    };
    assert_eq!(strategy_user(&r).ok(), Some(UserAddress::from_bytes([0x22; 20])));
    assert_eq!(strategy_message(r, "default plan"), "default plan");
    let bad = StrategyRequest { user: "0x22".to_string(), risk: None, message: Some("mine".to_string()) };
    assert!(matches!(strategy_user(&bad), Err(RequestError::BadUserAddress)));
    assert_eq!(strategy_message(bad, "default plan"), "mine");
}

#[test]
fn funding_amount_forms_the_parser_reads() {
    let amount = |a: &str| prepare_funding(user(), &req("arc", "deposit", a, "0x1"), 0).map(|e| e.amount[0]);
    assert_eq!(amount("1_000").ok(), Some(1000));
    assert_eq!(amount("0o17").ok(), Some(15));
    assert_eq!(amount("0B101").ok(), Some(5));
    assert_eq!(amount("0XfF").ok(), Some(255));
    assert_eq!(amount("").ok(), Some(0));
    assert!(matches!(amount("0b102"), Err(RequestError::BadAmount)));
    assert!(matches!(amount("-1"), Err(RequestError::BadAmount)));
}

#[test]
fn user_address_forms_the_parser_reads() {
    let user_of = |u: &str| {
        strategy_user(&StrategyRequest { user: u.to_string(), risk: None, message: None }).ok()
    };
    let mut bytes = [0u8; 20];
    bytes[0] = 0xab;
    bytes[19] = 0x0c;
    let digits = format!("aB{}0C", "0".repeat(36));
    assert_eq!(user_of(&digits), Some(UserAddress::from_bytes(bytes)));
    assert_eq!(user_of(&format!("0X{}", digits)), Some(UserAddress::from_bytes(bytes)));
    assert_eq!(user_of(&format!("0x{}0", digits)), None);
    assert_eq!(user_of(&format!("0x{}", "g".repeat(40))), None);
}

#[test]
fn hex_amounts_and_user_addresses() {
    assert_eq!(parse_hex_amount("0xff").ok(), Some([255, 0, 0, 0]));
    assert_eq!(parse_hex_amount("ff").ok(), Some([255, 0, 0, 0]));
    assert!(matches!(parse_hex_amount("0x0xff"), Err(RequestError::BadAmount)));
    assert_eq!(parse_hex_amount("0x1_0000_0000_0000_0000").ok(), Some([0, 1, 0, 0]));
    assert_eq!(parse_user_address(&"33".repeat(20)), Some(UserAddress::from_bytes([0x33; 20])));
    assert_eq!(parse_user_address("0x33"), None);
}
