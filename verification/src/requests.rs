//! Requests that reach the engine over HTTP: what each is checked for, in
//! which order, and what it becomes.
use vstd::prelude::*;

use crate::funding::{chain_named, kind_named, FundingKind, NewFundingEvent};
use crate::model::{Amount, ChainId, UnixNanos, UserAddress};
use crate::outside::{
    address_from_str, parse_address, parse_u256, parse_u256_radix, u256_from_str,
    u256_from_str_radix, u256_text, u256_value,
};
use crate::text::{
    decimal, decimal_text, str_eq, strip_leading, strip_once, strip_prefix_once, trim, trim_start_matches,
    trimmed,
};

verus! {

/// Why a request was refused.
#[derive(Debug)]
pub enum RequestError {
    /// The chain name is neither `arc` nor `arbitrum_sepolia`.
    UnknownChain { name: String },
    /// The funding kind is neither `deposit` nor `withdraw_to_eoa`.
    UnknownKind { name: String },
    /// `amount_6dec` is not a 256-bit unsigned number.
    BadAmount,
    /// `tx_hash` is empty or blank.
    TxHashRequired,
    /// The recovery amount is a number in neither base 10 nor base 16.
    BadRecoverAmount,
    /// The recovery amount is zero.
    AmountNotPositive,
    /// The user is not 40 hexadecimal digits after an optional `0x`.
    BadUserAddress,
}

impl RequestError {
    /// The text of the refusal.
    pub open spec fn message_spec(&self) -> Seq<char> {
        match self {
            RequestError::UnknownChain { name } => "unknown chain: "@ + name@,
            RequestError::UnknownKind { name } => "unknown kind: "@ + name@,
            RequestError::BadAmount => "bad amount_6dec"@,
            RequestError::TxHashRequired => "tx_hash required"@,
            RequestError::BadRecoverAmount => "bad amount"@,
            RequestError::AmountNotPositive => "amount must be > 0"@,
            RequestError::BadUserAddress => "bad user address"@,
        }
    }

    /// The text of the refusal.
    pub fn message(&self) -> (r: String)
        ensures
            r@ == self.message_spec(),
    {
        match self {
            RequestError::UnknownChain { name } => {
                let mut m = String::from_str("unknown chain: ");
                m.append(name.as_str());
                m
            },
            RequestError::UnknownKind { name } => {
                let mut m = String::from_str("unknown kind: ");
                m.append(name.as_str());
                m
            },
            RequestError::BadAmount => String::from_str("bad amount_6dec"),
            RequestError::TxHashRequired => String::from_str("tx_hash required"),
            RequestError::BadRecoverAmount => String::from_str("bad amount"),
            RequestError::AmountNotPositive => String::from_str("amount must be > 0"),
            RequestError::BadUserAddress => String::from_str("bad user address"),
        }
    }
}

/// The chain a request names: `arc` or `arbitrum_sepolia`.
pub fn parse_chain(s: &str) -> (r: Result<ChainId, RequestError>)
    ensures
        chain_named(s@) matches Some(c) ==> r == Ok::<ChainId, RequestError>(c),
        chain_named(s@) is None ==> (r matches Err(RequestError::UnknownChain { name }) && name@ == s@),
{
    if str_eq(s, "arc") {
        Ok(ChainId::Arc)
    } else if str_eq(s, "arbitrum_sepolia") {
        Ok(ChainId::ArbitrumSepolia)
    } else {
        Err(RequestError::UnknownChain { name: s.to_owned() })
    }
}

/// The funding kind a request names: `deposit` or `withdraw_to_eoa`.
pub fn parse_kind(s: &str) -> (r: Result<FundingKind, RequestError>)
    ensures
        kind_named(s@) matches Some(k) ==> r == Ok::<FundingKind, RequestError>(k),
        kind_named(s@) is None ==> (r matches Err(RequestError::UnknownKind { name }) && name@ == s@),
{
    if str_eq(s, "deposit") {
        Ok(FundingKind::Deposit)
    } else if str_eq(s, "withdraw_to_eoa") {
        Ok(FundingKind::WithdrawToEoa)
    } else {
        Err(RequestError::UnknownKind { name: s.to_owned() })
    }
}

/// Four little-endian 64-bit limbs hold zero.
pub open spec fn limbs_zero(l: Seq<u64>) -> bool {
    l.len() == 4 && l[0] == 0 && l[1] == 0 && l[2] == 0 && l[3] == 0
}

/// A report, from a user's wallet, of a transfer into or out of their smart
/// account.
#[derive(Debug)]
pub struct FundedRequest {
    pub chain: String,
    pub kind: String,
    pub amount_6dec: String,
    pub tx_hash: String,
}

/// What a funding report names, checked in order: the chain, the kind,
/// the amount (decimal, or `0x`, `0o`, `0b` prefixed, as `U256::from_str`
/// reads it), the transaction hash (not blank).
pub open spec fn funding_request_check(req: FundedRequest) -> Result<
    (ChainId, FundingKind, Seq<u64>),
    RequestError,
> {
    match chain_named(req.chain@) {
        None => Err(RequestError::UnknownChain { name: req.chain }),
        Some(chain) => match kind_named(req.kind@) {
            None => Err(RequestError::UnknownKind { name: req.kind }),
            Some(kind) => match u256_from_str(req.amount_6dec@) {
                None => Err(RequestError::BadAmount),
                Some(l) => if trimmed(req.tx_hash@).len() == 0 {
                    Err(RequestError::TxHashRequired)
                } else {
                    Ok((chain, kind, l))
                },
            },
        },
    }
}

/// `b` is the refusal `a`: the same variant, naming the same text.
pub open spec fn same_refusal(a: RequestError, b: RequestError) -> bool {
    match a {
        RequestError::UnknownChain { name } => b matches RequestError::UnknownChain { name: n } && n@
            == name@,
        RequestError::UnknownKind { name } => b matches RequestError::UnknownKind { name: n } && n@
            == name@,
        _ => a == b,
    }
}

/// Checks a funding report and turns it into the event to record, stamped
/// `now`; the event's transaction hash is the trimmed one.
pub fn prepare_funding(user: UserAddress, req: &FundedRequest, now: UnixNanos) -> (r: Result<
    NewFundingEvent,
    RequestError,
>)
    ensures
        funding_request_check(*req) matches Ok((chain, kind, amount)) ==> (r matches Ok(e) && e.ts
            == now && e.user == user && e.chain == chain && e.kind == kind && e.amount@ == amount
            && e.tx_hash@ == trimmed(req.tx_hash@)),
        funding_request_check(*req) matches Err(x) ==> (r matches Err(y) && same_refusal(x, y)),
{
    let chain = match parse_chain(req.chain.as_str()) {
        Ok(c) => c,
        Err(e) => return Err(e),
    };
    let kind = match parse_kind(req.kind.as_str()) {
        Ok(k) => k,
        Err(e) => return Err(e),
    };
    let limbs = match parse_u256(req.amount_6dec.as_str()) {
        Some(l) => l,
        None => return Err(RequestError::BadAmount),
    };
    let tx_hash = trim(req.tx_hash.as_str());
    if tx_hash.unicode_len() == 0 {
        return Err(RequestError::TxHashRequired);
    }
    Ok(NewFundingEvent::new(user, chain, kind, limbs, tx_hash.to_owned(), now))
}

/// The answer to a recorded funding report.
#[derive(Debug)]
pub struct FundedResponse {
    pub id: u64,
    pub user: String,
    pub chain: String,
    pub kind: String,
    pub amount_6dec: String,
    pub tx_hash: String,
}

/// The answer to a report recorded under `id`: the user's address, the
/// chain and kind as the report wrote them, the amount in decimal and the
/// trimmed transaction hash.
pub fn funded_response(id: u64, req: FundedRequest, event: &NewFundingEvent) -> (r: FundedResponse)
    ensures
        r.id == id,
        r.user@ == "0x"@ + crate::text::hex_text(event.user@),
        r.chain == req.chain,
        r.kind == req.kind,
        r.amount_6dec@ == decimal_text(u256_value(event.amount@)),
        r.tx_hash@ == event.tx_hash@,
{
    FundedResponse {
        id,
        user: event.user.text(),
        chain: req.chain,
        kind: req.kind,
        amount_6dec: u256_text(event.amount),
        tx_hash: event.tx_hash.clone(),
    }
}

/// A request to move USDC stranded in the gateway's escrow on to Arbitrum
/// Sepolia, and optionally to supply it into AAVE there.
#[derive(Debug)]
pub struct RecoverRequest {
    pub amount_6dec: String,
    pub then_supply_aave: bool,
}

/// The answer to a recovery: the signed intent's digest, the mint and, when
/// asked for, the AAVE supply.
#[derive(Debug)]
pub struct RecoverResponse {
    pub intent_digest: String,
    pub mint_tx: String,
    pub supply_tx: Option<String>,
}

/// The recovery amount: the text without its leading `0x` prefixes, read in
/// base 10, or else in base 16; it must not be zero.
pub open spec fn recover_amount_outcome(text: Seq<char>) -> Result<Seq<u64>, RequestError> {
    let t = strip_leading(text, "0x"@);
    let read = match u256_from_str_radix(t, 10) {
        Some(l) => Some(l),
        None => u256_from_str_radix(t, 16),
    };
    match read {
        None => Err(RequestError::BadRecoverAmount),
        Some(l) => if limbs_zero(l) {
            Err(RequestError::AmountNotPositive)
        } else {
            Ok(l)
        },
    }
}

/// Reads the amount of a recovery request as a 256-bit number (four
/// little-endian 64-bit limbs).
pub fn parse_recover_amount(text: &str) -> (r: Result<[u64; 4], RequestError>)
    ensures
        recover_amount_outcome(text@) matches Ok(l) ==> (r matches Ok(m) && m@ == l),
        recover_amount_outcome(text@) matches Err(e) ==> (r matches Err(f) && same_refusal(e, f)),
{
    let t = trim_start_matches(text, "0x");
    let read = match parse_u256_radix(t, 10) {
        Some(l) => Some(l),
        None => parse_u256_radix(t, 16),
    };
    match read {
        None => Err(RequestError::BadRecoverAmount),
        Some(l) => if l[0] == 0 && l[1] == 0 && l[2] == 0 && l[3] == 0 {
            Err(RequestError::AmountNotPositive)
        } else {
            Ok(l)
        },
    }
}

/// The address a text writes, as `Address::from_str` reads it.
pub fn parse_user_address(text: &str) -> (r: Option<UserAddress>)
    ensures
        match address_from_str(text@) {
            Some(b) => r matches Some(u) && u@ == b,
            None => r is None,
        },
{
    match parse_address(text) {
        Some(b) => Some(UserAddress::from_bytes(b)),
        None => None,
    }
}

/// What an amount written in hexadecimal, with or without one leading
/// `0x`, reads as: a 256-bit number, as four little-endian limbs.
pub open spec fn hex_amount_outcome(text: Seq<char>) -> Option<Seq<u64>> {
    u256_from_str_radix(strip_once(text, "0x"@), 16)
}

/// Reads an amount written in hexadecimal, with or without one leading `0x`.
pub fn parse_hex_amount(text: &str) -> (r: Result<Amount, RequestError>)
    ensures
        match hex_amount_outcome(text@) {
            Some(l) => r matches Ok(b) && b@ == l,
            None => r matches Err(RequestError::BadAmount),
        },
{
    let digits = strip_prefix_once(text, "0x");
    match parse_u256_radix(digits, 16) {
        None => Err(RequestError::BadAmount),
        Some(l) => Ok(l),
    }
}

/// A request to the strategy agent on behalf of a user.
#[derive(Debug)]
pub struct StrategyRequest {
    pub user: String,
    pub risk: Option<String>,
    pub message: Option<String>,
}

/// The user a strategy request names, read as an address.
pub fn strategy_user(req: &StrategyRequest) -> (r: Result<UserAddress, RequestError>)
    ensures
        address_from_str(req.user@) matches Some(b) ==> (r matches Ok(u) && u@ == b),
        address_from_str(req.user@) is None ==> r matches Err(RequestError::BadUserAddress),
{
    match parse_address(req.user.as_str()) {
        Some(b) => Ok(UserAddress::from_bytes(b)),
        None => Err(RequestError::BadUserAddress),
    }
}

/// The message a strategy request hands the agent: its own, or else the
/// default of the endpoint.
pub fn strategy_message(req: StrategyRequest, default: &str) -> (r: String)
    ensures
        req.message matches Some(m) ==> r == m,
        req.message is None ==> r@ == default@,
{
    match req.message {
        Some(m) => m,
        None => String::from_str(default),
    }
}

} // verus!
