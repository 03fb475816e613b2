//! What the engine reports of a user's smart accounts: balances, earnings
//! and the sweep of Arc USDC back to the user's wallet.
use vstd::prelude::*;

use crate::funding::{FundingKind, NewFundingEvent};
use crate::model::{Amount, ChainId, UnixNanos, UserAddress, amount_u64, is_positive};
use crate::outside::{
    lemma_u256_value_bound, lemma_u256_zero, u256_add, u256_div, u256_ge, u256_modulus, u256_mul, u256_rem,
    u256_sub, u256_text, u256_value,
};
use crate::text::{decimal, decimal_text, hex_text, push_decimal, push_decimal_padded, zero_padded};

verus! {

/// Raw units of USDC in one USDC.
pub const USDC_UNIT: u64 = 1_000_000;

/// The share, in percent, of positive earnings that the engine keeps.
pub const PERFORMANCE_FEE_PCT: u32 = 0;

/// `raw` USDC units as whole USDC, a point and six decimals.
pub open spec fn usdc_text(raw: nat) -> Seq<char> {
    decimal_text(raw / 1_000_000) + "."@ + zero_padded(decimal_text(raw % 1_000_000), 6)
}

/// Formats raw USDC units as whole USDC with six decimals, such as `1.500000`.
pub fn format_usdc(raw: Amount) -> (r: String)
    ensures
        r@ == usdc_text(u256_value(raw@)),
{
    let unit = amount_u64(USDC_UNIT);
    let whole = u256_div(raw, unit);
    let frac = u256_rem(raw, unit);
    let frac_small: u128 = frac[0] as u128;
    proof {
        lemma_u256_zero(seq![0u64, frac@[1], frac@[2], frac@[3]]);
        let b = crate::outside::limb_base();
        assert(u256_value(frac@) < 1_000_000);
        assert(frac@[1] == 0 && frac@[2] == 0 && frac@[3] == 0) by (nonlinear_arith)
            requires
                b == 0x1_0000_0000_0000_0000nat,
                u256_value(frac@) == frac@[0] as nat + frac@[1] as nat * b + frac@[2] as nat * (b * b)
                    + frac@[3] as nat * (b * b * b),
                u256_value(frac@) < 1_000_000,
        ;
        assert(u256_value(frac@) == frac@[0]);
    }
    let mut out = u256_text(whole);
    out.append(".");
    push_decimal_padded(frac_small, 6, &mut out);
    out
}

/// The USDC held by a user's smart accounts on both chains.
#[derive(Debug)]
pub struct BalanceResponse {
    pub user: String,
    pub smart_account: String,
    pub arc_usdc_6dec: String,
    pub arbitrum_sepolia_usdc_6dec: String,
    pub arc_usdc: String,
    pub arbitrum_sepolia_usdc: String,
    pub has_funds: bool,
}

/// The balance report: raw and formatted balances, the Arc smart account,
/// and whether either chain holds any USDC.
pub fn balance_response(
    user: UserAddress,
    smart_account: UserAddress,
    arc_balance: Amount,
    arbitrum_balance: Amount,
) -> (r: BalanceResponse)
    ensures
        r.user@ == "0x"@ + hex_text(user@),
        r.smart_account@ == "0x"@ + hex_text(smart_account@),
        r.arc_usdc_6dec@ == decimal_text(u256_value(arc_balance@)),
        r.arbitrum_sepolia_usdc_6dec@ == decimal_text(u256_value(arbitrum_balance@)),
        r.arc_usdc@ == usdc_text(u256_value(arc_balance@)),
        r.arbitrum_sepolia_usdc@ == usdc_text(u256_value(arbitrum_balance@)),
        r.has_funds == (u256_value(arc_balance@) > 0 || u256_value(arbitrum_balance@) > 0),
{
    BalanceResponse {
        user: user.text(),
        smart_account: smart_account.text(),
        arc_usdc_6dec: u256_text(arc_balance),
        arbitrum_sepolia_usdc_6dec: u256_text(arbitrum_balance),
        arc_usdc: format_usdc(arc_balance),
        arbitrum_sepolia_usdc: format_usdc(arbitrum_balance),
        has_funds: is_positive(arc_balance) || is_positive(arbitrum_balance),
    }
}

/// What a user has earned: current value against what they put in.
#[derive(Debug)]
pub struct EarningsResponse {
    pub user: String,
    pub smart_account: String,
    pub net_deposited_6dec: String,
    pub current_value_6dec: String,
    pub gross_earned_6dec: String,
    pub performance_fee_pct: u32,
    pub fee_6dec: String,
    pub net_earned_6dec: String,
}

/// Signed decimal text: a `-` before the magnitude of a negative value.
pub open spec fn signed_text(v: int) -> Seq<char> {
    if v >= 0 {
        decimal_text(v as nat)
    } else {
        "-"@ + decimal_text((-v) as nat)
    }
}

/// The fee on a positive gross gain: the gain times the fee percentage,
/// modulo `2^256`, over 100.
pub open spec fn fee_of(gross: nat) -> nat {
    (gross * PERFORMANCE_FEE_PCT as nat) % u256_modulus() / 100
}

/// The earnings report: the value now held (Arc USDC, Arbitrum USDC and
/// the AAVE position, added as 256-bit numbers) against the net deposits;
/// the fee is taken from a gain only, and a loss is reported as it is.
pub fn earnings_response(
    user: UserAddress,
    smart_account: UserAddress,
    net_deposited: Amount,
    arc_balance: Amount,
    arbitrum_balance: Amount,
    aave_balance: Amount,
) -> (r: EarningsResponse)
    ensures
        ({
            let m = u256_modulus();
            let current = ((u256_value(arc_balance@) + u256_value(arbitrum_balance@)) % m + u256_value(
                aave_balance@,
            )) % m;
            let net = u256_value(net_deposited@);
            let gross = current - net;
            &&& r.user@ == "0x"@ + hex_text(user@)
            &&& r.smart_account@ == "0x"@ + hex_text(smart_account@)
            &&& r.net_deposited_6dec@ == decimal_text(net)
            &&& r.current_value_6dec@ == decimal_text(current)
            &&& r.gross_earned_6dec@ == signed_text(gross)
            &&& r.performance_fee_pct == PERFORMANCE_FEE_PCT
            &&& gross >= 0 ==> r.fee_6dec@ == decimal_text(fee_of(gross as nat))
                && r.net_earned_6dec@ == decimal_text(((gross - fee_of(gross as nat)) % (m as int)) as nat)
            &&& gross < 0 ==> r.fee_6dec@ == decimal_text(0) && r.net_earned_6dec@ == signed_text(gross)
        }),
{
    let current = u256_add(u256_add(arc_balance, arbitrum_balance), aave_balance);
    proof {
        lemma_u256_value_bound(net_deposited@);
        lemma_u256_value_bound(current@);
    }
    let ghost c = u256_value(current@);
    let ghost n = u256_value(net_deposited@);
    let (gross_text, fee, net_text) = if u256_ge(current, net_deposited) {
        let gross = u256_sub(current, net_deposited);
        assert(u256_value(gross@) == c - n) by {
            vstd::arithmetic::div_mod::lemma_small_mod((c - n) as nat, u256_modulus());
        }
        let fee = u256_div(u256_mul(gross, amount_u64(PERFORMANCE_FEE_PCT as u64)), amount_u64(100));
        assert(u256_value(fee@) == fee_of((c - n) as nat));
        let net = u256_sub(gross, fee);
        (u256_text(gross), fee, u256_text(net))
    } else {
        let mut g = String::from_str("-");
        let loss = u256_sub(net_deposited, current);
        assert(u256_value(loss@) == n - c) by {
            vstd::arithmetic::div_mod::lemma_small_mod((n - c) as nat, u256_modulus());
        }
        g.append(u256_text(loss).as_str());
        let nt = g.clone();
        (g, amount_u64(0), nt)
    };
    EarningsResponse {
        user: user.text(),
        smart_account: smart_account.text(),
        net_deposited_6dec: u256_text(net_deposited),
        current_value_6dec: u256_text(current),
        gross_earned_6dec: gross_text,
        performance_fee_pct: PERFORMANCE_FEE_PCT,
        fee_6dec: u256_text(fee),
        net_earned_6dec: net_text,
    }
}

/// The sweep of a smart account's Arc USDC to the user's wallet.
#[derive(Debug)]
pub struct SendToWalletResponse {
    pub user: String,
    pub smart_account: String,
    pub balance_before_6dec: String,
    pub sent_6dec: String,
    pub tx_hash: Option<String>,
}

/// Whether a sweep sends anything: only a positive balance is sent.
pub fn sweep_needed(balance_before: Amount) -> (r: bool)
    ensures
        r == (u256_value(balance_before@) > 0),
{
    is_positive(balance_before)
}

/// The sweep report: the whole balance found is what was sent, with the
/// transfer's hash when there was one.
pub fn send_to_wallet_response(
    user: UserAddress,
    smart_account: UserAddress,
    balance_before: Amount,
    tx_hash: Option<String>,
) -> (r: SendToWalletResponse)
    ensures
        r.user@ == "0x"@ + hex_text(user@),
        r.smart_account@ == "0x"@ + hex_text(smart_account@),
        r.balance_before_6dec@ == decimal_text(u256_value(balance_before@)),
        r.sent_6dec@ == decimal_text(u256_value(balance_before@)),
        r.tx_hash == tx_hash,
{
    SendToWalletResponse {
        user: user.text(),
        smart_account: smart_account.text(),
        balance_before_6dec: u256_text(balance_before),
        sent_6dec: u256_text(balance_before),
        tx_hash,
    }
}

/// The funding event that records a sweep: a withdrawal to the user's
/// wallet on Arc of the whole balance, under the transfer's hash.
pub fn sweep_event(user: UserAddress, sent: Amount, tx_hash: String, now: UnixNanos) -> (r:
    NewFundingEvent)
    ensures
        r == (NewFundingEvent {
            ts: now,
            user,
            chain: ChainId::Arc,
            kind: FundingKind::WithdrawToEoa,
            amount: sent,
            tx_hash,
        }),
{
    NewFundingEvent::new(user, ChainId::Arc, FundingKind::WithdrawToEoa, sent, tx_hash, now)
}

} // verus!
