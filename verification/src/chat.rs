//! What the chat agent is handed: the user's recent turns and a summary of
//! their accounts.
use vstd::prelude::*;

use crate::accounts::{format_usdc, usdc_text};
use crate::model::is_positive;
use crate::chat_history::{ChatRole, ChatTurnRow};
use crate::model::{Amount, UserAddress};
use crate::outside::{u256_add, u256_modulus, u256_text, u256_value};
use crate::text::{decimal_text, hex_text, push_decimal, str_eq};

verus! {

/// Turns handed to the agent, and listed, when the request names no limit.
pub const DEFAULT_HISTORY_LIMIT: usize = 50;

/// Most turns a history listing returns.
pub const MAX_HISTORY_LIMIT: usize = 500;

/// The number of turns a history listing returns: the limit asked for, by
/// default 50, at most 500.
pub fn history_limit(asked: Option<usize>) -> (r: usize)
    ensures
        r == match asked {
            Some(n) => if n <= MAX_HISTORY_LIMIT {
                n
            } else {
                MAX_HISTORY_LIMIT
            },
            None => DEFAULT_HISTORY_LIMIT,
        },
{
    match asked {
        Some(n) => if n <= MAX_HISTORY_LIMIT {
            n
        } else {
            MAX_HISTORY_LIMIT
        },
        None => DEFAULT_HISTORY_LIMIT,
    }
}

/// The turns handed to the agent alongside a new message: the stored
/// turns, less the last one when it is that very message from the user
/// (it was stored just before).
pub fn agent_history(rows: Vec<ChatTurnRow>, message: &str) -> (r: Vec<ChatTurnRow>)
    ensures
        ({
            let n = rows@.len();
            if n > 0 && rows@[n - 1].role == ChatRole::User && rows@[n - 1].text@ == message@ {
                r@ == rows@.drop_last()
            } else {
                r@ == rows@
            }
        }),
{
    let mut rows = rows;
    let n = rows.len();
    if n > 0 && rows[n - 1].role == ChatRole::User && str_eq(rows[n - 1].text.as_str(), message) {
        rows.pop();
    }
    rows
}

/// The note added to the summary of an account without any USDC.
pub open spec fn fund_hint() -> Seq<char> {
    "\n\n**The user's smart account has 0 USDC on both chains.** If they want to start earning, tell them to fund their smart account first — do NOT call `commit_policy` until they have balance. Their wallet button in the UI has a Fund action."@
}

/// The summary of a user's accounts that the agent is given.
pub open spec fn live_state(user: UserAddress, account: UserAddress, arc: Amount, arbitrum: Amount) -> Seq<
    char,
> {
    "- **Wallet (EOA)**: `"@ + ("0x"@ + hex_text(user@))
        + "`\n- **Compass smart account** (same address on both chains): `"@ + ("0x"@ + hex_text(
        account@,
    )) + "`\n- **Arc USDC balance**: "@ + usdc_text(u256_value(arc@)) + " (raw 6-dec: "@ + decimal_text(
        u256_value(arc@),
    ) + ")\n- **Arbitrum Sepolia USDC balance**: "@ + usdc_text(u256_value(arbitrum@)) + " (raw 6-dec: "@
        + decimal_text(u256_value(arbitrum@)) + ")\n"@ + if (u256_value(arc@) + u256_value(arbitrum@))
        % u256_modulus() == 0 {
        fund_hint()
    } else {
        Seq::empty()
    }
}

/// Writes the summary of a user's accounts for the agent: the wallet, the
/// smart account, both balances formatted and raw, and a note when there is
/// no USDC at all.
pub fn live_state_text(user: UserAddress, account: UserAddress, arc: Amount, arbitrum: Amount) -> (r:
    String)
    ensures
        r@ == live_state(user, account, arc, arbitrum),
{
    let mut out = String::from_str("- **Wallet (EOA)**: `");
    out.append(user.text().as_str());
    out.append("`\n- **Compass smart account** (same address on both chains): `");
    out.append(account.text().as_str());
    out.append("`\n- **Arc USDC balance**: ");
    out.append(format_usdc(arc).as_str());
    out.append(" (raw 6-dec: ");
    out.append(u256_text(arc).as_str());
    out.append(")\n- **Arbitrum Sepolia USDC balance**: ");
    out.append(format_usdc(arbitrum).as_str());
    out.append(" (raw 6-dec: ");
    out.append(u256_text(arbitrum).as_str());
    out.append(")\n");
    if !is_positive(u256_add(arc, arbitrum)) {
        out.append(
            "\n\n**The user's smart account has 0 USDC on both chains.** If they want to start earning, tell them to fund their smart account first — do NOT call `commit_policy` until they have balance. Their wallet button in the UI has a Fund action.",
        );
    }
    assert(out@ =~= live_state(user, account, arc, arbitrum));
    out
}

} // verus!
