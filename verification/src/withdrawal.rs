//! Bringing a user's capital home from Arbitrum Sepolia to Arc: the order
//! of the on-chain steps, which of them are skipped, and the report. The
//! service performs each step and hands back what it found.
use vstd::prelude::*;

use crate::model::{Amount, UserAddress, amount_u64, is_positive};
use crate::outside::{u256_text, u256_value};
use crate::text::{decimal, decimal_text, hex_text, push_hex};

verus! {

/// Seconds to wait after the mint on Arc before reporting.
pub const MINT_SETTLE_WAIT_SECS: u64 = 6;

/// One on-chain step of a withdrawal.
#[derive(Debug)]
pub struct WithdrawStep {
    pub label: String,
    pub chain: &'static str,
    pub tx_hash: String,
}

/// The report of a withdrawal.
#[derive(Debug)]
pub struct WithdrawResponse {
    pub user: String,
    pub arc_smart_account: String,
    pub arbitrum_smart_account: String,
    pub aave_balance_6dec: String,
    pub bridged_6dec: String,
    pub steps: Vec<WithdrawStep>,
}

/// Where a withdrawal stands: what it waits for.
#[derive(Clone, Copy, Debug, PartialEq, Eq, Structural)]
pub enum WithdrawStage {
    AwaitAaveBalance,
    AwaitAaveWithdraw,
    AwaitDelegate,
    AwaitUsdcBalance,
    AwaitDeposit,
    AwaitAttestation,
    AwaitMint,
    AwaitSettle,
    Done,
}

/// What the service is to do next.
#[derive(Clone, Copy, Debug, PartialEq, Eq)]
pub enum WithdrawAction {
    /// Read the AAVE position of the Arbitrum smart account.
    ReadAaveBalance,
    /// Withdraw the whole AAVE position to the Arbitrum smart account.
    WithdrawAllFromAave,
    /// Make the agent a delegate of the smart account at the gateway wallet.
    AuthorizeDelegate,
    /// Read the USDC held by the Arbitrum smart account.
    ReadUsdcBalance,
    /// Deposit `amount` into the gateway wallet.
    DepositToGateway { amount: Amount },
    /// Sign a burn intent for `amount` towards Arc and have it attested.
    AttestBurnIntent { amount: Amount },
    /// Mint the attested amount on Arc.
    MintOnArc,
    /// Wait before reporting.
    Wait { secs: u64 },
    /// Report.
    Finish,
}

/// The action that a stage waits on.
pub open spec fn action_of(stage: WithdrawStage, bridged: Amount) -> WithdrawAction {
    match stage {
        WithdrawStage::AwaitAaveBalance => WithdrawAction::ReadAaveBalance,
        WithdrawStage::AwaitAaveWithdraw => WithdrawAction::WithdrawAllFromAave,
        WithdrawStage::AwaitDelegate => WithdrawAction::AuthorizeDelegate,
        WithdrawStage::AwaitUsdcBalance => WithdrawAction::ReadUsdcBalance,
        WithdrawStage::AwaitDeposit => WithdrawAction::DepositToGateway { amount: bridged },
        WithdrawStage::AwaitAttestation => WithdrawAction::AttestBurnIntent { amount: bridged },
        WithdrawStage::AwaitMint => WithdrawAction::MintOnArc,
        WithdrawStage::AwaitSettle => WithdrawAction::Wait { secs: MINT_SETTLE_WAIT_SECS },
        WithdrawStage::Done => WithdrawAction::Finish,
    }
}

/// A step as plain text: label, chain, transaction hash.
pub open spec fn step_text(s: WithdrawStep) -> (Seq<char>, Seq<char>, Seq<char>) {
    (s.label@, s.chain@, s.tx_hash@)
}

/// A withdrawal under way.
#[derive(Debug)]
pub struct WithdrawFlow {
    stage: WithdrawStage,
    aave_before: Amount,
    bridged: Amount,
    steps: Vec<WithdrawStep>,
}

impl WithdrawFlow {
    pub closed spec fn stage(&self) -> WithdrawStage {
        self.stage
    }

    /// The AAVE position found at the start.
    pub closed spec fn aave_before(&self) -> Amount {
        self.aave_before
    }

    /// The amount bridged to Arc: the USDC found on the Arbitrum smart
    /// account once AAVE was emptied.
    pub closed spec fn bridged(&self) -> Amount {
        self.bridged
    }

    /// The steps taken so far, in order.
    pub closed spec fn steps(&self) -> Seq<(Seq<char>, Seq<char>, Seq<char>)> {
        self.steps@.map_values(|s: WithdrawStep| step_text(s))
    }

    /// A withdrawal that starts by reading the AAVE position.
    pub fn start() -> (r: WithdrawFlow)
        ensures
            r.stage() == WithdrawStage::AwaitAaveBalance,
            r.steps() == Seq::<(Seq<char>, Seq<char>, Seq<char>)>::empty(),
            u256_value(r.aave_before()@) == 0,
            u256_value(r.bridged()@) == 0,
    {
        let r = WithdrawFlow {
            stage: WithdrawStage::AwaitAaveBalance,
            aave_before: amount_u64(0),
            bridged: amount_u64(0),
            steps: Vec::new(),
        };
        assert(r.steps() =~= Seq::<(Seq<char>, Seq<char>, Seq<char>)>::empty());
        r
    }

    /// What the service is to do next.
    pub fn action(&self) -> (r: WithdrawAction)
        ensures
            r == action_of(self.stage(), self.bridged()),
    {
        match self.stage {
            WithdrawStage::AwaitAaveBalance => WithdrawAction::ReadAaveBalance,
            WithdrawStage::AwaitAaveWithdraw => WithdrawAction::WithdrawAllFromAave,
            WithdrawStage::AwaitDelegate => WithdrawAction::AuthorizeDelegate,
            WithdrawStage::AwaitUsdcBalance => WithdrawAction::ReadUsdcBalance,
            WithdrawStage::AwaitDeposit => WithdrawAction::DepositToGateway { amount: self.bridged },
            WithdrawStage::AwaitAttestation => WithdrawAction::AttestBurnIntent {
                amount: self.bridged,
            },
            WithdrawStage::AwaitMint => WithdrawAction::MintOnArc,
            WithdrawStage::AwaitSettle => WithdrawAction::Wait { secs: MINT_SETTLE_WAIT_SECS },
            WithdrawStage::Done => WithdrawAction::Finish,
        }
    }

    fn record(&mut self, label: &str, chain: &'static str, tx_hash: String)
        ensures
            final(self).stage == old(self).stage,
            final(self).aave_before == old(self).aave_before,
            final(self).bridged == old(self).bridged,
            final(self).steps() == old(self).steps().push((label@, chain@, tx_hash@)),
    {
        let ghost before = self.steps();
        self.steps.push(WithdrawStep { label: String::from_str(label), chain, tx_hash });
        assert(self.steps() =~= before.push((label@, chain@, tx_hash@)));
    }

    /// The AAVE position was read: a position is withdrawn first, an empty
    /// one is skipped.
    pub fn on_aave_balance(&mut self, amount: Amount)
        requires
            old(self).stage() == WithdrawStage::AwaitAaveBalance,
        ensures
            final(self).aave_before() == amount,
            final(self).stage() == if u256_value(amount@) > 0 {
                WithdrawStage::AwaitAaveWithdraw
            } else {
                WithdrawStage::AwaitDelegate
            },
            final(self).bridged() == old(self).bridged(),
            final(self).steps() == old(self).steps(),
    {
        self.aave_before = amount;
        self.stage = if is_positive(amount) {
            WithdrawStage::AwaitAaveWithdraw
        } else {
            WithdrawStage::AwaitDelegate
        };
    }

    /// A transaction went through: it is recorded under the step's label
    /// and chain, and the withdrawal moves on.
    pub fn on_tx_sent(&mut self, tx_hash: String)
        requires
            old(self).stage() == WithdrawStage::AwaitAaveWithdraw || old(self).stage()
                == WithdrawStage::AwaitDelegate || old(self).stage() == WithdrawStage::AwaitDeposit
                || old(self).stage() == WithdrawStage::AwaitMint,
        ensures
            final(self).aave_before() == old(self).aave_before(),
            final(self).bridged() == old(self).bridged(),
            old(self).stage() == WithdrawStage::AwaitAaveWithdraw ==> final(self).stage()
                == WithdrawStage::AwaitDelegate && final(self).steps() == old(self).steps().push(
                ("aave_withdraw"@, "arbitrum_sepolia"@, tx_hash@),
            ),
            old(self).stage() == WithdrawStage::AwaitDelegate ==> final(self).stage()
                == WithdrawStage::AwaitUsdcBalance && final(self).steps() == old(self).steps().push(
                ("gateway_delegate_authorized"@, "arbitrum_sepolia"@, tx_hash@),
            ),
            old(self).stage() == WithdrawStage::AwaitDeposit ==> final(self).stage()
                == WithdrawStage::AwaitAttestation && final(self).steps() == old(self).steps().push(
                ("gateway_deposit"@, "arbitrum_sepolia"@, tx_hash@),
            ),
            old(self).stage() == WithdrawStage::AwaitMint ==> final(self).stage()
                == WithdrawStage::AwaitSettle && final(self).steps() == old(self).steps().push(
                ("mint_on_arc"@, "arc"@, tx_hash@),
            ),
    {
        match self.stage {
            WithdrawStage::AwaitAaveWithdraw => {
                self.record("aave_withdraw", "arbitrum_sepolia", tx_hash);
                self.stage = WithdrawStage::AwaitDelegate;
            },
            WithdrawStage::AwaitDelegate => {
                self.record("gateway_delegate_authorized", "arbitrum_sepolia", tx_hash);
                self.stage = WithdrawStage::AwaitUsdcBalance;
            },
            WithdrawStage::AwaitDeposit => {
                self.record("gateway_deposit", "arbitrum_sepolia", tx_hash);
                self.stage = WithdrawStage::AwaitAttestation;
            },
            _ => {
                self.record("mint_on_arc", "arc", tx_hash);
                self.stage = WithdrawStage::AwaitSettle;
            },
        }
    }

    /// The delegate authorization failed: the withdrawal goes on without
    /// recording it.
    pub fn on_delegate_failed(&mut self)
        requires
            old(self).stage() == WithdrawStage::AwaitDelegate,
        ensures
            final(self).stage() == WithdrawStage::AwaitUsdcBalance,
            final(self).aave_before() == old(self).aave_before(),
            final(self).bridged() == old(self).bridged(),
            final(self).steps() == old(self).steps(),
    {
        self.stage = WithdrawStage::AwaitUsdcBalance;
    }

    /// The USDC on the Arbitrum smart account was read: that whole amount
    /// is bridged; with none, the withdrawal is done.
    pub fn on_usdc_balance(&mut self, amount: Amount)
        requires
            old(self).stage() == WithdrawStage::AwaitUsdcBalance,
        ensures
            final(self).bridged() == amount,
            final(self).stage() == if u256_value(amount@) > 0 {
                WithdrawStage::AwaitDeposit
            } else {
                WithdrawStage::Done
            },
            final(self).aave_before() == old(self).aave_before(),
            final(self).steps() == old(self).steps(),
    {
        self.bridged = amount;
        self.stage = if is_positive(amount) {
            WithdrawStage::AwaitDeposit
        } else {
            WithdrawStage::Done
        };
    }

    /// The burn intent with this digest was attested: it is recorded, as
    /// `0x` and the digest in hexadecimal, and the mint follows.
    pub fn on_attested(&mut self, digest: [u8; 32])
        requires
            old(self).stage() == WithdrawStage::AwaitAttestation,
        ensures
            final(self).stage() == WithdrawStage::AwaitMint,
            final(self).aave_before() == old(self).aave_before(),
            final(self).bridged() == old(self).bridged(),
            final(self).steps() == old(self).steps().push(
                ("burn_intent_attested"@, "arbitrum_sepolia"@, "0x"@ + hex_text(digest@)),
            ),
    {
        let mut hash = String::from_str("0x");
        push_hex(digest.as_slice(), &mut hash);
        self.record("burn_intent_attested", "arbitrum_sepolia", hash);
        self.stage = WithdrawStage::AwaitMint;
    }

    /// The wait after the mint is over.
    pub fn on_settled(&mut self)
        requires
            old(self).stage() == WithdrawStage::AwaitSettle,
        ensures
            final(self).stage() == WithdrawStage::Done,
            final(self).aave_before() == old(self).aave_before(),
            final(self).bridged() == old(self).bridged(),
            final(self).steps() == old(self).steps(),
    {
        self.stage = WithdrawStage::Done;
    }

    /// The report of a finished withdrawal.
    pub fn finish(self, user: UserAddress, arc_account: UserAddress, arbitrum_account: UserAddress) -> (r:
        WithdrawResponse)
        requires
            self.stage() == WithdrawStage::Done,
        ensures
            r.user@ == "0x"@ + hex_text(user@),
            r.arc_smart_account@ == "0x"@ + hex_text(arc_account@),
            r.arbitrum_smart_account@ == "0x"@ + hex_text(arbitrum_account@),
            r.aave_balance_6dec@ == decimal_text(u256_value(self.aave_before()@)),
            r.bridged_6dec@ == decimal_text(u256_value(self.bridged()@)),
            r.steps@.map_values(|s: WithdrawStep| step_text(s)) == self.steps(),
    {
        WithdrawResponse {
            user: user.text(),
            arc_smart_account: arc_account.text(),
            arbitrum_smart_account: arbitrum_account.text(),
            aave_balance_6dec: u256_text(self.aave_before),
            bridged_6dec: u256_text(self.bridged),
            steps: self.steps,
        }
    }
}

} // verus!
