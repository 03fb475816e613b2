//! Recovering USDC left in the gateway's escrow on Arc: the burn intent is
//! attested, minted on Arbitrum Sepolia and, when asked, supplied into AAVE,
//! with each step written to the audit trail. The service performs each
//! step and hands back what it found; this module decides the order, what
//! is recorded, and the report.
use vstd::prelude::*;

use crate::audit::EventType;
use crate::executor::MINT_TO_SUPPLY_WAIT_SECS;
use crate::model::{ChainId, UserAddress};
use crate::requests::{limbs_zero, RecoverResponse};
use crate::text::{hex_text, push_hex};

verus! {

/// Where a recovery stands: what it waits for.
#[derive(Clone, Copy, Debug, PartialEq, Eq, Structural)]
pub enum RecoveryStage {
    AwaitAccounts,
    AwaitStartRecorded,
    AwaitAttestation,
    AwaitMint,
    AwaitSupplyWait,
    AwaitSupply,
    Done,
}

/// What the service is to do next.
#[derive(Clone, Copy, Debug)]
pub enum RecoveryAction {
    /// Work out the user's smart accounts on Arc and on Arbitrum Sepolia.
    ResolveAccounts,
    /// Append the opening note to the audit trail and report its id.
    RecordStart,
    /// Sign a burn intent for `amount` from the Arc account to the Arbitrum
    /// account and have the gateway attest it.
    AttestIntent { from: UserAddress, to: UserAddress, amount: [u64; 4] },
    /// Mint the attested amount on Arbitrum Sepolia.
    MintOnArbitrum,
    /// Wait before supplying.
    Wait { secs: u64 },
    /// Supply `amount` into AAVE from the Arbitrum account.
    SupplyAave { amount: [u64; 4] },
    /// Report.
    Finish,
}

/// What an audit note of a recovery says.
#[derive(Debug)]
pub enum NoteContent {
    /// The recovery begins: the amount and both smart accounts.
    Start { amount: [u64; 4], arc_account: UserAddress, arbitrum_account: UserAddress },
    /// One step of the recovery, tied to the opening note.
    Substep { label: &'static str, start_event_id: u64, digest: Option<String> },
    /// The recovery is over: the intent, the mint and the supply, if any.
    Done {
        intent_digest: String,
        mint_tx: String,
        supply_tx: Option<String>,
        start_event_id: u64,
    },
}

/// An audit note to append: its event type, the chain and transaction it
/// concerns, and what it says.
#[derive(Debug)]
pub struct RecoveryNote {
    pub event_type: EventType,
    pub chain: Option<ChainId>,
    pub tx_hash: Option<String>,
    pub content: NoteContent,
}

/// A recovery under way.
#[derive(Debug)]
pub struct RecoveryFlow {
    stage: RecoveryStage,
    amount: [u64; 4],
    then_supply_aave: bool,
    arc_account: UserAddress,
    arbitrum_account: UserAddress,
    start_event_id: u64,
    intent_digest: String,
    mint_tx: String,
    supply_tx: Option<String>,
}

/// The note of a step with no digest.
pub open spec fn is_step_note(n: RecoveryNote, label: Seq<char>, start_id: u64, chain: ChainId, tx: Seq<
    char,
>) -> bool {
    &&& n.event_type == EventType::ExecutorSubstep
    &&& n.chain == Some(chain)
    &&& n.tx_hash matches Some(t) && t@ == tx
    &&& n.content matches NoteContent::Substep { label: l, start_event_id, digest }
        && l@ == label && start_event_id == start_id && digest is None
}

/// The closing note: on Arbitrum Sepolia, with no transaction of its own.
pub open spec fn is_done_note(
    n: RecoveryNote,
    digest: Seq<char>,
    mint: Seq<char>,
    supply: Option<Seq<char>>,
    start_id: u64,
) -> bool {
    &&& n.event_type == EventType::ExecutorActionDone
    &&& n.chain == Some(ChainId::ArbitrumSepolia)
    &&& n.tx_hash is None
    &&& n.content matches NoteContent::Done {
        intent_digest,
        mint_tx,
        supply_tx,
        start_event_id,
    } && intent_digest@ == digest && mint_tx@ == mint && start_event_id == start_id && (match supply {
        Some(s) => (supply_tx matches Some(t) && t@ == s),
        None => supply_tx is None,
    })
}

fn copy_text(s: &Option<String>) -> (r: Option<String>)
    ensures
        r == *s,
{
    match s {
        Some(t) => Some(t.clone()),
        None => None,
    }
}

impl RecoveryFlow {
    pub closed spec fn stage(&self) -> RecoveryStage {
        self.stage
    }

    pub closed spec fn amount(&self) -> Seq<u64> {
        self.amount@
    }

    pub closed spec fn then_supply_aave(&self) -> bool {
        self.then_supply_aave
    }

    pub closed spec fn arc_account(&self) -> UserAddress {
        self.arc_account
    }

    pub closed spec fn arbitrum_account(&self) -> UserAddress {
        self.arbitrum_account
    }

    pub closed spec fn start_event_id(&self) -> u64 {
        self.start_event_id
    }

    /// The attested intent's digest, as `0x` and hexadecimal.
    pub closed spec fn intent_digest(&self) -> Seq<char> {
        self.intent_digest@
    }

    pub closed spec fn mint_tx(&self) -> Seq<char> {
        self.mint_tx@
    }

    pub closed spec fn supply_tx(&self) -> Option<Seq<char>> {
        match self.supply_tx {
            Some(t) => Some(t@),
            None => None,
        }
    }

    /// A recovery of a non-zero `amount`, which first finds the smart
    /// accounts.
    pub fn start(amount: [u64; 4], then_supply_aave: bool) -> (r: RecoveryFlow)
        requires
            !limbs_zero(amount@),
        ensures
            r.stage() == RecoveryStage::AwaitAccounts,
            r.amount() == amount@,
            r.then_supply_aave() == then_supply_aave,
            r.supply_tx() is None,
    {
        RecoveryFlow {
            stage: RecoveryStage::AwaitAccounts,
            amount,
            then_supply_aave,
            arc_account: UserAddress { hi: 0, mid: 0, lo: 0 },
            arbitrum_account: UserAddress { hi: 0, mid: 0, lo: 0 },
            start_event_id: 0,
            intent_digest: String::new(),
            mint_tx: String::new(),
            supply_tx: None,
        }
    }

    /// What the service is to do next.
    pub fn action(&self) -> (r: RecoveryAction)
        ensures
            self.stage() == RecoveryStage::AwaitAccounts ==> r is ResolveAccounts,
            self.stage() == RecoveryStage::AwaitStartRecorded ==> r is RecordStart,
            self.stage() == RecoveryStage::AwaitAttestation ==> (r matches RecoveryAction::AttestIntent {
                from,
                to,
                amount,
            } && from == self.arc_account() && to == self.arbitrum_account() && amount@
                == self.amount()),
            self.stage() == RecoveryStage::AwaitMint ==> r is MintOnArbitrum,
            self.stage() == RecoveryStage::AwaitSupplyWait ==> (r matches RecoveryAction::Wait { secs }
                && secs == MINT_TO_SUPPLY_WAIT_SECS),
            self.stage() == RecoveryStage::AwaitSupply ==> (r matches RecoveryAction::SupplyAave {
                amount,
            } && amount@ == self.amount()),
            self.stage() == RecoveryStage::Done ==> r is Finish,
    {
        match self.stage {
            RecoveryStage::AwaitAccounts => RecoveryAction::ResolveAccounts,
            RecoveryStage::AwaitStartRecorded => RecoveryAction::RecordStart,
            RecoveryStage::AwaitAttestation => RecoveryAction::AttestIntent {
                from: self.arc_account,
                to: self.arbitrum_account,
                amount: self.amount,
            },
            RecoveryStage::AwaitMint => RecoveryAction::MintOnArbitrum,
            RecoveryStage::AwaitSupplyWait => RecoveryAction::Wait { secs: MINT_TO_SUPPLY_WAIT_SECS },
            RecoveryStage::AwaitSupply => RecoveryAction::SupplyAave { amount: self.amount },
            RecoveryStage::Done => RecoveryAction::Finish,
        }
    }

    /// The smart accounts are known: the opening note, to be recorded
    /// before anything moves, names them and the amount.
    pub fn on_accounts(&mut self, arc_account: UserAddress, arbitrum_account: UserAddress) -> (r:
        RecoveryNote)
        requires
            old(self).stage() == RecoveryStage::AwaitAccounts,
        ensures
            final(self).stage() == RecoveryStage::AwaitStartRecorded,
            final(self).arc_account() == arc_account,
            final(self).arbitrum_account() == arbitrum_account,
            final(self).amount() == old(self).amount(),
            final(self).then_supply_aave() == old(self).then_supply_aave(),
            final(self).supply_tx() == old(self).supply_tx(),
            r.event_type == EventType::ExecutorActionStart,
            r.chain is None,
            r.tx_hash is None,
            (r.content matches NoteContent::Start { amount, arc_account: a, arbitrum_account: b }
                && amount@ == old(self).amount() && a == arc_account && b == arbitrum_account),
    {
        self.arc_account = arc_account;
        self.arbitrum_account = arbitrum_account;
        self.stage = RecoveryStage::AwaitStartRecorded;
        RecoveryNote {
            event_type: EventType::ExecutorActionStart,
            chain: None,
            tx_hash: None,
            content: NoteContent::Start { amount: self.amount, arc_account, arbitrum_account },
        }
    }

    /// The opening note was recorded under `id`; the intent comes next.
    pub fn on_start_recorded(&mut self, id: u64)
        requires
            old(self).stage() == RecoveryStage::AwaitStartRecorded,
        ensures
            final(self).stage() == RecoveryStage::AwaitAttestation,
            final(self).start_event_id() == id,
            final(self).arc_account() == old(self).arc_account(),
            final(self).arbitrum_account() == old(self).arbitrum_account(),
            final(self).amount() == old(self).amount(),
            final(self).then_supply_aave() == old(self).then_supply_aave(),
            final(self).supply_tx() == old(self).supply_tx(),
    {
        self.start_event_id = id;
        self.stage = RecoveryStage::AwaitAttestation;
    }

    /// The intent with this digest was attested: a note on Arc records it
    /// under the digest, and the mint comes next.
    pub fn on_attested(&mut self, digest: [u8; 32]) -> (r: RecoveryNote)
        requires
            old(self).stage() == RecoveryStage::AwaitAttestation,
        ensures
            final(self).stage() == RecoveryStage::AwaitMint,
            final(self).intent_digest() == "0x"@ + hex_text(digest@),
            final(self).start_event_id() == old(self).start_event_id(),
            final(self).amount() == old(self).amount(),
            final(self).then_supply_aave() == old(self).then_supply_aave(),
            final(self).supply_tx() == old(self).supply_tx(),
            r.event_type == EventType::ExecutorSubstep,
            r.chain == Some(ChainId::Arc),
            (r.tx_hash matches Some(t) && t@ == "0x"@ + hex_text(digest@)),
            r.content matches NoteContent::Substep { label, start_event_id, digest: d } && label@
                == "recovery_attestation"@ && start_event_id == old(self).start_event_id() && (
            d matches Some(t) && t@ == "0x"@ + hex_text(digest@)),
    {
        let mut hex = String::from_str("0x");
        push_hex(digest.as_slice(), &mut hex);
        self.intent_digest = hex.clone();
        self.stage = RecoveryStage::AwaitMint;
        RecoveryNote {
            event_type: EventType::ExecutorSubstep,
            chain: Some(ChainId::Arc),
            tx_hash: Some(hex.clone()),
            content: NoteContent::Substep {
                label: "recovery_attestation",
                start_event_id: self.start_event_id,
                digest: Some(hex),
            },
        }
    }

    fn done_note(&self) -> (r: RecoveryNote)
        ensures
            is_done_note(
                r,
                self.intent_digest(),
                self.mint_tx(),
                self.supply_tx(),
                self.start_event_id(),
            ),
    {
        RecoveryNote {
            event_type: EventType::ExecutorActionDone,
            chain: Some(ChainId::ArbitrumSepolia),
            tx_hash: None,
            content: NoteContent::Done {
                intent_digest: self.intent_digest.clone(),
                mint_tx: self.mint_tx.clone(),
                supply_tx: copy_text(&self.supply_tx),
                start_event_id: self.start_event_id,
            },
        }
    }

    /// The mint went through: a note on Arbitrum Sepolia records it; then
    /// either the wait before the supply, or, when no supply was asked
    /// for, the closing note and the end.
    pub fn on_minted(&mut self, mint_tx: String) -> (r: Vec<RecoveryNote>)
        requires
            old(self).stage() == RecoveryStage::AwaitMint,
        ensures
            final(self).mint_tx() == mint_tx@,
            final(self).intent_digest() == old(self).intent_digest(),
            final(self).start_event_id() == old(self).start_event_id(),
            final(self).amount() == old(self).amount(),
            final(self).then_supply_aave() == old(self).then_supply_aave(),
            final(self).supply_tx() == old(self).supply_tx(),
            final(self).stage() == if old(self).then_supply_aave() {
                RecoveryStage::AwaitSupplyWait
            } else {
                RecoveryStage::Done
            },
            r@.len() == if old(self).then_supply_aave() {
                1int
            } else {
                2int
            },
            is_step_note(
                r@[0],
                "recovery_mint"@,
                old(self).start_event_id(),
                ChainId::ArbitrumSepolia,
                mint_tx@,
            ),
            !old(self).then_supply_aave() ==> is_done_note(
                r@[1],
                old(self).intent_digest(),
                mint_tx@,
                old(self).supply_tx(),
                old(self).start_event_id(),
            ),
    {
        self.mint_tx = mint_tx.clone();
        let mut notes: Vec<RecoveryNote> = Vec::new();
        notes.push(
            RecoveryNote {
                event_type: EventType::ExecutorSubstep,
                chain: Some(ChainId::ArbitrumSepolia),
                tx_hash: Some(mint_tx),
                content: NoteContent::Substep {
                    label: "recovery_mint",
                    start_event_id: self.start_event_id,
                    digest: None,
                },
            },
        );
        if self.then_supply_aave {
            self.stage = RecoveryStage::AwaitSupplyWait;
        } else {
            notes.push(self.done_note());
            self.stage = RecoveryStage::Done;
        }
        notes
    }

    /// The wait before the supply is over.
    pub fn on_waited(&mut self)
        requires
            old(self).stage() == RecoveryStage::AwaitSupplyWait,
        ensures
            final(self).stage() == RecoveryStage::AwaitSupply,
            final(self).mint_tx() == old(self).mint_tx(),
            final(self).intent_digest() == old(self).intent_digest(),
            final(self).start_event_id() == old(self).start_event_id(),
            final(self).amount() == old(self).amount(),
            final(self).then_supply_aave() == old(self).then_supply_aave(),
            final(self).supply_tx() == old(self).supply_tx(),
    {
        self.stage = RecoveryStage::AwaitSupply;
    }

    /// The supply into AAVE went through: a note on Arbitrum Sepolia
    /// records it, then the closing note, and the recovery is over.
    pub fn on_supplied(&mut self, supply_tx: String) -> (r: Vec<RecoveryNote>)
        requires
            old(self).stage() == RecoveryStage::AwaitSupply,
        ensures
            final(self).stage() == RecoveryStage::Done,
            final(self).supply_tx() == Some(supply_tx@),
            final(self).mint_tx() == old(self).mint_tx(),
            final(self).intent_digest() == old(self).intent_digest(),
            final(self).start_event_id() == old(self).start_event_id(),
            final(self).amount() == old(self).amount(),
            final(self).then_supply_aave() == old(self).then_supply_aave(),
            r@.len() == 2,
            is_step_note(
                r@[0],
                "recovery_aave_supply"@,
                old(self).start_event_id(),
                ChainId::ArbitrumSepolia,
                supply_tx@,
            ),
            is_done_note(
                r@[1],
                old(self).intent_digest(),
                old(self).mint_tx(),
                Some(supply_tx@),
                old(self).start_event_id(),
            ),
    {
        self.supply_tx = Some(supply_tx.clone());
        let mut notes: Vec<RecoveryNote> = Vec::new();
        notes.push(
            RecoveryNote {
                event_type: EventType::ExecutorSubstep,
                chain: Some(ChainId::ArbitrumSepolia),
                tx_hash: Some(supply_tx),
                content: NoteContent::Substep {
                    label: "recovery_aave_supply",
                    start_event_id: self.start_event_id,
                    digest: None,
                },
            },
        );
        notes.push(self.done_note());
        self.stage = RecoveryStage::Done;
        notes
    }

    /// The report of a finished recovery.
    pub fn finish(self) -> (r: RecoverResponse)
        requires
            self.stage() == RecoveryStage::Done,
        ensures
            r.intent_digest@ == self.intent_digest(),
            r.mint_tx@ == self.mint_tx(),
            match self.supply_tx() {
                Some(s) => (r.supply_tx matches Some(t) && t@ == s),
                None => r.supply_tx is None,
            },
    {
        RecoverResponse {
            intent_digest: self.intent_digest,
            mint_tx: self.mint_tx,
            supply_tx: self.supply_tx,
        }
    }
}

} // verus!
