//! The decisions of plan execution: which on-chain route an action takes,
//! how much is bridged, and how a refused transfer is retried.
use vstd::prelude::*;

use crate::audit::EventType;
use crate::evaluator::{Action, ActionPlan};
use crate::model::{amount_u64, amount_value, Amount, ChainId, NANOS_PER_SECOND, ProtocolId, VenueRef};
use crate::outside::{amount_of, lemma_amount_of, u256_add, u256_modulus};
use crate::text::{hex_text, push_hex, seq_contains, str_contains};

verus! {

/// One on-chain step of an executed action.
#[derive(Debug)]
pub struct TxStep {
    pub label: String,
    pub chain: ChainId,
    pub tx_hash: String,
}

/// How the execution of a plan ended.
#[derive(Debug)]
pub enum ExecutionOutcome {
    Completed { tx_hashes: Vec<String> },
    PartialFailure { tx_hashes: Vec<String>, error: String },
}

/// USDC (raw, 6 decimals) deposited on top of the amount to cover the bridge fee.
pub const BRIDGE_FEE_BUFFER_USDC_6DEC: u64 = 10_000;

/// Seconds to wait between the destination mint and the supply into AAVE.
pub const MINT_TO_SUPPLY_WAIT_SECS: u64 = 8;

/// Seconds a transfer may keep being retried while the gateway's indexer lags.
pub const CIRCLE_INDEXER_RETRY_BUDGET_SECS: u64 = 60;

/// First and largest wait, in seconds, between transfer retries.
pub const FIRST_BACKOFF_SECS: u64 = 2;

pub const MAX_BACKOFF_SECS: u64 = 15;

/// The on-chain route of an action.
#[derive(Clone, Copy, Debug, PartialEq, Eq)]
pub enum Route {
    /// Supply the idle balance into AAVE on the same chain.
    AaveSupply { chain: ChainId },
    /// Withdraw `amount` from AAVE to the idle balance on the same chain.
    AaveWithdraw { chain: ChainId, amount: Amount },
    /// Bridge `amount` from the idle balance on Arc and supply it into AAVE
    /// on Arbitrum Sepolia.
    ArcIdleToArbitrumAave { amount: Amount },
}

/// An action no route carries out.
#[derive(Clone, Copy, Debug, PartialEq, Eq, Structural)]
pub struct UnsupportedAction {
    pub from: VenueRef,
    pub to: VenueRef,
}

/// The route of an action, checked in this order.
pub open spec fn route_of(a: Action) -> Result<Route, UnsupportedAction> {
    if a.from.protocol == ProtocolId::Idle && a.to.protocol == ProtocolId::AaveV3 && a.from.chain
        == a.to.chain {
        Ok(Route::AaveSupply { chain: a.to.chain })
    } else if a.from.protocol == ProtocolId::AaveV3 && a.to.protocol == ProtocolId::Idle && a.from.chain
        == a.to.chain {
        Ok(Route::AaveWithdraw { chain: a.from.chain, amount: a.amount })
    } else if a.from.protocol == ProtocolId::Idle && a.to.protocol == ProtocolId::AaveV3 && a.from.chain
        == ChainId::Arc && a.to.chain == ChainId::ArbitrumSepolia {
        Ok(Route::ArcIdleToArbitrumAave { amount: a.amount })
    } else {
        Err(UnsupportedAction { from: a.from, to: a.to })
    }
}

/// Picks the on-chain route of an action.
pub fn route_action(action: &Action) -> (r: Result<Route, UnsupportedAction>)
    ensures
        r == route_of(*action),
        r matches Ok(Route::AaveWithdraw { chain, amount }) ==> chain == action.from.chain && chain
            == action.to.chain && amount == action.amount,
        r matches Ok(Route::ArcIdleToArbitrumAave { amount }) ==> amount == action.amount,
        r matches Ok(Route::AaveSupply { chain }) ==> chain == action.from.chain && chain
            == action.to.chain,
{
    let from = action.from;
    let to = action.to;
    if from.protocol == ProtocolId::Idle && to.protocol == ProtocolId::AaveV3 && from.chain == to.chain {
        Ok(Route::AaveSupply { chain: to.chain })
    } else if from.protocol == ProtocolId::AaveV3 && to.protocol == ProtocolId::Idle && from.chain
        == to.chain {
        Ok(Route::AaveWithdraw { chain: from.chain, amount: action.amount })
    } else if from.protocol == ProtocolId::Idle && to.protocol == ProtocolId::AaveV3 && from.chain
        == ChainId::Arc && to.chain == ChainId::ArbitrumSepolia {
        Ok(Route::ArcIdleToArbitrumAave { amount: action.amount })
    } else {
        Err(UnsupportedAction { from, to })
    }
}

/// Every cross-chain move other than Arc idle to Arbitrum AAVE is refused,
/// as is every move between two idle balances or two AAVE venues.
pub proof fn law_routes_cover(a: Action)
    ensures
        route_of(a) is Ok <==> ((a.from.protocol == ProtocolId::Idle && a.to.protocol == ProtocolId::AaveV3
            && (a.from.chain == a.to.chain || (a.from.chain == ChainId::Arc && a.to.chain
            == ChainId::ArbitrumSepolia))) || (a.from.protocol == ProtocolId::AaveV3 && a.to.protocol
            == ProtocolId::Idle && a.from.chain == a.to.chain)),
{
}

/// Each route carries out exactly the action it was picked for: AAVE supply
/// of the idle balance on the action's one chain, AAVE withdrawal of
/// exactly the action's amount on its one chain, or the bridge of exactly
/// the action's amount from Arc idle to AAVE on Arbitrum Sepolia; and each
/// supported pair of venues gets its route.
pub proof fn law_route_matches_action(a: Action)
    ensures
        route_of(a) matches Ok(Route::AaveSupply { chain }) ==> chain == a.from.chain && chain == a.to.chain
            && a.from.protocol == ProtocolId::Idle && a.to.protocol == ProtocolId::AaveV3,
        route_of(a) matches Ok(Route::AaveWithdraw { chain, amount }) ==> chain == a.from.chain && chain
            == a.to.chain && amount == a.amount && a.from.protocol == ProtocolId::AaveV3 && a.to.protocol
            == ProtocolId::Idle,
        route_of(a) matches Ok(Route::ArcIdleToArbitrumAave { amount }) ==> amount == a.amount
            && a.from == (VenueRef { chain: ChainId::Arc, protocol: ProtocolId::Idle }) && a.to == (VenueRef {
            chain: ChainId::ArbitrumSepolia,
            protocol: ProtocolId::AaveV3,
        }),
        a.from.protocol == ProtocolId::AaveV3 && a.to.protocol == ProtocolId::Idle && a.from.chain
            == a.to.chain ==> route_of(a) == Ok::<Route, UnsupportedAction>(
            Route::AaveWithdraw { chain: a.from.chain, amount: a.amount },
        ),
        a.from.protocol == ProtocolId::Idle && a.to.protocol == ProtocolId::AaveV3 && a.from.chain
            == a.to.chain ==> route_of(a) == Ok::<Route, UnsupportedAction>(
            Route::AaveSupply { chain: a.from.chain },
        ),
        route_of(a) matches Err(u) ==> u.from == a.from && u.to == a.to,
{
}

/// The amount deposited into the gateway to bridge `amount`: the amount
/// plus the fee buffer, added as 256-bit numbers.
pub fn bridge_deposit_amount(amount: Amount) -> (r: Amount)
    ensures
        amount_value(r) == (amount_value(amount) + BRIDGE_FEE_BUFFER_USDC_6DEC as nat) % u256_modulus(),
{
    u256_add(amount, amount_u64(BRIDGE_FEE_BUFFER_USDC_6DEC))
}

/// Whether a gateway error says that the agent may not sign for the depositor.
pub fn is_delegate_not_authorized(message: &str) -> (r: bool)
    ensures
        r == seq_contains(message@, "Signer is not authorized"@),
{
    str_contains(message, "Signer is not authorized")
}

/// Whether a gateway error says that the deposit has not been indexed yet.
pub fn is_insufficient_balance(message: &str) -> (r: bool)
    ensures
        r == seq_contains(message@, "Insufficient balance for depositor"@),
{
    str_contains(message, "Insufficient balance for depositor")
}

/// What to do after the first transfer attempt failed.
#[derive(Clone, Copy, Debug, PartialEq, Eq, Structural)]
pub enum FirstFailure {
    /// Authorize the agent as the depositor's delegate, then keep retrying.
    AuthorizeThenRetry,
    /// Keep retrying: the deposit is not indexed yet.
    Retry,
    /// Give up with this error.
    Fail,
}

/// Classifies the first failure of a transfer by its message.
pub fn after_first_failure(message: &str) -> (r: FirstFailure)
    ensures
        seq_contains(message@, "Signer is not authorized"@) ==> r == FirstFailure::AuthorizeThenRetry,
        !seq_contains(message@, "Signer is not authorized"@) && seq_contains(
            message@,
            "Insufficient balance for depositor"@,
        ) ==> r == FirstFailure::Retry,
        !seq_contains(message@, "Signer is not authorized"@) && !seq_contains(
            message@,
            "Insufficient balance for depositor"@,
        ) ==> r == FirstFailure::Fail,
{
    if is_delegate_not_authorized(message) {
        FirstFailure::AuthorizeThenRetry
    } else if !is_insufficient_balance(message) {
        FirstFailure::Fail
    } else {
        FirstFailure::Retry
    }
}

/// The wait before the next retry, in seconds.
#[derive(Debug)]
pub struct RetryState {
    pub backoff_secs: u64,
}

/// What to do after a retried transfer failed.
#[derive(Clone, Copy, Debug, PartialEq, Eq, Structural)]
pub enum RetryStep {
    /// Sleep this many seconds, then try again.
    Sleep { secs: u64 },
    /// Give up with the error.
    Fail,
}

impl RetryState {
    pub fn start() -> (r: RetryState)
        ensures
            r.backoff_secs == FIRST_BACKOFF_SECS,
    {
        RetryState { backoff_secs: FIRST_BACKOFF_SECS }
    }

    /// Decides after a failed retry, `elapsed_nanos` after retrying began:
    /// an error other than a lagging index, or a wait that would run past
    /// the retry budget, ends the retries; otherwise the engine sleeps the
    /// current backoff, which then doubles, up to 15 seconds.
    pub fn after_failure(&mut self, message: &str, elapsed_nanos: u128) -> (r: RetryStep)
        requires
            old(self).backoff_secs <= MAX_BACKOFF_SECS,
            elapsed_nanos <= u64::MAX as u128 * 1_000_000_000,
        ensures
            final(self).backoff_secs <= MAX_BACKOFF_SECS,
            !seq_contains(message@, "Insufficient balance for depositor"@) ==> r == RetryStep::Fail
                && final(self).backoff_secs == old(self).backoff_secs,
            seq_contains(message@, "Insufficient balance for depositor"@) && elapsed_nanos
                + old(self).backoff_secs * NANOS_PER_SECOND > CIRCLE_INDEXER_RETRY_BUDGET_SECS
                * NANOS_PER_SECOND ==> r == RetryStep::Fail && final(self).backoff_secs == old(
                self,
            ).backoff_secs,
            seq_contains(message@, "Insufficient balance for depositor"@) && elapsed_nanos
                + old(self).backoff_secs * NANOS_PER_SECOND <= CIRCLE_INDEXER_RETRY_BUDGET_SECS
                * NANOS_PER_SECOND ==> r == (RetryStep::Sleep { secs: old(self).backoff_secs })
                && final(self).backoff_secs == if 2 * old(self).backoff_secs <= MAX_BACKOFF_SECS {
                2 * old(self).backoff_secs
            } else {
                MAX_BACKOFF_SECS as int
            },
    {
        if !is_insufficient_balance(message) {
            return RetryStep::Fail;
        }
        let budget: u128 = CIRCLE_INDEXER_RETRY_BUDGET_SECS as u128 * 1_000_000_000;
        let wait: u128 = self.backoff_secs as u128 * 1_000_000_000;
        if elapsed_nanos + wait > budget {
            return RetryStep::Fail;
        }
        let secs = self.backoff_secs;
        let doubled = secs * 2;
        self.backoff_secs = if doubled <= MAX_BACKOFF_SECS {
            doubled
        } else {
            MAX_BACKOFF_SECS
        };
        RetryStep::Sleep { secs }
    }
}

/// The transaction hashes of `steps`, in order.
pub open spec fn step_hashes(steps: Seq<TxStep>) -> Seq<String> {
    steps.map_values(|t: TxStep| t.tx_hash)
}

/// Appends the transaction hashes of an action's steps to the plan's list.
pub fn collect_tx_hashes(steps: &Vec<TxStep>, hashes: &mut Vec<String>)
    ensures
        final(hashes)@ == old(hashes)@ + step_hashes(steps@),
{
    let ghost start = hashes@;
    let mut i: usize = 0;
    while i < steps.len()
        invariant
            i <= steps@.len(),
            hashes@ == start + step_hashes(steps@.subrange(0, i as int)),
        decreases steps@.len() - i,
    {
        hashes.push(steps[i].tx_hash.clone());
        assert(step_hashes(steps@.subrange(0, i + 1)) =~= step_hashes(steps@.subrange(0, i as int)).push(
            steps@[i as int].tx_hash,
        ));
        i = i + 1;
    }
    assert(steps@.subrange(0, steps@.len() as int) =~= steps@);
}

/// A copy of a step.
pub fn copy_step(t: &TxStep) -> (r: TxStep)
    ensures
        tx_step_view(r) == tx_step_view(*t),
{
    TxStep { label: t.label.clone(), chain: t.chain, tx_hash: t.tx_hash.clone() }
}

/// A copy of a list of steps.
pub fn copy_steps(steps: &Vec<TxStep>) -> (r: Vec<TxStep>)
    ensures
        r@.map_values(|t: TxStep| tx_step_view(t)) == steps@.map_values(|t: TxStep| tx_step_view(t)),
{
    let mut out: Vec<TxStep> = Vec::new();
    let mut i: usize = 0;
    while i < steps.len()
        invariant
            i <= steps@.len(),
            out@.len() == i,
            forall|j: int| 0 <= j < i ==> tx_step_view(#[trigger] out@[j]) == tx_step_view(steps@[j]),
        decreases steps@.len() - i,
    {
        out.push(copy_step(&steps[i]));
        i = i + 1;
    }
    assert(out@.map_values(|t: TxStep| tx_step_view(t)) =~= steps@.map_values(|t: TxStep| tx_step_view(t)));
    out
}

/// What an audit note of plan execution says.
#[derive(Debug)]
pub enum PlanNoteContent {
    /// An action begins.
    Start { action: Action },
    /// One on-chain step of an action, tied to the action's opening note.
    Substep { label: String, start_event_id: u64 },
    /// An action went through with these steps.
    Done { action: Action, steps: Vec<TxStep>, start_event_id: u64 },
    /// An action failed with this error.
    Failed { action: Action, error: String, start_event_id: u64 },
}

/// An audit note of plan execution: its event type, the policy version the
/// plan runs under, the chain and transaction it concerns, and what it says.
#[derive(Debug)]
pub struct PlanNote {
    pub event_type: EventType,
    pub policy_version: u32,
    pub chain: ChainId,
    pub tx_hash: Option<String>,
    pub content: PlanNoteContent,
}

/// The note that opens action `a`: on the destination's chain.
pub open spec fn is_plan_start_note(n: PlanNote, a: Action, version: u32) -> bool {
    &&& n.event_type == EventType::ExecutorActionStart
    &&& n.policy_version == version
    &&& n.chain == a.to.chain
    &&& n.tx_hash is None
    &&& n.content == PlanNoteContent::Start { action: a }
}

/// The note of step `t`: its label and the opening note's id, on the step's
/// chain and with the step's transaction.
pub open spec fn is_plan_step_note(n: PlanNote, t: TxStep, start_id: u64, version: u32) -> bool {
    &&& n.event_type == EventType::ExecutorSubstep
    &&& n.policy_version == version
    &&& n.chain == t.chain
    &&& n.tx_hash matches Some(h) && h@ == t.tx_hash@
    &&& n.content matches PlanNoteContent::Substep { label, start_event_id } && label@ == t.label@
        && start_event_id == start_id
}

/// The note that closes action `a`, which went through with `steps`.
pub open spec fn is_plan_done_note(
    n: PlanNote,
    a: Action,
    steps: Seq<(Seq<char>, ChainId, Seq<char>)>,
    start_id: u64,
    version: u32,
) -> bool {
    &&& n.event_type == EventType::ExecutorActionDone
    &&& n.policy_version == version
    &&& n.chain == a.to.chain
    &&& n.tx_hash is None
    &&& n.content matches PlanNoteContent::Done { action, steps: st, start_event_id } && action == a
        && st@.map_values(|t: TxStep| tx_step_view(t)) == steps && start_event_id == start_id
}

/// The note that closes action `a`, which failed with `error`.
pub open spec fn is_plan_failure_note(
    n: PlanNote,
    a: Action,
    error: Seq<char>,
    start_id: u64,
    version: u32,
) -> bool {
    &&& n.event_type == EventType::ExecutorActionDone
    &&& n.policy_version == version
    &&& n.chain == a.to.chain
    &&& n.tx_hash is None
    &&& n.content matches PlanNoteContent::Failed { action, error: e, start_event_id } && action == a
        && e@ == error && start_event_id == start_id
}

/// The execution of a plan under a policy version, one action after
/// another: each action's start is recorded, then the action runs, and each
/// of its steps and its end are recorded; the hashes of its transactions
/// are kept in order; the first failure ends the plan with what was done so
/// far.
#[derive(Debug)]
pub struct PlanRun {
    actions: Vec<Action>,
    next: usize,
    started: bool,
    hashes: Vec<String>,
    policy_version: u32,
    start_event_id: u64,
}

impl PlanRun {
    /// The plan's actions.
    pub closed spec fn actions(&self) -> Seq<Action> {
        self.actions@
    }

    /// How many actions have run.
    pub closed spec fn done(&self) -> nat {
        self.next as nat
    }

    /// The current action's start is recorded and it is running.
    pub closed spec fn running(&self) -> bool {
        self.started
    }

    /// The transaction hashes of the actions that ran, in order.
    pub closed spec fn hashes(&self) -> Seq<String> {
        self.hashes@
    }

    /// The policy version the plan runs under.
    pub closed spec fn policy_version(&self) -> u32 {
        self.policy_version
    }

    /// The id of the running action's opening note.
    pub closed spec fn start_event_id(&self) -> u64 {
        self.start_event_id
    }

    pub closed spec fn wf(&self) -> bool {
        &&& self.next <= self.actions@.len()
        &&& self.started ==> self.next < self.actions@.len()
    }

    /// A run of `plan` under `policy_version` that has done nothing yet.
    pub fn new(plan: &ActionPlan, policy_version: u32) -> (r: PlanRun)
        ensures
            r.wf(),
            r.actions() == plan.actions@,
            r.done() == 0,
            !r.running(),
            r.hashes() == Seq::<String>::empty(),
            r.policy_version() == policy_version,
    {
        PlanRun {
            actions: plan.actions.clone(),
            next: 0,
            started: false,
            hashes: Vec::new(),
            policy_version,
            start_event_id: 0,
        }
    }

    /// The next action to start, if any is left.
    pub fn next_action(&self) -> (r: Option<Action>)
        requires
            self.wf(),
        ensures
            !self.running() && self.done() < self.actions().len() ==> r == Some(
                self.actions()[self.done() as int],
            ),
            self.running() || self.done() == self.actions().len() ==> r is None,
    {
        if !self.started && self.next < self.actions.len() {
            Some(self.actions[self.next])
        } else {
            None
        }
    }

    /// The note that opens the next action.
    pub fn start_note(&self) -> (r: PlanNote)
        requires
            self.wf(),
            !self.running(),
            self.done() < self.actions().len(),
        ensures
            is_plan_start_note(r, self.actions()[self.done() as int], self.policy_version()),
    {
        let a = self.actions[self.next];
        PlanNote {
            event_type: EventType::ExecutorActionStart,
            policy_version: self.policy_version,
            chain: a.to.chain,
            tx_hash: None,
            content: PlanNoteContent::Start { action: a },
        }
    }

    /// The next action's opening note was recorded under `start_event_id`;
    /// the action now runs.
    pub fn on_started(&mut self, start_event_id: u64)
        requires
            old(self).wf(),
            !old(self).running(),
            old(self).done() < old(self).actions().len(),
        ensures
            final(self).wf(),
            final(self).running(),
            final(self).done() == old(self).done(),
            final(self).actions() == old(self).actions(),
            final(self).hashes() == old(self).hashes(),
            final(self).policy_version() == old(self).policy_version(),
            final(self).start_event_id() == start_event_id,
    {
        self.started = true;
        self.start_event_id = start_event_id;
    }

    /// The running action went through with these steps: their hashes are
    /// kept, the next action may start, and the notes to record are one per
    /// step, in order, then the closing note.
    pub fn on_dispatched(&mut self, steps: &Vec<TxStep>) -> (r: Vec<PlanNote>)
        requires
            old(self).wf(),
            old(self).running(),
        ensures
            final(self).wf(),
            !final(self).running(),
            final(self).done() == old(self).done() + 1,
            final(self).actions() == old(self).actions(),
            final(self).hashes() == old(self).hashes() + step_hashes(steps@),
            final(self).policy_version() == old(self).policy_version(),
            r@.len() == steps@.len() + 1,
            forall|k: int|
                0 <= k < steps@.len() ==> is_plan_step_note(
                    #[trigger] r@[k],
                    steps@[k],
                    old(self).start_event_id(),
                    old(self).policy_version(),
                ),
            is_plan_done_note(
                r@[steps@.len() as int],
                old(self).actions()[old(self).done() as int],
                steps@.map_values(|t: TxStep| tx_step_view(t)),
                old(self).start_event_id(),
                old(self).policy_version(),
            ),
    {
        let a = self.actions[self.next];
        let mut notes: Vec<PlanNote> = Vec::new();
        let mut i: usize = 0;
        while i < steps.len()
            invariant
                i <= steps@.len(),
                notes@.len() == i,
                forall|k: int|
                    0 <= k < i ==> is_plan_step_note(
                        #[trigger] notes@[k],
                        steps@[k],
                        self.start_event_id,
                        self.policy_version,
                    ),
            decreases steps@.len() - i,
        {
            let t = &steps[i];
            notes.push(
                PlanNote {
                    event_type: EventType::ExecutorSubstep,
                    policy_version: self.policy_version,
                    chain: t.chain,
                    tx_hash: Some(t.tx_hash.clone()),
                    content: PlanNoteContent::Substep {
                        label: t.label.clone(),
                        start_event_id: self.start_event_id,
                    },
                },
            );
            i = i + 1;
        }
        notes.push(
            PlanNote {
                event_type: EventType::ExecutorActionDone,
                policy_version: self.policy_version,
                chain: a.to.chain,
                tx_hash: None,
                content: PlanNoteContent::Done {
                    action: a,
                    steps: copy_steps(steps),
                    start_event_id: self.start_event_id,
                },
            },
        );
        collect_tx_hashes(steps, &mut self.hashes);
        let n = self.actions.len();
        assert(self.next < n);
        self.next = self.next + 1;
        self.started = false;
        notes
    }

    /// The running action failed: the plan ends there, with the hashes of
    /// the actions that ran before it, and the note that closes the action
    /// with the error.
    pub fn fail(self, error: String) -> (r: (ExecutionOutcome, PlanNote))
        requires
            self.wf(),
            self.running(),
        ensures
            r.0 matches ExecutionOutcome::PartialFailure { tx_hashes, error: e } && tx_hashes@
                == self.hashes() && e == error,
            is_plan_failure_note(
                r.1,
                self.actions()[self.done() as int],
                error@,
                self.start_event_id(),
                self.policy_version(),
            ),
    {
        let a = self.actions[self.next];
        let note = PlanNote {
            event_type: EventType::ExecutorActionDone,
            policy_version: self.policy_version,
            chain: a.to.chain,
            tx_hash: None,
            content: PlanNoteContent::Failed {
                action: a,
                error: error.clone(),
                start_event_id: self.start_event_id,
            },
        };
        (ExecutionOutcome::PartialFailure { tx_hashes: self.hashes, error }, note)
    }

    /// Every action went through: the plan is complete, with all their
    /// hashes in order.
    pub fn finish(self) -> (r: ExecutionOutcome)
        requires
            self.wf(),
            !self.running(),
            self.done() == self.actions().len(),
        ensures
            r matches ExecutionOutcome::Completed { tx_hashes } && tx_hashes@ == self.hashes(),
    {
        ExecutionOutcome::Completed { tx_hashes: self.hashes }
    }
}

/// The step of a route that runs as one transaction on one chain.
pub fn single_step(route: Route, tx_hash: String) -> (r: TxStep)
    requires
        !(route is ArcIdleToArbitrumAave),
    ensures
        route matches Route::AaveSupply { chain } ==> r.label@ == "aave_supply"@ && r.chain == chain,
        route matches Route::AaveWithdraw { chain, .. } ==> r.label@ == "aave_withdraw"@ && r.chain
            == chain,
        r.tx_hash == tx_hash,
{
    match route {
        Route::AaveSupply { chain } => TxStep { label: String::from_str("aave_supply"), chain, tx_hash },
        Route::AaveWithdraw { chain, .. } => TxStep {
            label: String::from_str("aave_withdraw"),
            chain,
            tx_hash,
        },
        Route::ArcIdleToArbitrumAave { .. } => TxStep {
            label: String::new(),
            chain: ChainId::Arc,
            tx_hash,
        },
    }
}

/// Where a move from Arc's idle balance into AAVE on Arbitrum Sepolia stands.
#[derive(Clone, Copy, Debug, PartialEq, Eq, Structural)]
pub enum BridgeStage {
    AwaitDeposit,
    AwaitAttestation,
    AwaitMint,
    AwaitSupplyWait,
    AwaitSupply,
    Done,
}

/// What the service is to do next in a bridged move.
#[derive(Clone, Copy, Debug, PartialEq, Eq)]
pub enum BridgeAction {
    /// Deposit `amount` (the move plus the fee buffer) into the gateway on Arc.
    DepositToGateway { amount: Amount },
    /// Sign a burn intent for `amount` towards Arbitrum Sepolia and have it
    /// attested, retrying as the gateway asks.
    AttestIntent { amount: Amount },
    /// Mint the attested amount on Arbitrum Sepolia.
    MintOnArbitrum,
    /// Wait before supplying.
    Wait { secs: u64 },
    /// Supply the whole idle balance into AAVE on Arbitrum Sepolia.
    SupplyAave,
    /// The move is done.
    Finish,
}

/// A step as plain values: label, chain, transaction hash.
pub open spec fn tx_step_view(t: TxStep) -> (Seq<char>, ChainId, Seq<char>) {
    (t.label@, t.chain, t.tx_hash@)
}

/// A bridged move of `amount` under way.
#[derive(Debug)]
pub struct BridgeFlow {
    stage: BridgeStage,
    amount: Amount,
    steps: Vec<TxStep>,
}

impl BridgeFlow {
    pub closed spec fn stage(&self) -> BridgeStage {
        self.stage
    }

    pub closed spec fn amount(&self) -> Amount {
        self.amount
    }

    /// The steps taken so far, in order.
    pub closed spec fn steps(&self) -> Seq<(Seq<char>, ChainId, Seq<char>)> {
        self.steps@.map_values(|t: TxStep| tx_step_view(t))
    }

    /// A bridged move of `amount`, which starts with the deposit on Arc.
    pub fn start(amount: Amount) -> (r: BridgeFlow)
        ensures
            r.stage() == BridgeStage::AwaitDeposit,
            r.amount() == amount,
            r.steps() == Seq::<(Seq<char>, ChainId, Seq<char>)>::empty(),
    {
        let r = BridgeFlow { stage: BridgeStage::AwaitDeposit, amount, steps: Vec::new() };
        assert(r.steps() =~= Seq::<(Seq<char>, ChainId, Seq<char>)>::empty());
        r
    }

    /// What the service is to do next.
    pub fn action(&self) -> (r: BridgeAction)
        ensures
            r == match self.stage() {
                BridgeStage::AwaitDeposit => BridgeAction::DepositToGateway {
                    amount: amount_of((amount_value(self.amount()) + BRIDGE_FEE_BUFFER_USDC_6DEC as nat) % u256_modulus()),
                },
                BridgeStage::AwaitAttestation => BridgeAction::AttestIntent { amount: self.amount() },
                BridgeStage::AwaitMint => BridgeAction::MintOnArbitrum,
                BridgeStage::AwaitSupplyWait => BridgeAction::Wait { secs: MINT_TO_SUPPLY_WAIT_SECS },
                BridgeStage::AwaitSupply => BridgeAction::SupplyAave,
                BridgeStage::Done => BridgeAction::Finish,
            },
    {
        match self.stage {
            BridgeStage::AwaitDeposit => {
                let amount = bridge_deposit_amount(self.amount);
                proof {
                    lemma_amount_of(amount);
                }
                BridgeAction::DepositToGateway { amount }
            },
            BridgeStage::AwaitAttestation => BridgeAction::AttestIntent { amount: self.amount },
            BridgeStage::AwaitMint => BridgeAction::MintOnArbitrum,
            BridgeStage::AwaitSupplyWait => BridgeAction::Wait { secs: MINT_TO_SUPPLY_WAIT_SECS },
            BridgeStage::AwaitSupply => BridgeAction::SupplyAave,
            BridgeStage::Done => BridgeAction::Finish,
        }
    }

    fn record(&mut self, label: &str, chain: ChainId, tx_hash: String)
        ensures
            final(self).stage == old(self).stage,
            final(self).amount == old(self).amount,
            final(self).steps() == old(self).steps().push((label@, chain, tx_hash@)),
    {
        let ghost before = self.steps();
        self.steps.push(TxStep { label: String::from_str(label), chain, tx_hash });
        assert(self.steps() =~= before.push((label@, chain, tx_hash@)));
    }

    /// A transaction went through: it is recorded under the step's label
    /// and chain, and the move goes on.
    pub fn on_tx_sent(&mut self, tx_hash: String)
        requires
            old(self).stage() == BridgeStage::AwaitDeposit || old(self).stage() == BridgeStage::AwaitMint
                || old(self).stage() == BridgeStage::AwaitSupply,
        ensures
            final(self).amount() == old(self).amount(),
            old(self).stage() == BridgeStage::AwaitDeposit ==> final(self).stage()
                == BridgeStage::AwaitAttestation && final(self).steps() == old(self).steps().push(
                ("gateway_deposit"@, ChainId::Arc, tx_hash@),
            ),
            old(self).stage() == BridgeStage::AwaitMint ==> final(self).stage()
                == BridgeStage::AwaitSupplyWait && final(self).steps() == old(self).steps().push(
                ("mint_destination"@, ChainId::ArbitrumSepolia, tx_hash@),
            ),
            old(self).stage() == BridgeStage::AwaitSupply ==> final(self).stage() == BridgeStage::Done
                && final(self).steps() == old(self).steps().push(
                ("aave_supply"@, ChainId::ArbitrumSepolia, tx_hash@),
            ),
    {
        match self.stage {
            BridgeStage::AwaitDeposit => {
                self.record("gateway_deposit", ChainId::Arc, tx_hash);
                self.stage = BridgeStage::AwaitAttestation;
            },
            BridgeStage::AwaitMint => {
                self.record("mint_destination", ChainId::ArbitrumSepolia, tx_hash);
                self.stage = BridgeStage::AwaitSupplyWait;
            },
            _ => {
                self.record("aave_supply", ChainId::ArbitrumSepolia, tx_hash);
                self.stage = BridgeStage::Done;
            },
        }
    }

    /// The burn intent with this digest was attested: it is recorded on Arc
    /// as `0x` and the digest in hexadecimal, and the mint follows.
    pub fn on_attested(&mut self, digest: [u8; 32])
        requires
            old(self).stage() == BridgeStage::AwaitAttestation,
        ensures
            final(self).stage() == BridgeStage::AwaitMint,
            final(self).amount() == old(self).amount(),
            final(self).steps() == old(self).steps().push(
                ("burn_intent_attested"@, ChainId::Arc, "0x"@ + hex_text(digest@)),
            ),
    {
        let mut hash = String::from_str("0x");
        push_hex(digest.as_slice(), &mut hash);
        self.record("burn_intent_attested", ChainId::Arc, hash);
        self.stage = BridgeStage::AwaitMint;
    }

    /// The wait before the supply is over.
    pub fn on_waited(&mut self)
        requires
            old(self).stage() == BridgeStage::AwaitSupplyWait,
        ensures
            final(self).stage() == BridgeStage::AwaitSupply,
            final(self).amount() == old(self).amount(),
            final(self).steps() == old(self).steps(),
    {
        self.stage = BridgeStage::AwaitSupply;
    }

    /// The steps of a finished move, in order.
    pub fn finish(self) -> (r: Vec<TxStep>)
        requires
            self.stage() == BridgeStage::Done,
        ensures
            r@.map_values(|t: TxStep| tx_step_view(t)) == self.steps(),
    {
        self.steps
    }
}

} // verus!
