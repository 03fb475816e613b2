//! The audit trail: what the engine saw, decided and did, per user.
use vstd::prelude::*;

use crate::funding::{chain_code, chain_named};
use crate::model::{ChainId, Real64, UnixNanos, UserAddress};
use crate::outside::{address_from_str, parse_address};
use crate::text::str_eq;

verus! {

/// Kinds of audit events.
#[derive(Clone, Copy, Debug, PartialEq, Eq, Structural, Hash)]
pub enum EventType {
    TriggerFired,
    EvaluatorThought,
    EvaluatorDecision,
    RiskGateDecision,
    LlmEscalateIn,
    LlmEscalateOut,
    ExecutorActionStart,
    ExecutorSubstep,
    ExecutorActionDone,
    CircuitBreak,
    PolicyChange,
    SessionRevoke,
}

/// A stored audit event. `payload` is JSON text.
#[derive(Debug)]
pub struct AuditEvent {
    pub id: u64,
    pub ts: UnixNanos,
    pub user: UserAddress,
    pub event_type: EventType,
    pub policy_version: Option<u32>,
    pub payload: String,
    pub tx_hash: Option<String>,
    pub chain: Option<ChainId>,
    pub cost_usd: Option<Real64>,
}

/// An audit event before the store assigns it an id.
#[derive(Debug)]
pub struct NewAuditEvent {
    pub ts: UnixNanos,
    pub user: UserAddress,
    pub event_type: EventType,
    pub policy_version: Option<u32>,
    pub payload: String,
    pub tx_hash: Option<String>,
    pub chain: Option<ChainId>,
    pub cost_usd: Option<Real64>,
}

/// A text code that names no known value.
#[derive(Debug)]
pub struct UnknownCode {
    pub text: String,
}

fn copy_text(s: &Option<String>) -> (r: Option<String>)
    ensures
        r == *s,
{
    match s {
        Some(t) => Some(t.clone()),
        None => None,
    }
}

impl AuditEvent {
    /// A copy of the event.
    pub fn duplicate(&self) -> (r: AuditEvent)
        ensures
            r == *self,
    {
        AuditEvent {
            id: self.id,
            ts: self.ts,
            user: self.user,
            event_type: self.event_type,
            policy_version: self.policy_version,
            payload: self.payload.clone(),
            tx_hash: copy_text(&self.tx_hash),
            chain: self.chain,
            cost_usd: self.cost_usd,
        }
    }
}

impl NewAuditEvent {
    /// A new event with no policy version, transaction, chain or cost.
    pub open spec fn new_spec(user: UserAddress, event_type: EventType, payload: String, ts: UnixNanos) -> Self {
        NewAuditEvent {
            ts,
            user,
            event_type,
            policy_version: None,
            payload,
            tx_hash: None,
            chain: None,
            cost_usd: None,
        }
    }

    pub fn new(user: UserAddress, event_type: EventType, payload: String, ts: UnixNanos) -> (r: Self)
        ensures
            r == Self::new_spec(user, event_type, payload, ts),
    {
        NewAuditEvent {
            ts,
            user,
            event_type,
            policy_version: None,
            payload,
            tx_hash: None,
            chain: None,
            cost_usd: None,
        }
    }

    pub fn with_policy_version(self, v: u32) -> (r: Self)
        ensures
            r == (NewAuditEvent { policy_version: Some(v), ..self }),
    {
        NewAuditEvent { policy_version: Some(v), ..self }
    }

    pub fn with_tx_hash(self, hash: String) -> (r: Self)
        ensures
            r == (NewAuditEvent { tx_hash: Some(hash), ..self }),
    {
        NewAuditEvent { tx_hash: Some(hash), ..self }
    }

    pub fn with_chain(self, chain: ChainId) -> (r: Self)
        ensures
            r == (NewAuditEvent { chain: Some(chain), ..self }),
    {
        NewAuditEvent { chain: Some(chain), ..self }
    }

    pub fn with_cost_usd(self, cost: Real64) -> (r: Self)
        ensures
            r == (NewAuditEvent { cost_usd: Some(cost), ..self }),
    {
        NewAuditEvent { cost_usd: Some(cost), ..self }
    }
}

/// The stored form of `e` under id `id`.
pub open spec fn stored_event(e: NewAuditEvent, id: u64) -> AuditEvent {
    AuditEvent {
        id,
        ts: e.ts,
        user: e.user,
        event_type: e.event_type,
        policy_version: e.policy_version,
        payload: e.payload,
        tx_hash: e.tx_hash,
        chain: e.chain,
        cost_usd: e.cost_usd,
    }
}

/// An event that a listing for `user` since `since` includes.
pub open spec fn audit_selected(e: AuditEvent, user: UserAddress, since: Option<UnixNanos>) -> bool {
    &&& e.user == user
    &&& match since {
        Some(s) => e.ts > s,
        None => true,
    }
}

/// The newest `limit` selected events of `s`, newest first.
pub open spec fn newest_audit(s: Seq<AuditEvent>, user: UserAddress, since: Option<UnixNanos>, limit: nat) -> Seq<
    AuditEvent,
>
    decreases s.len(),
{
    if s.len() == 0 || limit == 0 {
        Seq::empty()
    } else if audit_selected(s.last(), user, since) {
        seq![s.last()] + newest_audit(s.drop_last(), user, since, (limit - 1) as nat)
    } else {
        newest_audit(s.drop_last(), user, since, limit)
    }
}

/// Audit events kept in memory, with ids assigned from 1 upward.
#[derive(Debug)]
pub struct InMemoryAuditStore {
    next_id: u64,
    events: Vec<AuditEvent>,
}

impl InMemoryAuditStore {
    /// The stored events, oldest first.
    pub closed spec fn events(&self) -> Seq<AuditEvent> {
        self.events@
    }

    /// Event `i` has id `i + 1`, and the next id follows the last.
    pub closed spec fn wf(&self) -> bool {
        &&& self.next_id == self.events@.len() + 1
        &&& forall|i: int| 0 <= i < self.events@.len() ==> #[trigger] self.events@[i].id == i + 1
    }

    pub fn new() -> (r: Self)
        ensures
            r.wf(),
            r.events() == Seq::<AuditEvent>::empty(),
    {
        InMemoryAuditStore { next_id: 1, events: Vec::new() }
    }

    /// How many events are stored.
    pub fn len(&self) -> (r: usize)
        ensures
            r == self.events().len(),
    {
        self.events.len()
    }

    /// Stores the event under the next id and returns that id.
    pub fn append(&mut self, event: NewAuditEvent) -> (r: u64)
        requires
            old(self).wf(),
            old(self).events().len() + 2 <= u64::MAX,
        ensures
            final(self).wf(),
            r == old(self).events().len() + 1,
            final(self).events() == old(self).events().push(stored_event(event, r)),
    {
        let id = self.next_id;
        let stored = AuditEvent {
            id,
            ts: event.ts,
            user: event.user,
            event_type: event.event_type,
            policy_version: event.policy_version,
            payload: event.payload,
            tx_hash: event.tx_hash,
            chain: event.chain,
            cost_usd: event.cost_usd,
        };
        self.events.push(stored);
        self.next_id = id + 1;
        id
    }

    /// The event with id `id`, if one is stored.
    pub fn get(&self, id: u64) -> (r: Option<AuditEvent>)
        requires
            self.wf(),
        ensures
            (1 <= id <= self.events().len()) ==> r == Some(self.events()[id - 1]),
            !(1 <= id <= self.events().len()) ==> r is None,
            r matches Some(e) ==> e.id == id,
    {
        if id >= 1 && id <= self.events.len() as u64 {
            let i = (id - 1) as usize;
            Some(self.events[i].duplicate())
        } else {
            None
        }
    }

    /// The newest `limit` events of `user` after `since`, newest first.
    pub fn list_for_user(&self, user: UserAddress, since: Option<UnixNanos>, limit: usize) -> (r: Vec<
        AuditEvent,
    >)
        ensures
            r@ == newest_audit(self.events(), user, since, limit as nat),
    {
        let events = &self.events;
        let mut out: Vec<AuditEvent> = Vec::new();
        let mut i: usize = events.len();
        assert(events@.subrange(0, i as int) =~= events@);
        assert(out@ + newest_audit(events@, user, since, limit as nat) =~= newest_audit(
            events@,
            user,
            since,
            limit as nat,
        ));
        while i > 0 && out.len() < limit
            invariant
                events == &self.events,
                i <= events@.len(),
                out@.len() <= limit,
                out@ + newest_audit(events@.subrange(0, i as int), user, since, (limit - out@.len()) as nat)
                    == newest_audit(events@, user, since, limit as nat),
            decreases i,
        {
            let ghost s = events@.subrange(0, i as int);
            let ghost rest = (limit - out@.len()) as nat;
            assert(s.drop_last() =~= events@.subrange(0, i - 1));
            let e = &events[i - 1];
            let selected = e.user == user && match since {
                Some(t) => e.ts > t,
                None => true,
            };
            if selected {
                let ghost before = out@;
                out.push(e.duplicate());
                assert(seq![s.last()] + newest_audit(s.drop_last(), user, since, (rest - 1) as nat)
                    == newest_audit(s, user, since, rest));
                assert(out@ + newest_audit(s.drop_last(), user, since, (rest - 1) as nat) =~= before
                    + newest_audit(s, user, since, rest));
            }
            i = i - 1;
        }
        assert(out@ + newest_audit(events@.subrange(0, i as int), user, since, (limit - out@.len()) as nat)
            =~= out@);
        assert(events@.subrange(0, events@.len() as int) =~= events@);
        out
    }
}

/// Every listed event is a selected event of the store, and no more than
/// `limit` are listed.
pub proof fn lemma_newest_audit_members(s: Seq<AuditEvent>, user: UserAddress, since: Option<UnixNanos>, limit: nat)
    ensures
        newest_audit(s, user, since, limit).len() <= limit,
        forall|k: int|
            0 <= k < newest_audit(s, user, since, limit).len() ==> audit_selected(
                #[trigger] newest_audit(s, user, since, limit)[k],
                user,
                since,
            ) && exists|j: int| 0 <= j < s.len() && s[j] == newest_audit(s, user, since, limit)[k],
    decreases s.len(),
{
    if s.len() == 0 || limit == 0 {
    } else if audit_selected(s.last(), user, since) {
        let rest = newest_audit(s.drop_last(), user, since, (limit - 1) as nat);
        lemma_newest_audit_members(s.drop_last(), user, since, (limit - 1) as nat);
        let r = newest_audit(s, user, since, limit);
        assert forall|k: int| 0 <= k < r.len() implies audit_selected(#[trigger] r[k], user, since) && exists|
            j: int,
        | 0 <= j < s.len() && s[j] == r[k] by {
            if k == 0 {
                assert(s[s.len() - 1] == r[k]);
            } else {
                assert(r[k] == rest[k - 1]);
                let j = choose|j: int| 0 <= j < s.drop_last().len() && s.drop_last()[j] == rest[k - 1];
                assert(s[j] == r[k]);
            }
        }
    } else {
        lemma_newest_audit_members(s.drop_last(), user, since, limit);
        let r = newest_audit(s, user, since, limit);
        assert forall|k: int| 0 <= k < r.len() implies audit_selected(#[trigger] r[k], user, since) && exists|
            j: int,
        | 0 <= j < s.len() && s[j] == r[k] by {
            let j = choose|j: int| 0 <= j < s.drop_last().len() && s.drop_last()[j] == r[k];
            assert(s[j] == r[k]);
        }
    }
}

/// Over events whose ids increase, a listing's ids strictly decrease.
pub proof fn lemma_newest_audit_descending(s: Seq<AuditEvent>, user: UserAddress, since: Option<UnixNanos>, limit: nat)
    requires
        forall|i: int, j: int| 0 <= i < j < s.len() ==> s[i].id < s[j].id,
    ensures
        forall|a: int, b: int|
            0 <= a < b < newest_audit(s, user, since, limit).len() ==> newest_audit(s, user, since, limit)[a].id
                > newest_audit(s, user, since, limit)[b].id,
    decreases s.len(),
{
    if s.len() == 0 || limit == 0 {
    } else if audit_selected(s.last(), user, since) {
        let d = s.drop_last();
        let rest = newest_audit(d, user, since, (limit - 1) as nat);
        lemma_newest_audit_descending(d, user, since, (limit - 1) as nat);
        lemma_newest_audit_members(d, user, since, (limit - 1) as nat);
        let r = newest_audit(s, user, since, limit);
        assert forall|a: int, b: int| 0 <= a < b < r.len() implies r[a].id > r[b].id by {
            assert(r[b] == rest[b - 1]);
            if a == 0 {
                let j = choose|j: int| 0 <= j < d.len() && d[j] == rest[b - 1];
                assert(s[j] == d[j]);
            } else {
                assert(r[a] == rest[a - 1]);
            }
        }
    } else {
        lemma_newest_audit_descending(s.drop_last(), user, since, limit);
    }
}

/// What a listing of the store returns: at most `limit` events, each of
/// `user` and newer than `since`, newest (highest id) first.
pub proof fn law_audit_listing(store: InMemoryAuditStore, user: UserAddress, since: Option<UnixNanos>, limit: nat)
    requires
        store.wf(),
    ensures
        ({
            let r = newest_audit(store.events(), user, since, limit);
            &&& r.len() <= limit
            &&& forall|k: int| 0 <= k < r.len() ==> audit_selected(#[trigger] r[k], user, since)
            &&& forall|a: int, b: int| 0 <= a < b < r.len() ==> r[a].id > r[b].id
        }),
{
    let s = store.events();
    assert forall|i: int, j: int| 0 <= i < j < s.len() implies s[i].id < s[j].id by {
        assert(s[i].id == i + 1);
        assert(s[j].id == j + 1);
    }
    lemma_newest_audit_members(s, user, since, limit);
    lemma_newest_audit_descending(s, user, since, limit);
}

// ---------------------------------------------------------------------------
// Text codes of the storage layer

/// The text code of an event type.
pub open spec fn event_type_code(e: EventType) -> Seq<char> {
    match e {
        EventType::TriggerFired => "trigger_fired"@,
        EventType::EvaluatorThought => "evaluator_thought"@,
        EventType::EvaluatorDecision => "evaluator_decision"@,
        EventType::RiskGateDecision => "risk_gate_decision"@,
        EventType::LlmEscalateIn => "llm_escalate_in"@,
        EventType::LlmEscalateOut => "llm_escalate_out"@,
        EventType::ExecutorActionStart => "executor_action_start"@,
        EventType::ExecutorSubstep => "executor_substep"@,
        EventType::ExecutorActionDone => "executor_action_done"@,
        EventType::CircuitBreak => "circuit_break"@,
        EventType::PolicyChange => "policy_change"@,
        EventType::SessionRevoke => "session_revoke"@,
    }
}

/// The event type whose text code is `s`.
pub open spec fn event_type_named(s: Seq<char>) -> Option<EventType> {
    if s == "trigger_fired"@ {
        Some(EventType::TriggerFired)
    } else if s == "evaluator_thought"@ {
        Some(EventType::EvaluatorThought)
    } else if s == "evaluator_decision"@ {
        Some(EventType::EvaluatorDecision)
    } else if s == "risk_gate_decision"@ {
        Some(EventType::RiskGateDecision)
    } else if s == "llm_escalate_in"@ {
        Some(EventType::LlmEscalateIn)
    } else if s == "llm_escalate_out"@ {
        Some(EventType::LlmEscalateOut)
    } else if s == "executor_action_start"@ {
        Some(EventType::ExecutorActionStart)
    } else if s == "executor_substep"@ {
        Some(EventType::ExecutorSubstep)
    } else if s == "executor_action_done"@ {
        Some(EventType::ExecutorActionDone)
    } else if s == "circuit_break"@ {
        Some(EventType::CircuitBreak)
    } else if s == "policy_change"@ {
        Some(EventType::PolicyChange)
    } else if s == "session_revoke"@ {
        Some(EventType::SessionRevoke)
    } else {
        None
    }
}

pub fn event_type_to_str(et: EventType) -> (r: &'static str)
    ensures
        r@ == event_type_code(et),
{
    match et {
        EventType::TriggerFired => "trigger_fired",
        EventType::EvaluatorThought => "evaluator_thought",
        EventType::EvaluatorDecision => "evaluator_decision",
        EventType::RiskGateDecision => "risk_gate_decision",
        EventType::LlmEscalateIn => "llm_escalate_in",
        EventType::LlmEscalateOut => "llm_escalate_out",
        EventType::ExecutorActionStart => "executor_action_start",
        EventType::ExecutorSubstep => "executor_substep",
        EventType::ExecutorActionDone => "executor_action_done",
        EventType::CircuitBreak => "circuit_break",
        EventType::PolicyChange => "policy_change",
        EventType::SessionRevoke => "session_revoke",
    }
}

pub fn event_type_from_str(s: &str) -> (r: Result<EventType, UnknownCode>)
    ensures
        r is Ok <==> event_type_named(s@) is Some,
        r matches Ok(e) ==> event_type_named(s@) == Some(e),
        r matches Err(u) ==> u.text@ == s@,
{
    if str_eq(s, "trigger_fired") {
        Ok(EventType::TriggerFired)
    } else if str_eq(s, "evaluator_thought") {
        Ok(EventType::EvaluatorThought)
    } else if str_eq(s, "evaluator_decision") {
        Ok(EventType::EvaluatorDecision)
    } else if str_eq(s, "risk_gate_decision") {
        Ok(EventType::RiskGateDecision)
    } else if str_eq(s, "llm_escalate_in") {
        Ok(EventType::LlmEscalateIn)
    } else if str_eq(s, "llm_escalate_out") {
        Ok(EventType::LlmEscalateOut)
    } else if str_eq(s, "executor_action_start") {
        Ok(EventType::ExecutorActionStart)
    } else if str_eq(s, "executor_substep") {
        Ok(EventType::ExecutorSubstep)
    } else if str_eq(s, "executor_action_done") {
        Ok(EventType::ExecutorActionDone)
    } else if str_eq(s, "circuit_break") {
        Ok(EventType::CircuitBreak)
    } else if str_eq(s, "policy_change") {
        Ok(EventType::PolicyChange)
    } else if str_eq(s, "session_revoke") {
        Ok(EventType::SessionRevoke)
    } else {
        Err(UnknownCode { text: s.to_owned() })
    }
}

/// The chain code an event is stored with, if it names a chain.
pub fn chain_to_str(c: Option<ChainId>) -> (r: Option<&'static str>)
    ensures
        c is None ==> r is None,
        c matches Some(x) ==> (r matches Some(t) && t@ == chain_code(x)),
{
    match c {
        Some(ChainId::Arc) => Some("arc"),
        Some(ChainId::ArbitrumSepolia) => Some("arbitrum_sepolia"),
        None => None,
    }
}

/// The chain a stored code names; an unknown code, like a missing one,
/// names none.
pub fn chain_from_str(s: Option<String>) -> (r: Option<ChainId>)
    ensures
        r == match s {
            Some(t) => chain_named(t@),
            None => None,
        },
{
    match s {
        Some(t) => if str_eq(t.as_str(), "arc") {
            Some(ChainId::Arc)
        } else if str_eq(t.as_str(), "arbitrum_sepolia") {
            Some(ChainId::ArbitrumSepolia)
        } else {
            None
        },
        None => None,
    }
}

/// A stored row of the audit table, as the database hands it back.
#[derive(Debug)]
pub struct AuditRow {
    pub id: i64,
    pub ts: UnixNanos,
    pub user_addr: String,
    pub event_type: String,
    pub policy_version: Option<i32>,
    pub payload: String,
    pub tx_hash: Option<String>,
    pub chain: Option<String>,
    pub cost_usd: Option<Real64>,
}

/// Why a stored row could not be read back.
#[derive(Debug)]
pub enum RowError {
    /// The user column is not an address.
    BadUserAddress { text: String },
    /// The event type column names no event type.
    UnknownEventType { text: String },
}

/// Reads a stored row back into an event: the user column must be an
/// address, then the event type column a known code; an unknown chain code
/// reads as no chain.
pub fn row_to_event(row: AuditRow) -> (r: Result<AuditEvent, RowError>)
    ensures
        address_from_str(row.user_addr@) is None ==> (r matches Err(RowError::BadUserAddress { text })
            && text@ == row.user_addr@),
        address_from_str(row.user_addr@) is Some && event_type_named(row.event_type@) is None ==> (
        r matches Err(RowError::UnknownEventType { text }) && text@ == row.event_type@),
        r is Ok <==> address_from_str(row.user_addr@) is Some && event_type_named(row.event_type@) is Some,
        r matches Ok(e) ==> {
            &&& e.id == row.id as u64
            &&& e.ts == row.ts
            &&& address_from_str(row.user_addr@) == Some(e.user@)
            &&& event_type_named(row.event_type@) == Some(e.event_type)
            &&& e.policy_version == match row.policy_version {
                Some(v) => Some(v as u32),
                None => None,
            }
            &&& e.payload == row.payload
            &&& e.tx_hash == row.tx_hash
            &&& e.chain == match row.chain {
                Some(t) => chain_named(t@),
                None => None,
            }
            &&& e.cost_usd == row.cost_usd
        },
{
    let user = match parse_address(row.user_addr.as_str()) {
        Some(b) => UserAddress::from_bytes(b),
        None => return Err(RowError::BadUserAddress { text: row.user_addr }),
    };
    let event_type = match event_type_from_str(row.event_type.as_str()) {
        Ok(e) => e,
        Err(_) => return Err(RowError::UnknownEventType { text: row.event_type }),
    };
    let policy_version = match row.policy_version {
        Some(v) => Some(v as u32),
        None => None,
    };
    Ok(
        AuditEvent {
            id: row.id as u64,
            ts: row.ts,
            user,
            event_type,
            policy_version,
            payload: row.payload,
            tx_hash: row.tx_hash,
            chain: chain_from_str(row.chain),
            cost_usd: row.cost_usd,
        },
    )
}

/// Decoding an event type's code gives the event type back.
pub proof fn law_event_type_code_round_trip(e: EventType)
    ensures
        event_type_named(event_type_code(e)) == Some(e),
{
    reveal_strlit("trigger_fired");
    reveal_strlit("evaluator_thought");
    reveal_strlit("evaluator_decision");
    reveal_strlit("risk_gate_decision");
    reveal_strlit("llm_escalate_in");
    reveal_strlit("llm_escalate_out");
    reveal_strlit("executor_action_start");
    reveal_strlit("executor_substep");
    reveal_strlit("executor_action_done");
    reveal_strlit("circuit_break");
    reveal_strlit("policy_change");
    reveal_strlit("session_revoke");
    assert("trigger_fired"@.len() == 13);
    assert("evaluator_thought"@.len() == 17);
    assert("evaluator_decision"@.len() == 18);
    assert("risk_gate_decision"@.len() == 18);
    assert("llm_escalate_in"@.len() == 15);
    assert("llm_escalate_out"@.len() == 16);
    assert("executor_action_start"@.len() == 21);
    assert("executor_substep"@.len() == 16);
    assert("executor_action_done"@.len() == 20);
    assert("circuit_break"@.len() == 13);
    assert("policy_change"@.len() == 13);
    assert("session_revoke"@.len() == 14);
    assert("trigger_fired"@[0] == 't');
    assert("circuit_break"@[0] == 'c');
    assert("policy_change"@[0] == 'p');
    assert("evaluator_decision"@[0] == 'e');
    assert("risk_gate_decision"@[0] == 'r');
    assert("llm_escalate_out"@[0] == 'l');
    assert("executor_substep"@[0] == 'e');
}

/// What `append` stored under the id it returned is what `get` gives back
/// for that id, and earlier events stay as they were.
pub proof fn law_audit_read_after_append(
    before: InMemoryAuditStore,
    after: InMemoryAuditStore,
    event: NewAuditEvent,
    id: u64,
)
    requires
        before.wf(),
        id == before.events().len() + 1,
        after.events() == before.events().push(stored_event(event, id)),
    ensures
        1 <= id <= after.events().len(),
        after.events()[id - 1] == stored_event(event, id),
        after.events()[id - 1].payload == event.payload,
        after.events()[id - 1].user == event.user,
        after.events()[id - 1].event_type == event.event_type,
        after.events()[id - 1].id == id,
        after.events()[id - 1].ts == event.ts,
        after.events()[id - 1].policy_version == event.policy_version,
        after.events()[id - 1].tx_hash == event.tx_hash,
        after.events()[id - 1].chain == event.chain,
        after.events()[id - 1].cost_usd == event.cost_usd,
        forall|k: int| 0 <= k < id - 1 ==> #[trigger] after.events()[k] == before.events()[k],
{
}

} // verus!
