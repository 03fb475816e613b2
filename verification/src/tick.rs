//! One evaluation round for one user: what is skipped, and which audit
//! events record the round.
use vstd::prelude::*;

use crate::audit::{stored_event, AuditEvent, EventType, InMemoryAuditStore, NewAuditEvent};
use crate::policy_store::InMemoryPolicyStore;
use crate::evaluator::Decision;
use crate::risk_gate::{check, gate_verdict, GateDecision, GateRejection};
use crate::model::{instant_ok, NANOS_PER_MILLI, UnixNanos, UserAddress};
use crate::policy::{Policy, PolicyStatus};

verus! {

/// Why a round ends before evaluation.
#[derive(Clone, Copy, Debug, PartialEq, Eq, Structural)]
pub enum SkipReason {
    NoPolicy,
    Paused,
    NoSnapshot,
}

/// Whether the round stops at the policy: the user has none, or it is paused.
pub fn policy_skip(policy: Option<&Policy>) -> (r: Option<SkipReason>)
    ensures
        policy is None ==> r == Some(SkipReason::NoPolicy),
        policy matches Some(p) && p.status == PolicyStatus::Paused ==> r == Some(SkipReason::Paused),
        policy matches Some(p) && p.status == PolicyStatus::Active ==> r is None,
{
    match policy {
        None => Some(SkipReason::NoPolicy),
        Some(p) => if p.status == PolicyStatus::Paused {
            Some(SkipReason::Paused)
        } else {
            None
        },
    }
}

/// Whether the round stops for want of a market snapshot.
pub fn snapshot_skip(snapshot_available: bool) -> (r: Option<SkipReason>)
    ensures
        r == if snapshot_available {
            None::<SkipReason>
        } else {
            Some(SkipReason::NoSnapshot)
        },
{
    if snapshot_available {
        None
    } else {
        Some(SkipReason::NoSnapshot)
    }
}

/// The event that opens a round: `payload` names the trigger.
pub fn trigger_event(user: UserAddress, payload: String, now: UnixNanos) -> (r: NewAuditEvent)
    ensures
        r == NewAuditEvent::new_spec(user, EventType::TriggerFired, payload, now),
{
    NewAuditEvent::new(user, EventType::TriggerFired, payload, now)
}

/// The `k`-th event that records an evaluation of `n` thoughts: the
/// thoughts in order, then the decision; event `k` is stamped `k + 1`
/// milliseconds after `now` and carries the policy version.
pub open spec fn evaluation_event(
    user: UserAddress,
    policy_version: u32,
    now: UnixNanos,
    thoughts: Seq<String>,
    decision: String,
    k: int,
) -> NewAuditEvent {
    NewAuditEvent {
        ts: (now + (k + 1) * NANOS_PER_MILLI) as i128,
        user,
        event_type: if k < thoughts.len() {
            EventType::EvaluatorThought
        } else {
            EventType::EvaluatorDecision
        },
        policy_version: Some(policy_version),
        payload: if k < thoughts.len() {
            thoughts[k]
        } else {
            decision
        },
        tx_hash: None,
        chain: None,
        cost_usd: None,
    }
}

/// The events that record an evaluation: one per thought (JSON text), in
/// order, then the decision (JSON text).
pub fn evaluation_events(
    user: UserAddress,
    policy_version: u32,
    now: UnixNanos,
    thoughts: Vec<String>,
    decision: String,
) -> (r: Vec<NewAuditEvent>)
    requires
        instant_ok(now),
        thoughts@.len() < 0x1_0000_0000,
    ensures
        r@.len() == thoughts@.len() + 1,
        forall|k: int| 0 <= k < thoughts@.len() ==> (#[trigger] r@[k]).payload == thoughts@[k],
        r@[thoughts@.len() as int].payload == decision,
        forall|k: int|
            0 <= k < r@.len() ==> #[trigger] r@[k] == evaluation_event(
                user,
                policy_version,
                now,
                thoughts@,
                decision,
                k,
            ),
{
    let ghost ts = thoughts@;
    let n = thoughts.len();
    let mut thoughts = thoughts;
    let mut out: Vec<NewAuditEvent> = Vec::new();
    let mut rest: Vec<String> = Vec::new();
    // take the thoughts out, last first, so that each can be moved into its event
    while thoughts.len() > 0
        invariant
            thoughts@.len() + rest@.len() == ts.len(),
            thoughts@ == ts.subrange(0, thoughts@.len() as int),
            forall|j: int| 0 <= j < rest@.len() ==> #[trigger] rest@[j] == ts[ts.len() - 1 - j],
        decreases thoughts@.len(),
    {
        let t = thoughts.pop().unwrap();
        rest.push(t);
    }
    let mut k: usize = 0;
    while k < n
        invariant
            n == ts.len(),
            n < 0x1_0000_0000,
            instant_ok(now),
            k <= n,
            rest@.len() == n - k,
            forall|j: int| 0 <= j < rest@.len() ==> #[trigger] rest@[j] == ts[k + (rest@.len() - 1 - j)],
            out@.len() == k,
            forall|j: int|
                0 <= j < k ==> #[trigger] out@[j] == evaluation_event(user, policy_version, now, ts, decision, j),
        decreases n - k,
    {
        let t = rest.pop().unwrap();
        let ts_k: i128 = now + (k as i128 + 1) * NANOS_PER_MILLI;
        let e = NewAuditEvent::new(user, EventType::EvaluatorThought, t, ts_k).with_policy_version(
            policy_version,
        );
        out.push(e);
        k = k + 1;
    }
    let ts_d: i128 = now + (n as i128 + 1) * NANOS_PER_MILLI;
    out.push(
        NewAuditEvent::new(user, EventType::EvaluatorDecision, decision, ts_d).with_policy_version(
            policy_version,
        ),
    );
    out
}

/// What follows a round once its decision is known.
#[derive(Clone, Copy, Debug, PartialEq, Eq, Structural)]
pub enum FollowUp {
    /// Nothing: no plan to act on, or no policy to check it against.
    Nothing,
    /// Execute the plan.
    Execute,
    /// Record the risk gate's rejection of the plan.
    RecordRejection { reason: GateRejection },
}

/// What follows a round: a plan to act on goes through the risk gate under
/// the user's current policy; it is executed if the risk gate passes it, and
/// the rejection is recorded otherwise.
pub open spec fn follow_up_of(
    decision: Option<Decision>,
    policy: Option<Policy>,
    cost_exceeds_cap: bool,
) -> FollowUp {
    match decision {
        Some(Decision::Act { plan }) => match policy {
            Some(p) => match gate_verdict(p, plan, cost_exceeds_cap) {
                GateDecision::Pass => FollowUp::Execute,
                GateDecision::Reject { reason } => FollowUp::RecordRejection { reason },
            },
            None => FollowUp::Nothing,
        },
        _ => FollowUp::Nothing,
    }
}

/// Decides what follows a round; `cost_exceeds_cap` is whether the plan's
/// estimated cost exceeds the policy's gas cap.
pub fn follow_up(decision: Option<&Decision>, policy: Option<&Policy>, cost_exceeds_cap: bool) -> (r:
    FollowUp)
    ensures
        r == follow_up_of(
            match decision {
                Some(d) => Some(*d),
                None => None,
            },
            match policy {
                Some(p) => Some(*p),
                None => None,
            },
            cost_exceeds_cap,
        ),
{
    match decision {
        Some(Decision::Act { plan }) => match policy {
            Some(p) => match check(p, plan, cost_exceeds_cap) {
                GateDecision::Pass => FollowUp::Execute,
                GateDecision::Reject { reason } => FollowUp::RecordRejection { reason },
            },
            None => FollowUp::Nothing,
        },
        _ => FollowUp::Nothing,
    }
}


/// The events of an evaluation keep the evaluator's order: event `k` is
/// thought `k` of the user, stamped `k + 1` milliseconds after `now`, under
/// the policy version; the event after the last thought is the decision.
pub proof fn law_evaluation_events_keep_thoughts(
    user: UserAddress,
    policy_version: u32,
    now: UnixNanos,
    thoughts: Seq<String>,
    decision: String,
)
    requires
        instant_ok(now),
        thoughts.len() < 0x1_0000_0000,
    ensures
        forall|k: int|
            0 <= k < thoughts.len() ==> {
                let e = #[trigger] evaluation_event(user, policy_version, now, thoughts, decision, k);
                &&& e.payload == thoughts[k]
                &&& e.event_type == EventType::EvaluatorThought
                &&& e.ts == now + (k + 1) * 1_000_000
                &&& e.user == user
                &&& e.policy_version == Some(policy_version)
            },
        ({
            let e = evaluation_event(user, policy_version, now, thoughts, decision, thoughts.len() as int);
            &&& e.payload == decision
            &&& e.event_type == EventType::EvaluatorDecision
            &&& e.ts == now + (thoughts.len() + 1) * 1_000_000
            &&& e.user == user
            &&& e.policy_version == Some(policy_version)
        }),
{
    assert forall|k: int| 0 <= k < thoughts.len() implies {
        let e = #[trigger] evaluation_event(user, policy_version, now, thoughts, decision, k);
        &&& e.payload == thoughts[k]
        &&& e.event_type == EventType::EvaluatorThought
        &&& e.ts == now + (k + 1) * 1_000_000
        &&& e.user == user
        &&& e.policy_version == Some(policy_version)
    } by {
        assert(0 <= (k + 1) * NANOS_PER_MILLI <= 0x1_0000_0001 * NANOS_PER_MILLI) by (nonlinear_arith)
            requires
                0 <= k <= 0x1_0000_0000,
        ;
    }
    let n = thoughts.len() as int;
    assert(0 <= (n + 1) * NANOS_PER_MILLI <= 0x1_0000_0001 * NANOS_PER_MILLI) by (nonlinear_arith)
        requires
            0 <= n <= 0x1_0000_0000,
    ;
}

/// The events of an evaluation are stamped in strictly increasing order:
/// every thought, in order, then the decision last.
pub proof fn law_evaluation_events_in_order(
    user: UserAddress,
    policy_version: u32,
    now: UnixNanos,
    thoughts: Seq<String>,
    decision: String,
)
    requires
        instant_ok(now),
        thoughts.len() < 0x1_0000_0000,
    ensures
        forall|a: int, b: int|
            0 <= a < b <= thoughts.len() ==> #[trigger] evaluation_event(
                user,
                policy_version,
                now,
                thoughts,
                decision,
                a,
            ).ts < #[trigger] evaluation_event(user, policy_version, now, thoughts, decision, b).ts,
        forall|k: int|
            0 <= k < thoughts.len() ==> #[trigger] evaluation_event(
                user,
                policy_version,
                now,
                thoughts,
                decision,
                k,
            ).event_type == EventType::EvaluatorThought,
        evaluation_event(user, policy_version, now, thoughts, decision, thoughts.len() as int).event_type
            == EventType::EvaluatorDecision,
        evaluation_event(user, policy_version, now, thoughts, decision, thoughts.len() as int).payload
            == decision,
{
    assert forall|a: int, b: int| 0 <= a < b <= thoughts.len() implies #[trigger] evaluation_event(
        user,
        policy_version,
        now,
        thoughts,
        decision,
        a,
    ).ts < #[trigger] evaluation_event(user, policy_version, now, thoughts, decision, b).ts by {
        assert((a + 1) * NANOS_PER_MILLI < (b + 1) * NANOS_PER_MILLI) by (nonlinear_arith)
            requires
                a < b,
        ;
        assert((b + 1) * NANOS_PER_MILLI <= 0x1_0000_0001 * NANOS_PER_MILLI) by (nonlinear_arith)
            requires
                b <= 0x1_0000_0000,
        ;
    }
}

/// Why a round skips evaluation, checked in order: the user has no
/// policy, the policy is paused, there is no market snapshot.
pub open spec fn round_skip(policy: Option<Policy>, snapshot_available: bool) -> Option<SkipReason> {
    match policy {
        None => Some(SkipReason::NoPolicy),
        Some(p) => if p.status == PolicyStatus::Paused {
            Some(SkipReason::Paused)
        } else if !snapshot_available {
            Some(SkipReason::NoSnapshot)
        } else {
            None
        },
    }
}

/// How a round ended: the id of its trigger event, why it skipped
/// evaluation, if it did, and otherwise the id of its decision event.
#[derive(Clone, Copy, Debug, PartialEq, Eq, Structural)]
pub struct RoundOutcome {
    pub trigger_event_id: u64,
    pub skipped: Option<SkipReason>,
    pub decision_event_id: Option<u64>,
}

/// The audit trail has no room for a round's evaluation events.
#[derive(Clone, Copy, Debug, PartialEq, Eq, Structural)]
pub struct AuditFull {
    pub trigger_event_id: u64,
}

/// The audit trail after a round's evaluation: `before`, the trigger event,
/// then the evaluation events, each under the next id.
pub open spec fn round_events(
    before: Seq<AuditEvent>,
    trigger: NewAuditEvent,
    user: UserAddress,
    policy_version: u32,
    now: UnixNanos,
    thoughts: Seq<String>,
    decision: String,
) -> Seq<AuditEvent> {
    let n0 = before.len();
    before.push(stored_event(trigger, (n0 + 1) as u64)) + Seq::new(
        thoughts.len() + 1,
        |k: int|
            stored_event(
                evaluation_event(user, policy_version, now, thoughts, decision, k),
                (n0 + 2 + k) as u64,
            ),
    )
}

/// One evaluation round for `user`: the trigger event is recorded first;
/// the round skips when the user has no policy, the policy is paused, or
/// no snapshot is available; otherwise `evaluate` gives the thoughts and the
/// decision (JSON text) for the user's policy, and they are recorded in
/// order under the policy version.
pub fn run_round<E: FnOnce(&Policy) -> (Vec<String>, String)>(
    audit: &mut InMemoryAuditStore,
    policies: &InMemoryPolicyStore,
    user: UserAddress,
    trigger_payload: String,
    now: UnixNanos,
    snapshot_available: bool,
    evaluate: E,
) -> (r: Result<RoundOutcome, AuditFull>)
    requires
        old(audit).wf(),
        policies.wf(),
        instant_ok(now),
        old(audit).events().len() + 2 <= u64::MAX,
        forall|p: &Policy| evaluate.requires((p,)),
    ensures
        final(audit).wf(),
        ({
            let n0 = old(audit).events().len();
            let trigger = NewAuditEvent::new_spec(user, EventType::TriggerFired, trigger_payload, now);
            match round_skip(policies.lookup(user), snapshot_available) {
                Some(reason) => {
                    &&& r == Ok::<RoundOutcome, AuditFull>(
                        RoundOutcome {
                            trigger_event_id: (n0 + 1) as u64,
                            skipped: Some(reason),
                            decision_event_id: None,
                        },
                    )
                    &&& final(audit).events() == old(audit).events().push(stored_event(trigger, (n0 + 1) as u64))
                },
                None => exists|thoughts: Vec<String>, decision: String|
                    {
                        &&& #[trigger] evaluate.ensures((&policies.lookup(user)->0,), (thoughts, decision))
                        &&& match r {
                            Ok(o) => {
                                &&& o == RoundOutcome {
                                    trigger_event_id: (n0 + 1) as u64,
                                    skipped: None,
                                    decision_event_id: Some((n0 + 2 + thoughts@.len()) as u64),
                                }
                                &&& final(audit).events() == round_events(
                                    old(audit).events(),
                                    trigger,
                                    user,
                                    policies.lookup(user)->0.version,
                                    now,
                                    thoughts@,
                                    decision,
                                )
                            },
                            Err(e) => {
                                &&& e.trigger_event_id == n0 + 1
                                &&& (n0 + 3 + thoughts@.len() > u64::MAX || thoughts@.len() >= 0xffff_ffff)
                                &&& final(audit).events() == old(audit).events().push(
                                    stored_event(trigger, (n0 + 1) as u64),
                                )
                            },
                        }
                    },
            }
        }),
{
    let ghost n0 = audit.events().len();
    let ghost before = audit.events();
    let trigger_id = audit.append(trigger_event(user, trigger_payload, now));
    let policy = policies.get(user);
    if let Some(reason) = policy_skip(policy) {
        return Ok(RoundOutcome { trigger_event_id: trigger_id, skipped: Some(reason), decision_event_id: None });
    }
    let policy = match policy {
        Some(p) => p,
        None => {
            return Ok(RoundOutcome { trigger_event_id: trigger_id, skipped: Some(SkipReason::NoPolicy), decision_event_id: None });
        },
    };
    if let Some(reason) = snapshot_skip(snapshot_available) {
        return Ok(RoundOutcome { trigger_event_id: trigger_id, skipped: Some(reason), decision_event_id: None });
    }
    let (thoughts, decision) = evaluate(policy);
    let ghost tv = thoughts;
    let ghost ts = thoughts@;
    let ghost dec = decision;
    assert(evaluate.ensures((&policies.lookup(user)->0,), (tv, dec)));
    let n = thoughts.len();
    if n >= 0xffff_ffff || trigger_id > u64::MAX - 2 - n as u64 {
        return Err(AuditFull { trigger_event_id: trigger_id });
    }
    let events = evaluation_events(user, policy.version, now, thoughts, decision);
    let ghost all = events@;
    let ghost mid = audit.events();
    assert(forall|j: int| 0 <= j < all.len() ==> all[j] == evaluation_event(user, policy.version, now, ts, dec, j));
    let mut rest = events;
    let mut k: usize = 0;
    let mut last_id: u64 = trigger_id;
    while k <= n
        invariant
            audit.wf(),
            n == ts.len(),
            n < 0xffff_ffff,
            all.len() == n + 1,
            k <= n + 1,
            rest@ == all.subrange(k as int, all.len() as int),
            mid.len() == n0 + 1,
            trigger_id == n0 + 1,
            trigger_id + 2 + n <= u64::MAX,
            audit.events().len() == n0 + 1 + k,
            audit.events().subrange(0, (n0 + 1) as int) == mid,
            forall|j: int| 0 <= j < k ==> #[trigger] audit.events()[n0 + 1 + j] == stored_event(all[j], (n0 + 2 + j) as u64),
            k > 0 ==> last_id == n0 + 1 + k,
        decreases n + 1 - k,
    {
        let e = rest.remove(0);
        last_id = audit.append(e);
        k = k + 1;
    }
    proof {
        let trig = NewAuditEvent::new_spec(user, EventType::TriggerFired, trigger_payload, now);
        let want = round_events(before, trig, user, policy.version, now, ts, dec);
        assert(mid == before.push(stored_event(trig, (n0 + 1) as u64)));
        assert(want.len() == audit.events().len());
        assert forall|i: int| 0 <= i < want.len() implies audit.events()[i] == want[i] by {
            if i < n0 + 1 {
                assert(audit.events()[i] == audit.events().subrange(0, (n0 + 1) as int)[i]);
            } else {
                let j = i - n0 - 1;
                assert(audit.events()[n0 + 1 + j] == stored_event(all[j], (n0 + 2 + j) as u64));
                assert(all[j] == evaluation_event(user, policy.version, now, ts, dec, j));
            }
        }
        assert(audit.events() =~= want);
    }
    Ok(RoundOutcome { trigger_event_id: trigger_id, skipped: None, decision_event_id: Some(last_id) })
}

} // verus!
