//! The last check before a plan is executed.
use vstd::prelude::*;

use crate::evaluator::ActionPlan;
use crate::policy::{Policy, PolicyStatus};

verus! {

/// Why the risk gate refused a plan.
#[derive(Clone, Copy, Debug, PartialEq, Eq, Structural)]
pub enum GateRejection {
    /// The policy is paused.
    Paused,
    /// The plan has no actions.
    NoActions,
    /// The plan's estimated cost exceeds the policy's gas cap.
    CostExceedsCap,
}

/// The risk gate's verdict on a plan.
#[derive(Clone, Copy, Debug, PartialEq, Eq, Structural)]
pub enum GateDecision {
    Pass,
    Reject { reason: GateRejection },
}

impl GateRejection {
    /// The fixed message of a rejection; a cost rejection's message names the
    /// two amounts and is written by the caller.
    pub fn message(self) -> (r: &'static str)
        ensures
            self == GateRejection::Paused ==> r@ == "policy is paused"@,
            self == GateRejection::NoActions ==> r@ == "plan has no actions"@,
            self == GateRejection::CostExceedsCap ==> r@ == "estimated cost exceeds policy max_gas_usd_per_action"@,
    {
        match self {
            GateRejection::Paused => "policy is paused",
            GateRejection::NoActions => "plan has no actions",
            GateRejection::CostExceedsCap => "estimated cost exceeds policy max_gas_usd_per_action",
        }
    }
}

/// The risk gate's verdict, checking in order: paused policy, empty plan, cost
/// over the gas cap.
pub open spec fn gate_verdict(p: Policy, plan: ActionPlan, cost_exceeds_cap: bool) -> GateDecision {
    if p.status == PolicyStatus::Paused {
        GateDecision::Reject { reason: GateRejection::Paused }
    } else if plan.actions@.len() == 0 {
        GateDecision::Reject { reason: GateRejection::NoActions }
    } else if cost_exceeds_cap {
        GateDecision::Reject { reason: GateRejection::CostExceedsCap }
    } else {
        GateDecision::Pass
    }
}

/// Passes a plan only when the policy is active, the plan has an action and
/// its estimated cost is within the gas cap (`cost_exceeds_cap` is whether
/// the plan's estimated cost in USD exceeds `max_gas_usd_per_action`).
pub fn check(policy: &Policy, plan: &ActionPlan, cost_exceeds_cap: bool) -> (r: GateDecision)
    ensures
        r == gate_verdict(*policy, *plan, cost_exceeds_cap),
{
    if policy.status == PolicyStatus::Paused {
        return GateDecision::Reject { reason: GateRejection::Paused };
    }
    if plan.actions.len() == 0 {
        return GateDecision::Reject { reason: GateRejection::NoActions };
    }
    if cost_exceeds_cap {
        return GateDecision::Reject { reason: GateRejection::CostExceedsCap };
    }
    GateDecision::Pass
}

/// A paused policy never lets a plan through.
pub proof fn law_paused_never_passes(p: Policy, plan: ActionPlan, cost_exceeds_cap: bool)
    requires
        p.status == PolicyStatus::Paused,
    ensures
        gate_verdict(p, plan, cost_exceeds_cap) != GateDecision::Pass,
{
}

} // verus!
