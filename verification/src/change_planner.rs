//! Risk assessment and the standard sequence of steps of a single-node change.
use vstd::prelude::*;
use crate::errors::AegisError;
use crate::models::rollout::{ExecutionStep, NodeChangePlan, RiskLevel, StepStatus};
use crate::text::owned;

verus! {

/// The risk of a change: critical when it touches the management interface, high for a
/// network change, medium for a firewall change, low otherwise.
pub open spec fn risk_of(network: bool, management: bool, firewall: bool) -> RiskLevel {
    if management {
        RiskLevel::Critical
    } else if network {
        RiskLevel::High
    } else if firewall {
        RiskLevel::Medium
    } else {
        RiskLevel::Low
    }
}

/// Assesses the risk of a change by what it touches.
pub fn assess_risk(
    has_network_change: bool,
    affects_management_iface: bool,
    has_firewall_change: bool,
) -> (r: RiskLevel)
    ensures
        r == risk_of(has_network_change, affects_management_iface, has_firewall_change),
{
    if affects_management_iface {
        RiskLevel::Critical
    } else if has_network_change {
        RiskLevel::High
    } else if has_firewall_change {
        RiskLevel::Medium
    } else {
        RiskLevel::Low
    }
}

/// Identifier, name and action of each step of the standard plan, in order.
pub open spec fn standard_steps() -> Seq<(Seq<char>, Seq<char>, Seq<char>)> {
    seq![
        ("step_01_snapshot"@, "Snapshot Current System State"@,
            "Take system snapshot of firewall, network & services"@),
        ("step_02_temp_allow"@, "Install Temporary Management Allow Rule"@,
            "Bypass temporary allow rule for mTLS management interface"@),
        ("step_03_stage"@, "Stage Candidate Configuration"@,
            "Write candidate rules to staging directory"@),
        ("step_04_activate"@, "Activate Candidate Rules"@,
            "Atomic swap candidate rules into active runtime"@),
        ("step_05_health_check"@, "Probe Health Checks"@,
            "Probe gateway, DNS and Controller mTLS connectivity"@),
        ("step_06_confirm"@, "Confirm Rollout Completion"@,
            "Clean up temporary rules & commit final state"@),
    ]
}

/// `steps` are the standard steps, all pending.
pub open spec fn is_standard_plan(steps: Seq<ExecutionStep>) -> bool {
    &&& steps.len() == standard_steps().len()
    &&& forall|i: int|
        0 <= i < steps.len() ==> {
            &&& (#[trigger] steps[i]).step_id@ == standard_steps()[i].0
            &&& steps[i].name@ == standard_steps()[i].1
            &&& steps[i].action@ == standard_steps()[i].2
            &&& steps[i].status == StepStatus::Pending
        }
}

fn pending_step(id: &str, name: &str, action: &str) -> (r: ExecutionStep)
    ensures
        r.step_id@ == id@,
        r.name@ == name@,
        r.action@ == action@,
        r.status == StepStatus::Pending,
{
    ExecutionStep {
        step_id: owned(id),
        name: owned(name),
        action: owned(action),
        status: StepStatus::Pending,
    }
}

/// Planner of the standard, safe sequence of steps of a change (its rollback runs them in
/// reverse).
#[derive(Debug, Clone, Default)]
pub struct CombinedChangePlanner;

impl CombinedChangePlanner {
    pub fn new() -> (r: Self) {
        CombinedChangePlanner
    }

    /// Replaces the steps of `plan` with the six standard steps, all pending; the rest of
    /// the plan is kept.
    pub fn plan_execution(&self, plan: &mut NodeChangePlan) -> (r: Result<(), AegisError>)
        ensures
            r is Ok,
            is_standard_plan(final(plan).steps@),
            final(plan).id == old(plan).id,
            final(plan).idempotency_key == old(plan).idempotency_key,
            final(plan).target_node_id == old(plan).target_node_id,
            final(plan).risk_level == old(plan).risk_level,
            final(plan).health_check == old(plan).health_check,
    {
        let mut steps: Vec<ExecutionStep> = Vec::new();
        steps.push(
            pending_step(
                "step_01_snapshot",
                "Snapshot Current System State",
                "Take system snapshot of firewall, network & services",
            ),
        );
        steps.push(
            pending_step(
                "step_02_temp_allow",
                "Install Temporary Management Allow Rule",
                "Bypass temporary allow rule for mTLS management interface",
            ),
        );
        steps.push(
            pending_step(
                "step_03_stage",
                "Stage Candidate Configuration",
                "Write candidate rules to staging directory",
            ),
        );
        steps.push(
            pending_step(
                "step_04_activate",
                "Activate Candidate Rules",
                "Atomic swap candidate rules into active runtime",
            ),
        );
        steps.push(
            pending_step(
                "step_05_health_check",
                "Probe Health Checks",
                "Probe gateway, DNS and Controller mTLS connectivity",
            ),
        );
        steps.push(
            pending_step(
                "step_06_confirm",
                "Confirm Rollout Completion",
                "Clean up temporary rules & commit final state",
            ),
        );
        plan.steps = steps;
        Ok(())
    }
}

} // verus!
