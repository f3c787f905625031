//! Change plans for one node and rollout plans over a fleet of nodes.
use vstd::prelude::*;
use crate::identity::{hex_fixed, new_uuid, uuid_simple_text};
use crate::text::{owned, push_str};

verus! {

/// Risk level of a change plan.
#[derive(Debug, Clone, Copy, PartialEq, Eq, Structural, Default)]
pub enum RiskLevel {
    #[default]
    Low,
    Medium,
    High,
    Critical,
}

/// Progress of one step of a change plan.
#[derive(Debug, Clone, Copy, PartialEq, Eq, Structural, Default)]
pub enum StepStatus {
    #[default]
    Pending,
    Running,
    Completed,
    Failed,
    RolledBack,
}

/// One step of a change plan.
#[derive(Debug, Clone, PartialEq, Eq, Default)]
pub struct ExecutionStep {
    pub step_id: String,
    pub name: String,
    pub action: String,
    pub status: StepStatus,
}

/// Network probes run after a configuration has been applied.
#[derive(Debug, Clone, PartialEq, Eq)]
pub struct HealthCheckSpec {
    pub probe_gateway: bool,
    pub probe_dns: bool,
    pub controller_url: Option<String>,
    pub timeout_seconds: u64,
}

impl Default for HealthCheckSpec {
    /// Probe the gateway and DNS, no controller URL, 30 seconds.
    fn default() -> (r: Self)
        ensures
            r.probe_gateway,
            r.probe_dns,
            r.controller_url is None,
            r.timeout_seconds == 30,
    {
        HealthCheckSpec { probe_gateway: true, probe_dns: true, controller_url: None, timeout_seconds: 30 }
    }
}

/// A combined change plan for a single node.
#[derive(Debug, Clone, PartialEq, Eq)]
pub struct NodeChangePlan {
    pub id: u128,
    pub idempotency_key: String,
    pub target_node_id: u128,
    pub risk_level: RiskLevel,
    pub steps: Vec<ExecutionStep>,
    pub health_check: HealthCheckSpec,
}

/// `prefix` followed by the simple text form of some 128-bit identifier.
pub open spec fn keyed_by_uuid(key: Seq<char>, prefix: Seq<char>) -> bool {
    exists|k: u128| key == prefix + hex_fixed(k as nat, 32)
}

/// `prefix` followed by the simple text form of a fresh identifier.
fn fresh_key(prefix: &str) -> (r: String)
    ensures
        keyed_by_uuid(r@, prefix@),
{
    let k = new_uuid();
    let mut r = owned(prefix);
    let t = uuid_simple_text(k);
    push_str(&mut r, t.as_str());
    assert(r@ == prefix@ + hex_fixed(k as nat, 32));
    r
}

impl Default for NodeChangePlan {
    /// A low-risk plan with fresh identifiers, a `plan_` idempotency key, no steps and the
    /// default health checks.
    fn default() -> (r: Self)
        ensures
            keyed_by_uuid(r.idempotency_key@, "plan_"@),
            r.risk_level == RiskLevel::Low,
            r.steps@.len() == 0,
            r.health_check.probe_gateway && r.health_check.probe_dns,
            r.health_check.controller_url is None,
            r.health_check.timeout_seconds == 30,
    {
        let id = new_uuid();
        let idempotency_key = fresh_key("plan_");
        let target_node_id = new_uuid();
        NodeChangePlan {
            id,
            idempotency_key,
            target_node_id,
            risk_level: RiskLevel::Low,
            steps: Vec::new(),
            health_check: HealthCheckSpec::default(),
        }
    }
}

/// How a change is rolled out over the nodes of a fleet.
#[derive(Debug, Clone, Copy, PartialEq, Eq, Structural, Default)]
pub enum RolloutStrategy {
    /// One node at a time, each confirmed by an administrator.
    Manual,
    /// Every node at once.
    AllAtOnce,
    /// The first target alone, then the rest once it has succeeded.
    #[default]
    Canary,
    /// A batch of nodes at a time, bounded by how many may be unavailable.
    Batch,
}

/// Sizes of the batches of a batch rollout.
#[derive(Debug, Clone, PartialEq, Eq)]
pub struct BatchConfig {
    /// Nodes per batch.
    pub batch_size: usize,
    /// Greatest number of nodes that may be unavailable at the same time.
    pub max_unavailable: usize,
    /// Seconds to wait between batches.
    pub pause_between_batches_secs: u64,
}

impl Default for BatchConfig {
    /// One node per batch, one unavailable at most, 30 seconds between batches.
    fn default() -> (r: Self)
        ensures
            r.batch_size == 1,
            r.max_unavailable == 1,
            r.pause_between_batches_secs == 30,
    {
        BatchConfig { batch_size: 1, max_unavailable: 1, pause_between_batches_secs: 30 }
    }
}

/// Where one node stands in a rollout.
#[derive(Debug, Clone, Copy, PartialEq, Eq, Structural, Default)]
pub enum NodeRolloutState {
    #[default]
    Pending,
    Running,
    Succeeded,
    Failed,
    /// The node was offline; it is reconciled when it comes back.
    OfflineSkipped,
    /// An administrator skipped the node, with an audit record.
    SkippedWithAudit,
    /// The node was returned to its previous version.
    RolledBack,
}

/// Rollout status of one node.
#[derive(Debug, Clone, PartialEq, Eq)]
pub struct NodeRolloutStatus {
    pub node_id: u128,
    pub state: NodeRolloutState,
    pub current_step: Option<String>,
    pub error_message: Option<String>,
}

/// A rollout over several nodes.
#[derive(Debug, Clone, PartialEq, Eq)]
pub struct RolloutSpec {
    pub rollout_id: u128,
    pub idempotency_key: String,
    pub strategy: RolloutStrategy,
    pub batch_config: BatchConfig,
    /// Percentage of failed nodes at which the whole rollout stops.
    pub failure_threshold_percent: u32,
    /// Target nodes, in order of priority.
    pub targets: Vec<u128>,
    pub health_check: HealthCheckSpec,
    pub risk_level: RiskLevel,
}

impl Default for RolloutSpec {
    /// A medium-risk canary rollout with no targets, the default batches, a 20 % failure
    /// threshold, the default health checks and a `rollout_` idempotency key.
    fn default() -> (r: Self)
        ensures
            keyed_by_uuid(r.idempotency_key@, "rollout_"@),
            r.strategy == RolloutStrategy::Canary,
            r.batch_config.batch_size == 1,
            r.batch_config.max_unavailable == 1,
            r.batch_config.pause_between_batches_secs == 30,
            r.failure_threshold_percent == 20,
            r.targets@.len() == 0,
            r.health_check.probe_gateway && r.health_check.probe_dns,
            r.health_check.controller_url is None,
            r.health_check.timeout_seconds == 30,
            r.risk_level == RiskLevel::Medium,
    {
        let rollout_id = new_uuid();
        let idempotency_key = fresh_key("rollout_");
        RolloutSpec {
            rollout_id,
            idempotency_key,
            strategy: RolloutStrategy::Canary,
            batch_config: BatchConfig::default(),
            failure_threshold_percent: 20,
            targets: Vec::new(),
            health_check: HealthCheckSpec::default(),
            risk_level: RiskLevel::Medium,
        }
    }
}

/// Progress report of a rollout over the fleet.
#[derive(Debug, Clone, PartialEq, Eq, Default)]
pub struct RolloutReport {
    pub rollout_id: u128,
    pub status: String,
    pub strategy: String,
    pub progress_percent: u32,
    pub total_nodes: usize,
    pub succeeded_nodes: usize,
    pub failed_nodes: usize,
    pub pending_nodes: usize,
    pub error_message: Option<String>,
    pub node_statuses: Vec<NodeRolloutStatus>,
}

} // verus!
