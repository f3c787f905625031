use aegis_firewall::change_planner::{assess_risk, CombinedChangePlanner};
use aegis_firewall::models::rollout::{
    BatchConfig, NodeChangePlan, NodeRolloutState, NodeRolloutStatus, RiskLevel, RolloutSpec,
    RolloutStrategy, StepStatus,
};
use aegis_firewall::rollout::RolloutCoordinator;

fn status(id: u128, state: NodeRolloutState) -> NodeRolloutStatus {
    NodeRolloutStatus { node_id: id, state, current_step: None, error_message: None }
}

fn spec(strategy: RolloutStrategy, targets: Vec<u128>, batch: usize, max_unavailable: usize) -> RolloutSpec {
    let mut s = RolloutSpec::default();
    s.strategy = strategy;
    s.targets = targets;
    s.batch_config = BatchConfig { batch_size: batch, max_unavailable, pause_between_batches_secs: 0 };
    s
}

#[test]
fn fresh_rollout_all_at_once_dispatches_every_target() {
    let targets = vec![1u128, 2, 3];
    let st = RolloutCoordinator::init_node_statuses(&targets);
    assert_eq!(st.len(), 3);
    assert!(st.iter().all(|s| s.state == NodeRolloutState::Pending));
    let s = spec(RolloutStrategy::AllAtOnce, targets.clone(), 1, 1);
    assert_eq!(RolloutCoordinator::compute_next_batch(&s, &st), targets);
}

#[test]
fn canary_goes_first_then_batches() {
    let targets = vec![10u128, 20, 30, 40];
    let s = spec(RolloutStrategy::Canary, targets.clone(), 2, 1);
    let st = RolloutCoordinator::init_node_statuses(&targets);
    assert_eq!(RolloutCoordinator::compute_next_batch(&s, &st), vec![10]);

    let running = vec![status(10, NodeRolloutState::Running), status(20, NodeRolloutState::Pending)];
    assert!(RolloutCoordinator::compute_next_batch(&s, &running).is_empty());

    let passed = vec![
        status(10, NodeRolloutState::Succeeded),
        status(20, NodeRolloutState::Pending),
        status(30, NodeRolloutState::Pending),
        status(40, NodeRolloutState::Pending),
    ];
    assert_eq!(RolloutCoordinator::compute_next_batch(&s, &passed), vec![20, 30]);

    let failed = vec![status(10, NodeRolloutState::Failed), status(20, NodeRolloutState::Pending)];
    assert!(RolloutCoordinator::should_stop_on_canary_fail(10, &failed));
    assert!(RolloutCoordinator::compute_next_batch(&s, &failed).is_empty());
}

#[test]
fn canary_batch_size_zero_means_one() {
    let s = spec(RolloutStrategy::Canary, vec![1, 2, 3], 0, 1);
    let st = vec![
        status(1, NodeRolloutState::Succeeded),
        status(2, NodeRolloutState::Pending),
        status(3, NodeRolloutState::Pending),
    ];
    assert_eq!(RolloutCoordinator::compute_next_batch(&s, &st), vec![2]);
}

#[test]
fn batch_respects_max_unavailable() {
    let s = spec(RolloutStrategy::Batch, vec![1, 2, 3, 4, 5], 3, 2);
    let st = vec![
        status(1, NodeRolloutState::Running),
        status(2, NodeRolloutState::Pending),
        status(3, NodeRolloutState::Pending),
        status(4, NodeRolloutState::Pending),
    ];
    assert_eq!(RolloutCoordinator::compute_next_batch(&s, &st), vec![2]);
    let s2 = spec(RolloutStrategy::Batch, vec![1, 2, 3, 4, 5], 3, 1);
    assert!(RolloutCoordinator::compute_next_batch(&s2, &st).is_empty());
    let s3 = spec(RolloutStrategy::Batch, vec![1, 2, 3, 4, 5], 2, 10);
    assert_eq!(RolloutCoordinator::compute_next_batch(&s3, &st), vec![2, 3]);
}

#[test]
fn manual_dispatches_one_node() {
    let s = spec(RolloutStrategy::Manual, vec![1, 2], 5, 5);
    let st = vec![status(1, NodeRolloutState::Succeeded), status(2, NodeRolloutState::Pending), status(3, NodeRolloutState::Pending)];
    assert_eq!(RolloutCoordinator::compute_next_batch(&s, &st), vec![2]);
}

#[test]
fn failure_threshold_and_rollback_order() {
    let mut s = spec(RolloutStrategy::Batch, vec![1, 2, 3, 4, 5], 1, 1);
    s.failure_threshold_percent = 40;
    let st = vec![
        status(1, NodeRolloutState::Succeeded),
        status(2, NodeRolloutState::Failed),
        status(3, NodeRolloutState::Succeeded),
        status(4, NodeRolloutState::Pending),
    ];
    // 1 failure out of 5 targets is 20 %.
    assert!(!RolloutCoordinator::check_failure_threshold(&s, &st));
    s.failure_threshold_percent = 20;
    assert!(RolloutCoordinator::check_failure_threshold(&s, &st));
    let empty = spec(RolloutStrategy::Batch, vec![], 1, 1);
    assert!(!RolloutCoordinator::check_failure_threshold(&empty, &st));
    assert_eq!(RolloutCoordinator::compute_rollback_targets(&st), vec![3, 1]);
    assert_eq!(RolloutCoordinator::select_canary_node(&[7, 8]), Some(7));
    assert_eq!(RolloutCoordinator::select_canary_node(&[]), None);
}

#[test]
fn rollout_defaults() {
    let s = RolloutSpec::default();
    assert_eq!(s.strategy, RolloutStrategy::Canary);
    assert_eq!(s.failure_threshold_percent, 20);
    assert!(s.idempotency_key.starts_with("rollout_"));
    assert_eq!(s.idempotency_key.len(), "rollout_".len() + 32);
    let b = BatchConfig::default();
    assert_eq!((b.batch_size, b.max_unavailable, b.pause_between_batches_secs), (1, 1, 30));
}

#[test]
fn risk_assessment() {
    assert_eq!(assess_risk(true, true, true), RiskLevel::Critical);
    assert_eq!(assess_risk(true, false, true), RiskLevel::High);
    assert_eq!(assess_risk(false, false, true), RiskLevel::Medium);
    assert_eq!(assess_risk(false, false, false), RiskLevel::Low);
}

#[test]
fn change_plan_has_six_pending_steps() {
    let planner = CombinedChangePlanner::new();
    let mut plan = NodeChangePlan::default();
    assert!(plan.idempotency_key.starts_with("plan_"));
    let key = plan.idempotency_key.clone();
    assert!(planner.plan_execution(&mut plan).is_ok());
    assert_eq!(plan.steps.len(), 6);
    assert_eq!(plan.steps[0].step_id, "step_01_snapshot");
    assert_eq!(plan.steps[5].step_id, "step_06_confirm");
    assert_eq!(plan.steps[4].name, "Probe Health Checks");
    assert!(plan.steps.iter().all(|s| s.status == StepStatus::Pending));
    assert_eq!(plan.idempotency_key, key);
}
