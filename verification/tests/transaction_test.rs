use aegis_firewall::errors::{AegisError, ExecutionId, PolicyId, SnapshotId, Timestamp};
use aegis_firewall::models::rollout::NodeChangePlan;
use aegis_firewall::runtime::{
    capability_report, command_text, firewall_state_from, listing_text, nft_run_outcome, restore_action,
    MockProcessRunner, ProcessOutput, ProcessRequest, RestoreAction,
};
use aegis_firewall::snapshot::{FirewallSnapshot, SnapshotManager};
use aegis_firewall::transaction::{
    decide_after, health_check_requests, health_report, ApplyDecision, ApplyExecution, ApplyStep,
    ExecutionState, SafeApplyLedger, StepOutcome,
};
use aegis_firewall::models::security::SignedPolicyBundle;

fn at(secs: i64) -> Timestamp {
    Timestamp { secs, nanos: 0 }
}

fn snapshot(id: u128, content: &str) -> FirewallSnapshot {
    SnapshotManager::build_snapshot("hash", content, "Pre-apply", SnapshotId(id), at(5))
}

#[test]
fn checksum_is_sha256_hex() {
    assert_eq!(
        FirewallSnapshot::compute_checksum("abc"),
        "ba7816bf8f01cfea414140de5dae2223b00361a396177a9cb410ff61f20015ad"
    );
    assert_eq!(
        FirewallSnapshot::compute_checksum(""),
        "e3b0c44298fc1c149afbf4c8996fb92427ae41e4649b934ca495991b7852b855"
    );
    let s = snapshot(1, "table inet aegis_filter { chain input { policy drop; } }");
    assert!(s.verify_checksum());
    let mut bad = s.clone();
    bad.ruleset_content.push(' ');
    assert!(!bad.verify_checksum());
    assert!(matches!(SnapshotManager::check_read(bad), Err(AegisError::Storage(_))));
    assert!(SnapshotManager::check_read(s).is_ok());
}

#[test]
fn snapshot_manager_layout_and_retention() {
    let m = SnapshotManager::default_prod();
    assert_eq!(m.base_dir_text(), "/var/lib/aegisnode/snapshots");
    assert_eq!(m.retention(), 10);
    let small = SnapshotManager::new("/tmp/s", 2);
    let id = SnapshotId(0xa1a2a3a4b1b2c1c2d1d2d3d4d5d6d7d8);
    assert_eq!(small.dir_of(id), "/tmp/s/a1a2a3a4-b1b2-c1c2-d1d2-d3d4d5d6d7d8");
    let victims = small.retention_victims(&[at(30), at(10), at(20), at(10)]);
    assert_eq!(victims, vec![1, 3]);
    assert!(small.retention_victims(&[at(1), at(2)]).is_empty());
}

#[test]
fn uuid_text_forms() {
    // A fresh plan is keyed by `plan_` and the 32 lower-case hex digits of a version-4 UUID.
    let plan = NodeChangePlan::default();
    let key = plan.idempotency_key.clone();
    assert_eq!(key.len(), 37);
    assert!(key.starts_with("plan_"));
    let digits = &key[5..];
    assert!(digits.chars().all(|c| c.is_ascii_digit() || ('a'..='f').contains(&c)));
    assert_eq!(&digits[12..13], "4");
    assert_ne!(NodeChangePlan::default().idempotency_key, key);
    // The hyphenated form names the snapshot directory.
    let m = SnapshotManager::new("/x", 1);
    assert_eq!(m.dir_of(SnapshotId(0)), "/x/00000000-0000-0000-0000-000000000000");
}

#[test]
fn safe_apply_confirm_flow() {
    let mut l = SafeApplyLedger::new();
    let id = ExecutionId(1);
    assert!(l.acquire_lock(id).is_ok());
    let other = l.acquire_lock(ExecutionId(2));
    assert!(matches!(other, Err(AegisError::Conflict(ref m)) if m.contains("in progress")));
    let e = l.record_applied(id, PolicyId(9), snapshot(3, "x"), 30, at(100));
    assert_eq!(e.state, ExecutionState::AppliedPendingConfirmation);
    assert_eq!(e.expires_at, at(130));
    assert_eq!(e.snapshot_id, SnapshotId(3));
    let c = l.confirm(id).unwrap();
    assert_eq!(c.state, ExecutionState::Committed);
    assert_eq!(l.active_execution(), None);
    assert!(matches!(l.confirm(id), Err(AegisError::Conflict(ref m)) if m.ends_with("in state Committed")));
    assert_eq!(ExecutionState::RollingBack.name(), "RollingBack");
    assert!(matches!(l.confirm(ExecutionId(77)), Err(AegisError::NotFound(_))));
    // The rollback timer finds nothing to do once the execution is confirmed.
    assert!(!l.rollback_due_on_timeout(id));
    // The lock is free again.
    assert!(l.acquire_lock(ExecutionId(2)).is_ok());
}

#[test]
fn safe_apply_rollback_on_timeout() {
    let mut l = SafeApplyLedger::new();
    let id = ExecutionId(5);
    l.acquire_lock(id).unwrap();
    l.record_applied(id, PolicyId(1), snapshot(6, "x"), 1200, at(0));
    assert!(l.rollback_due_on_timeout(id));
    assert_eq!(l.get_execution(id).unwrap().state, ExecutionState::RollingBack);
    l.finish_timeout_rollback(id, true);
    let e = l.get_execution(id).unwrap();
    assert_eq!(e.state, ExecutionState::RolledBack);
    assert!(e.error_message.unwrap().contains("timeout"));
    assert!(l.acquire_lock(ExecutionId(6)).is_ok());
}

#[test]
fn safe_apply_manual_rollback() {
    let mut l = SafeApplyLedger::new();
    let id = ExecutionId(8);
    l.acquire_lock(id).unwrap();
    l.record_applied(id, PolicyId(1), snapshot(6, "ruleset"), 30, at(0));
    assert_eq!(l.active_execution(), Some(id));
    let snap = l.begin_rollback(id).unwrap();
    assert_eq!(snap.ruleset_content, "ruleset");
    assert_eq!(l.active_execution(), Some(id));
    let e = l.finish_rollback(id, false, "Some(Firewall(\"boom\"))").unwrap();
    assert_eq!(l.active_execution(), None);
    assert_eq!(e.state, ExecutionState::Failed);
    assert_eq!(e.error_message.unwrap(), "Rollback failed: Some(Firewall(\"boom\"))");
    assert!(matches!(l.begin_rollback(ExecutionId(99)), Err(AegisError::NotFound(_))));
    let ok = l.finish_rollback(id, true, "").unwrap();
    assert_eq!(ok.state, ExecutionState::RolledBack);
}

#[test]
fn apply_steps_and_aborts() {
    assert_eq!(decide_after(ApplyStep::Validate, StepOutcome::Passed, &[]), ApplyDecision::Proceed(ApplyStep::Compile));
    assert_eq!(decide_after(ApplyStep::HealthCheck, StepOutcome::Passed, &[]), ApplyDecision::Record);
    match decide_after(ApplyStep::Validate, StepOutcome::Refused, &[]) {
        ApplyDecision::Abort { error: AegisError::Validation(m), rollback_first: false, release_lock: true } => {
            assert_eq!(m, "Policy failed validation rules!")
        }
        d => panic!("unexpected {:?}", d),
    }
    let checks = vec!["gateway".to_string(), "dns".to_string()];
    match decide_after(ApplyStep::HealthCheck, StepOutcome::Refused, &checks) {
        ApplyDecision::Abort { error: AegisError::Firewall(m), rollback_first: true, release_lock: true } => {
            assert_eq!(m, "Post-apply health checks failed: gateway; dns. Automatically rolled back!")
        }
        d => panic!("unexpected {:?}", d),
    }
    let e = AegisError::Internal("probe".to_string());
    match decide_after(ApplyStep::HealthCheck, StepOutcome::Errored(e), &[]) {
        ApplyDecision::Abort { error: AegisError::Firewall(m), rollback_first: true, .. } => {
            assert_eq!(m, "Health check system failed: probe. Auto-rolled back.")
        }
        d => panic!("unexpected {:?}", d),
    }
    let v = decide_after(ApplyStep::Validate, StepOutcome::Errored(AegisError::Internal("x".to_string())), &[]);
    assert!(matches!(v, ApplyDecision::Abort { release_lock: false, .. }));
    let c = decide_after(ApplyStep::Compile, StepOutcome::Errored(AegisError::Firewall("c".to_string())), &[]);
    assert_eq!(c, ApplyDecision::Abort { error: AegisError::Firewall("c".to_string()), rollback_first: false, release_lock: true });
}

#[test]
fn apply_execution_expiry() {
    let e = ApplyExecution::new_at(ExecutionId(1), PolicyId(2), SnapshotId(3), 10, at(50));
    assert_eq!(e.state, ExecutionState::Created);
    assert!(!e.is_expired_at(at(60)));
    assert!(e.is_expired_at(at(61)));
    assert!(ExecutionState::Committed.is_terminal());
    assert!(!ExecutionState::RollingBack.is_terminal());
    assert!(ExecutionState::AppliedPendingConfirmation.is_pending());
    let fresh = ApplyExecution::new(ExecutionId(1), PolicyId(2), SnapshotId(3), 10).unwrap();
    assert!(!fresh.is_expired());
}

#[test]
fn health_and_capability_reports() {
    let (t, p) = health_check_requests();
    assert_eq!(t.program, "nft");
    assert_eq!(p.args, vec!["-c".to_string(), "1".to_string(), "127.0.0.1".to_string()]);
    assert_eq!(t.timeout_seconds, Some(10));
    let table = ProcessOutput::success("table inet aegis_filter\n");
    let pong = ProcessOutput::success("1 packets transmitted, 1 received");
    let ok = health_report(Some(&table), Some(&pong));
    assert!(ok.success);
    assert_eq!(ok.passed_checks, vec![
        "Managed table 'inet aegis_filter' active".to_string(),
        "Loopback ping 127.0.0.1 success".to_string(),
    ]);
    assert!(ok.failed_checks.is_empty());
    // A lost loopback is reported.
    let r = health_report(Some(&table), None);
    assert!(!r.success);
    assert_eq!(r.failed_checks, vec!["Loopback ping 127.0.0.1 failed".to_string()]);
    // A missing managed table is reported.
    let other = ProcessOutput::success("table inet filter\n");
    let m = health_report(Some(&other), Some(&pong));
    assert!(!m.success);
    assert_eq!(m.failed_checks, vec!["Managed table 'inet aegis_filter' not found".to_string()]);
    assert_eq!(m.passed_checks, vec!["Loopback ping 127.0.0.1 success".to_string()]);
    let version = ProcessOutput::success("nftables v1.0.9 (Old Doc Yak #3)\n");
    let denied = ProcessOutput::failure(1, "Error: Operation not permitted");
    let c = capability_report(Some(&version), Some(&denied), true);
    assert!(c.nft_installed && c.kernel_support && !c.has_permissions && c.ipv6_support);
    assert_eq!(c.nft_version, "nftables v1.0.9 (Old Doc Yak #3)");
    let missing = capability_report(None, Some(&version), true);
    assert!(!missing.nft_installed && !missing.ipv6_support);
}

#[test]
fn runtime_outputs() {
    let listing = "table inet aegis_filter {\n  chain input {\n    tcp dport 22 counter accept\n    ip saddr 1.2.3.4 drop comment \"aegis:rule:x\"\n    policy drop;\n  }\n}\n";
    let s = firewall_state_from(listing);
    assert_eq!(s.rules_count, 2);
    assert_eq!(s.managed_tables, vec!["inet aegis_filter".to_string()]);
    assert!(firewall_state_from("").managed_tables.is_empty());
    assert_eq!(listing_text(&ProcessOutput::failure(2, "x")), "");
    assert_eq!(restore_action(" \n"), RestoreAction::DestroyManagedTable);
    assert_eq!(restore_action("table inet x {}"), RestoreAction::LoadRuleset);
    assert!(nft_run_outcome(&ProcessOutput::success(""), "apply").is_ok());
    assert_eq!(
        nft_run_outcome(&ProcessOutput::failure(1, "syntax error"), "nftables syntax check failed"),
        Err(AegisError::Firewall("nftables syntax check failed: syntax error".to_string()))
    );
    let mut mock = MockProcessRunner::new();
    mock.register_response("nft list tables", ProcessOutput::failure(3, "no"));
    mock.set_response("nft list tables", ProcessOutput::success("table inet aegis_filter"));
    mock.register_response("ping -c 1 127.0.0.1", ProcessOutput::success("1 received"));
    let tables = ProcessRequest::new("nft", vec!["list".to_string(), "tables".to_string()]);
    assert_eq!(mock.response_for(&tables), ProcessOutput::success("table inet aegis_filter"));
    let ping = ProcessRequest::new(
        "ping",
        vec!["-c".to_string(), "1".to_string(), "127.0.0.1".to_string()],
    );
    assert_eq!(mock.response_for(&ping).stdout, "1 received");
    // The program alone, or other arguments, match nothing: an empty success.
    let bare = ProcessRequest::new("nft", vec![]);
    assert_eq!(mock.response_for(&bare), ProcessOutput::success(""));
    let ruleset = ProcessRequest::new("nft", vec!["list".to_string(), "ruleset".to_string()]);
    assert_eq!(mock.response_for(&ruleset), ProcessOutput::success(""));
    assert_eq!(command_text(&tables), "nft list tables");
    let req = ProcessRequest::new("ls", vec!["-l".to_string()]);
    assert_eq!(req.timeout_seconds, Some(10));
}

#[test]
fn bundle_bytes_and_checksum() {
    let b = SignedPolicyBundle {
        bundle_id: "b1".to_string(),
        target_node_id: "n1".to_string(),
        policy_version: "v1.4.2".to_string(),
        sequence_number: 7,
        issued_at: "2024-01-01T00:00:00Z".to_string(),
        expires_at: "2024-01-02T00:00:00Z".to_string(),
        controller_id: "c".to_string(),
        payload_checksum: "abc".to_string(),
        firewall_policy: None,
        network_profile: None,
        signature_hex: String::new(),
    };
    assert_eq!(
        b.signing_bytes(),
        b"b1:n1:v1.4.2:7:2024-01-01T00:00:00Z:2024-01-02T00:00:00Z:abc".to_vec()
    );
    assert_eq!(
        SignedPolicyBundle::compute_payload_checksum(None, None),
        "e3b0c44298fc1c149afbf4c8996fb92427ae41e4649b934ca495991b7852b855"
    );
    assert_eq!(
        SignedPolicyBundle::compute_payload_checksum(Some("a"), Some("bc")),
        "ba7816bf8f01cfea414140de5dae2223b00361a396177a9cb410ff61f20015ad"
    );
}
