//! Safe apply: the apply lock, the steps of an apply and what each outcome leads to, the
//! record of executions and snapshots, confirmation, manual rollback and rollback on
//! timeout, and the post-apply health report.
use vstd::prelude::*;
use std::collections::HashMap;
use crate::errors::{AegisError, ExecutionId, PolicyId, SnapshotId, Timestamp, MAX_SPAN_SECS};
use crate::runtime::{ProcessOutput, ProcessRequest};
use crate::snapshot::{copy_snapshot, FirewallSnapshot};
use crate::text::{concat3, contains_seq, contains_str, join, join_strings, occurs_at, owned, views};

verus! {

broadcast use vstd::std_specs::hash::group_hash_axioms;

// ───────────────────────── executions ─────────────────────────

/// States of an apply execution.
#[derive(Debug, Clone, Copy, PartialEq, Eq, Structural)]
pub enum ExecutionState {
    Created,
    Validated,
    Snapshotted,
    AppliedPendingConfirmation,
    Committed,
    RollingBack,
    RolledBack,
    Failed,
}

impl ExecutionState {
    /// Committed, rolled back or failed: nothing more happens to the execution.
    pub open spec fn terminal(self) -> bool {
        self == ExecutionState::Committed || self == ExecutionState::RolledBack || self
            == ExecutionState::Failed
    }

    /// Whether the state is final.
    pub fn is_terminal(&self) -> (r: bool)
        ensures
            r == self.terminal(),
    {
        matches!(self, ExecutionState::Committed | ExecutionState::RolledBack | ExecutionState::Failed)
    }

    /// The name of the state, as it is written in messages.
    pub fn name(&self) -> (r: &'static str)
        ensures
            r@ == state_name(*self),
    {
        match self {
            ExecutionState::Created => "Created",
            ExecutionState::Validated => "Validated",
            ExecutionState::Snapshotted => "Snapshotted",
            ExecutionState::AppliedPendingConfirmation => "AppliedPendingConfirmation",
            ExecutionState::Committed => "Committed",
            ExecutionState::RollingBack => "RollingBack",
            ExecutionState::RolledBack => "RolledBack",
            ExecutionState::Failed => "Failed",
        }
    }

    /// Whether the change is applied and waits for confirmation.
    pub fn is_pending(&self) -> (r: bool)
        ensures
            r == (*self == ExecutionState::AppliedPendingConfirmation),
    {
        matches!(self, ExecutionState::AppliedPendingConfirmation)
    }
}

/// The name of a state.
pub open spec fn state_name(st: ExecutionState) -> Seq<char> {
    match st {
        ExecutionState::Created => "Created"@,
        ExecutionState::Validated => "Validated"@,
        ExecutionState::Snapshotted => "Snapshotted"@,
        ExecutionState::AppliedPendingConfirmation => "AppliedPendingConfirmation"@,
        ExecutionState::Committed => "Committed"@,
        ExecutionState::RollingBack => "RollingBack"@,
        ExecutionState::RolledBack => "RolledBack"@,
        ExecutionState::Failed => "Failed"@,
    }
}

/// One apply of a policy, from its start to its confirmation or rollback.
#[derive(Debug, Clone, PartialEq, Eq)]
pub struct ApplyExecution {
    pub execution_id: ExecutionId,
    pub policy_id: PolicyId,
    pub snapshot_id: SnapshotId,
    pub state: ExecutionState,
    pub timeout_seconds: u64,
    pub created_at: Timestamp,
    pub expires_at: Timestamp,
    pub error_message: Option<String>,
}

/// A timeout can be added to `now`.
pub open spec fn timeout_ok(now: Timestamp, timeout_seconds: u64) -> bool {
    timeout_seconds <= MAX_SPAN_SECS && now.shift_ok(timeout_seconds as int)
}

/// A copy of an optional text.
fn copy_text(t: &Option<String>) -> (r: Option<String>)
    ensures
        r == *t,
{
    match t {
        Some(s) => Some(s.clone()),
        None => None,
    }
}

/// A copy of an execution.
pub fn copy_execution(e: &ApplyExecution) -> (r: ApplyExecution)
    ensures
        r == *e,
{
    ApplyExecution {
        execution_id: e.execution_id,
        policy_id: e.policy_id,
        snapshot_id: e.snapshot_id,
        state: e.state,
        timeout_seconds: e.timeout_seconds,
        created_at: e.created_at,
        expires_at: e.expires_at,
        error_message: copy_text(&e.error_message),
    }
}

impl ApplyExecution {
    /// A new execution created at `now`, which expires `timeout_seconds` later.
    pub fn new_at(
        execution_id: ExecutionId,
        policy_id: PolicyId,
        snapshot_id: SnapshotId,
        timeout_seconds: u64,
        now: Timestamp,
    ) -> (r: Self)
        requires
            timeout_ok(now, timeout_seconds),
        ensures
            r.execution_id == execution_id,
            r.policy_id == policy_id,
            r.snapshot_id == snapshot_id,
            r.state == ExecutionState::Created,
            r.timeout_seconds == timeout_seconds,
            r.created_at == now,
            r.expires_at == now.plus_secs(timeout_seconds as int),
            r.error_message is None,
    {
        ApplyExecution {
            execution_id,
            policy_id,
            snapshot_id,
            state: ExecutionState::Created,
            timeout_seconds,
            created_at: now,
            expires_at: now.shifted(timeout_seconds as i64),
            error_message: None,
        }
    }

    /// A new execution created now (by the clock); `None` when the expiry would leave the
    /// calendar range.
    pub fn new(
        execution_id: ExecutionId,
        policy_id: PolicyId,
        snapshot_id: SnapshotId,
        timeout_seconds: u64,
    ) -> (r: Option<Self>)
        ensures
            r matches Some(x) ==> {
                &&& x.execution_id == execution_id
                &&& x.policy_id == policy_id
                &&& x.snapshot_id == snapshot_id
                &&& x.state == ExecutionState::Created
                &&& x.timeout_seconds == timeout_seconds
                &&& x.expires_at == x.created_at.plus_secs(timeout_seconds as int)
                &&& x.error_message is None
            },
            exists|now: Timestamp|
                #![trigger now.wf()]
                now.wf() && now.secs >= 0 && if timeout_ok(now, timeout_seconds) {
                    r == Some(
                        ApplyExecution {
                            execution_id,
                            policy_id,
                            snapshot_id,
                            state: ExecutionState::Created,
                            timeout_seconds,
                            created_at: now,
                            expires_at: now.plus_secs(timeout_seconds as int),
                            error_message: None,
                        },
                    )
                } else {
                    r is None
                },
    {
        let now = crate::clock::now();
        if timeout_seconds > MAX_SPAN_SECS as u64 || now.secs > crate::errors::MAX_UNIX_SECS
            - timeout_seconds as i64 {
            return None;
        }
        Some(Self::new_at(execution_id, policy_id, snapshot_id, timeout_seconds, now))
    }

    /// Whether `now` is past the expiry.
    pub fn is_expired_at(&self, now: Timestamp) -> (r: bool)
        ensures
            r == now.later_than(self.expires_at),
    {
        now.is_after(&self.expires_at)
    }

    /// Whether the clock is past the expiry.
    pub fn is_expired(&self) -> (r: bool)
        ensures
            exists|now: Timestamp| now.wf() && r == now.later_than(self.expires_at),
    {
        let now = crate::clock::now();
        let r = self.is_expired_at(now);
        assert(now.wf() && r == now.later_than(self.expires_at));
        r
    }
}

// ───────────────────────── health report ─────────────────────────

/// Outcome of the checks run after an apply.
#[derive(Debug, Clone, PartialEq, Eq)]
pub struct HealthCheckReport {
    pub success: bool,
    pub passed_checks: Vec<String>,
    pub failed_checks: Vec<String>,
}

/// The commands of the post-apply checks: list the tables, then ping the loopback address.
pub fn health_check_requests() -> (r: (ProcessRequest, ProcessRequest))
    ensures
        r.0.program@ == "nft"@,
        views(r.0.args@) == seq!["list"@, "tables"@],
        r.1.program@ == "ping"@,
        views(r.1.args@) == seq!["-c"@, "1"@, "127.0.0.1"@],
{
    let a = vec![owned("list"), owned("tables")];
    assert(views(a@) =~= seq!["list"@, "tables"@]);
    let b = vec![owned("-c"), owned("1"), owned("127.0.0.1")];
    assert(views(b@) =~= seq!["-c"@, "1"@, "127.0.0.1"@]);
    (ProcessRequest::new("nft", a), ProcessRequest::new("ping", b))
}

/// The table probe shows the managed table: `nft list tables` ran, succeeded and lists
/// `aegis_filter`.
pub open spec fn table_probe_ok(table_out: Option<ProcessOutput>) -> bool {
    table_out matches Some(o) && o.status_code == 0 && contains_seq(o.stdout@, "aegis_filter"@)
}

/// The loopback probe answered: the ping ran and succeeded.
pub open spec fn ping_probe_ok(ping_out: Option<ProcessOutput>) -> bool {
    ping_out matches Some(o) && o.status_code == 0
}

/// The names of the checks that passed, in the order they run.
pub open spec fn passed_checks_of(table_ok: bool, ping_ok: bool) -> Seq<Seq<char>> {
    (if table_ok {
        seq!["Managed table 'inet aegis_filter' active"@]
    } else {
        seq![]
    }) + (if ping_ok {
        seq!["Loopback ping 127.0.0.1 success"@]
    } else {
        seq![]
    })
}

/// The names of the checks that failed, in the order they run.
pub open spec fn failed_checks_of(table_ok: bool, ping_ok: bool) -> Seq<Seq<char>> {
    (if table_ok {
        seq![]
    } else {
        seq!["Managed table 'inet aegis_filter' not found"@]
    }) + (if ping_ok {
        seq![]
    } else {
        seq!["Loopback ping 127.0.0.1 failed"@]
    })
}

/// The health report from the outputs of the two check commands (`None` when a command
/// could not be run). The apply is healthy only when the managed table is listed and the
/// loopback answers; each check that fails is named, so that the apply is rolled back.
pub fn health_report(table_out: Option<&ProcessOutput>, ping_out: Option<&ProcessOutput>) -> (r:
    HealthCheckReport)
    ensures
        ({
            let table_ok = table_probe_ok(
                match table_out {
                    Some(o) => Some(*o),
                    None => None,
                },
            );
            let ping_ok = ping_probe_ok(
                match ping_out {
                    Some(o) => Some(*o),
                    None => None,
                },
            );
            &&& r.success <==> (table_ok && ping_ok)
            &&& r.success <==> r.failed_checks@.len() == 0
            &&& views(r.passed_checks@) == passed_checks_of(table_ok, ping_ok)
            &&& views(r.failed_checks@) == failed_checks_of(table_ok, ping_ok)
        }),
{
    let mut passed: Vec<String> = Vec::new();
    let mut failed: Vec<String> = Vec::new();
    let table_ok = match table_out {
        Some(o) => o.is_success() && contains_str(o.stdout.as_str(), "aegis_filter"),
        None => false,
    };
    if table_ok {
        passed.push(owned("Managed table 'inet aegis_filter' active"));
    } else {
        failed.push(owned("Managed table 'inet aegis_filter' not found"));
    }
    let ping_ok = match ping_out {
        Some(o) => o.is_success(),
        None => false,
    };
    let ghost p0 = views(passed@);
    let ghost f0 = views(failed@);
    if ping_ok {
        passed.push(owned("Loopback ping 127.0.0.1 success"));
        assert(views(passed@) =~= p0.push("Loopback ping 127.0.0.1 success"@));
    } else {
        failed.push(owned("Loopback ping 127.0.0.1 failed"));
        assert(views(failed@) =~= f0.push("Loopback ping 127.0.0.1 failed"@));
    }
    assert(views(passed@) =~= passed_checks_of(table_ok, ping_ok));
    assert(views(failed@) =~= failed_checks_of(table_ok, ping_ok));
    let success = failed.len() == 0;
    HealthCheckReport { success, passed_checks: passed, failed_checks: failed }
}

// ───────────────────────── the steps of an apply ─────────────────────────

/// The steps of a safe apply, in order, once the apply lock is held.
#[derive(Debug, Clone, Copy, PartialEq, Eq, Structural)]
pub enum ApplyStep {
    Validate,
    Compile,
    Snapshot,
    Apply,
    HealthCheck,
}

/// How a step ended: it passed, it ran and said no (an invalid policy, failed health
/// checks), or it could not run.
#[derive(Debug, Clone, PartialEq, Eq)]
pub enum StepOutcome {
    Passed,
    Refused,
    Errored(AegisError),
}

/// What to do after a step.
#[derive(Debug, Clone, PartialEq, Eq)]
pub enum ApplyDecision {
    /// Go on with the given step.
    Proceed(ApplyStep),
    /// All steps passed: record the execution and start its rollback timer.
    Record,
    /// Stop with `error`; first roll back to the snapshot when `rollback_first`, and free the
    /// apply lock when `release_lock`.
    Abort { error: AegisError, rollback_first: bool, release_lock: bool },
}

/// The step after `s`, if any.
pub open spec fn next_step(s: ApplyStep) -> Option<ApplyStep> {
    match s {
        ApplyStep::Validate => Some(ApplyStep::Compile),
        ApplyStep::Compile => Some(ApplyStep::Snapshot),
        ApplyStep::Snapshot => Some(ApplyStep::Apply),
        ApplyStep::Apply => Some(ApplyStep::HealthCheck),
        ApplyStep::HealthCheck => None,
    }
}

/// `d` is what follows step `s` ending with `o`; `failed_checks` are the checks that failed
/// when the health checks said no.
///
/// A step that passes leads to the next (to recording after the health checks). An invalid
/// policy is refused with a validation error. An error of a step is passed on as it is,
/// except an error of the health checks, reported as a firewall error. Once the ruleset is
/// applied, stopping rolls back first. Every stop frees the apply lock but one: an error
/// while validating, which leaves it held.
pub open spec fn is_apply_decision(
    d: ApplyDecision,
    s: ApplyStep,
    o: StepOutcome,
    failed_checks: Seq<Seq<char>>,
) -> bool {
    match o {
        StepOutcome::Passed => match next_step(s) {
            Some(n) => d == ApplyDecision::Proceed(n),
            None => d == ApplyDecision::Record,
        },
        StepOutcome::Refused => match s {
            ApplyStep::HealthCheck => d matches ApplyDecision::Abort {
                error: AegisError::Firewall(m),
                rollback_first: true,
                release_lock: true,
            } && m@ == "Post-apply health checks failed: "@ + join(failed_checks, "; "@)
                + ". Automatically rolled back!"@,
            _ => d matches ApplyDecision::Abort {
                error: AegisError::Validation(m),
                rollback_first: false,
                release_lock: true,
            } && m@ == "Policy failed validation rules!"@,
        },
        StepOutcome::Errored(e) => match s {
            ApplyStep::Validate => d == ApplyDecision::Abort {
                error: e,
                rollback_first: false,
                release_lock: false,
            },
            ApplyStep::HealthCheck => d matches ApplyDecision::Abort {
                error: AegisError::Firewall(m),
                rollback_first: true,
                release_lock: true,
            } && m@ == "Health check system failed: "@ + e.message_of() + ". Auto-rolled back."@,
            _ => d == ApplyDecision::Abort { error: e, rollback_first: false, release_lock: true },
        },
    }
}

/// What follows step `s` ending with `o` (see `is_apply_decision`).
pub fn decide_after(s: ApplyStep, o: StepOutcome, failed_checks: &[String]) -> (d: ApplyDecision)
    ensures
        is_apply_decision(d, s, o, views(failed_checks@)),
{
    match o {
        StepOutcome::Passed => match s {
            ApplyStep::Validate => ApplyDecision::Proceed(ApplyStep::Compile),
            ApplyStep::Compile => ApplyDecision::Proceed(ApplyStep::Snapshot),
            ApplyStep::Snapshot => ApplyDecision::Proceed(ApplyStep::Apply),
            ApplyStep::Apply => ApplyDecision::Proceed(ApplyStep::HealthCheck),
            ApplyStep::HealthCheck => ApplyDecision::Record,
        },
        StepOutcome::Refused => match s {
            ApplyStep::HealthCheck => {
                let list = join_strings(failed_checks, "; ");
                let m = concat3(
                    "Post-apply health checks failed: ",
                    list.as_str(),
                    ". Automatically rolled back!",
                );
                ApplyDecision::Abort {
                    error: AegisError::Firewall(m),
                    rollback_first: true,
                    release_lock: true,
                }
            },
            _ => ApplyDecision::Abort {
                error: AegisError::Validation(owned("Policy failed validation rules!")),
                rollback_first: false,
                release_lock: true,
            },
        },
        StepOutcome::Errored(e) => match s {
            ApplyStep::Validate => ApplyDecision::Abort {
                error: e,
                rollback_first: false,
                release_lock: false,
            },
            ApplyStep::HealthCheck => {
                let m = concat3("Health check system failed: ", e.message(), ". Auto-rolled back.");
                ApplyDecision::Abort {
                    error: AegisError::Firewall(m),
                    rollback_first: true,
                    release_lock: true,
                }
            },
            _ => ApplyDecision::Abort { error: e, rollback_first: false, release_lock: true },
        },
    }
}


// ───────────────────────── the ledger of executions ─────────────────────────

/// An error message is present and reads `t`.
pub open spec fn message_is(m: Option<String>, t: Seq<char>) -> bool {
    m matches Some(x) && x@ == t
}

/// The executions with execution `id` put in state `st` (nothing changes when there is no
/// such execution).
pub open spec fn with_state(m: Map<u128, ApplyExecution>, id: u128, st: ExecutionState) -> Map<
    u128,
    ApplyExecution,
> {
    if m.contains_key(id) {
        m.insert(id, ApplyExecution { state: st, ..m[id] })
    } else {
        m
    }
}

/// The apply lock after `id` releases it: free when `id` held it, unchanged otherwise.
pub open spec fn released(lock: Option<ExecutionId>, id: ExecutionId) -> Option<ExecutionId> {
    if lock == Some(id) {
        None
    } else {
        lock
    }
}

/// The apply lock after `id` asks for it: taken by `id` when it was free, unchanged
/// otherwise (the request is then refused).
pub open spec fn lock_after_acquire(lock: Option<ExecutionId>, id: ExecutionId) -> Option<
    ExecutionId,
> {
    if lock is None {
        Some(id)
    } else {
        lock
    }
}

/// The state a rollback ends in: rolled back when the backend restored the snapshot,
/// failed otherwise.
pub open spec fn rollback_end_state(succeeded: bool) -> ExecutionState {
    if succeeded {
        ExecutionState::RolledBack
    } else {
        ExecutionState::Failed
    }
}

/// Execution `id` is applied and waits for confirmation (its rollback timer acts only then).
pub open spec fn awaiting_confirmation(m: Map<u128, ApplyExecution>, id: u128) -> bool {
    m.contains_key(id) && m[id].state == ExecutionState::AppliedPendingConfirmation
}

/// Every execution that waits for confirmation holds the apply lock (so at most one does).
pub open spec fn pending_holds_lock(lock: Option<ExecutionId>, m: Map<u128, ApplyExecution>) -> bool {
    forall|x: u128| #[trigger] awaiting_confirmation(m, x) ==> lock == Some(ExecutionId(x))
}

/// The executions, snapshots and apply lock of the safe-apply engine. The rollback timers
/// themselves run outside; when one fires, `rollback_due_on_timeout` decides whether it
/// acts.
pub struct SafeApplyLedger {
    active_lock: Option<ExecutionId>,
    executions: HashMap<u128, ApplyExecution>,
    snapshots: HashMap<u128, FirewallSnapshot>,
}

impl SafeApplyLedger {
    /// An execution waiting for confirmation holds the apply lock.
    #[verifier::type_invariant]
    spec fn inv(self) -> bool {
        pending_holds_lock(self.active_lock, self.executions@)
    }

    /// The execution that holds the apply lock, if any.
    pub closed spec fn lock(&self) -> Option<ExecutionId> {
        self.active_lock
    }

    /// The executions, by identifier.
    pub closed spec fn executions(&self) -> Map<u128, ApplyExecution> {
        self.executions@
    }

    /// The pre-apply snapshots, by execution identifier.
    pub closed spec fn snapshots(&self) -> Map<u128, FirewallSnapshot> {
        self.snapshots@
    }

    /// No lock, no execution, no snapshot.
    pub fn new() -> (r: Self)
        ensures
            r.lock() is None,
            r.executions() == Map::<u128, ApplyExecution>::empty(),
            r.snapshots() == Map::<u128, FirewallSnapshot>::empty(),
            pending_holds_lock(r.lock(), r.executions()),
    {
        SafeApplyLedger { active_lock: None, executions: HashMap::new(), snapshots: HashMap::new() }
    }

    /// Takes the apply lock for `id`; refused with a conflict while another execution holds
    /// it.
    pub fn acquire_lock(&mut self, id: ExecutionId) -> (r: Result<(), AegisError>)
        ensures
            r is Ok <==> old(self).lock() is None,
            final(self).lock() == lock_after_acquire(old(self).lock(), id),
            r matches Err(e) ==> e is Conflict,
            r matches Err(AegisError::Conflict(m)) ==> contains_seq(m@, "in progress"@),
            final(self).executions() == old(self).executions(),
            final(self).snapshots() == old(self).snapshots(),
            pending_holds_lock(final(self).lock(), final(self).executions()),
    {
        proof {
            use_type_invariant(&*self);
        }
        match self.active_lock {
            Some(active) => {
                let t = crate::identity::uuid_hyphenated_text(active.0);
                let m = concat3(
                    "Another apply execution '",
                    t.as_str(),
                    "' is currently in progress. Operation rejected!",
                );
                proof {
                    reveal_strlit("Another apply execution '");
                    reveal_strlit("' is currently in progress. Operation rejected!");
                    reveal_strlit("in progress");
                    let off: int = 25 + t@.len() as int + 15;
                    assert(m@.subrange(off, off + 11) =~= "in progress"@);
                    assert(occurs_at(m@, "in progress"@, off));
                }
                Err(AegisError::Conflict(m))
            },
            None => {
                self.active_lock = Some(id);
                Ok(())
            },
        }
    }

    /// Releases the apply lock if `id` holds it. An execution that still waits for
    /// confirmation keeps its lock: it must be confirmed or rolled back first.
    pub fn release_lock(&mut self, id: ExecutionId)
        requires
            !awaiting_confirmation(old(self).executions(), id.0),
        ensures
            final(self).lock() == released(old(self).lock(), id),
            final(self).executions() == old(self).executions(),
            final(self).snapshots() == old(self).snapshots(),
            pending_holds_lock(final(self).lock(), final(self).executions()),
    {
        proof {
            use_type_invariant(&*self);
        }
        if self.active_lock == Some(id) {
            self.active_lock = None;
        }
    }

    /// Records, at `now`, that execution `id` of policy `policy_id` is applied and waits for
    /// confirmation within `timeout_seconds`, with the snapshot taken before it.
    pub fn record_applied(
        &mut self,
        id: ExecutionId,
        policy_id: PolicyId,
        snapshot: FirewallSnapshot,
        timeout_seconds: u64,
        now: Timestamp,
    ) -> (r: ApplyExecution)
        requires
            timeout_ok(now, timeout_seconds),
            old(self).lock() == Some(id),
        ensures
            r.execution_id == id,
            r.policy_id == policy_id,
            r.snapshot_id == snapshot.snapshot_id,
            r.state == ExecutionState::AppliedPendingConfirmation,
            r.timeout_seconds == timeout_seconds,
            r.created_at == now,
            r.expires_at == now.plus_secs(timeout_seconds as int),
            r.error_message is None,
            final(self).executions() == old(self).executions().insert(id.0, r),
            final(self).snapshots() == old(self).snapshots().insert(id.0, snapshot),
            final(self).lock() == old(self).lock(),
            pending_holds_lock(final(self).lock(), final(self).executions()),
    {
        proof {
            use_type_invariant(&*self);
        }
        let mut e = ApplyExecution::new_at(id, policy_id, snapshot.snapshot_id, timeout_seconds, now);
        e.state = ExecutionState::AppliedPendingConfirmation;
        self.put_execution(id, copy_execution(&e));
        self.put_snapshot(id, snapshot);
        e
    }

    /// Stores execution `e` under `id`; only the holder of the apply lock may be stored as
    /// waiting for confirmation.
    fn put_execution(&mut self, id: ExecutionId, e: ApplyExecution)
        requires
            e.state == ExecutionState::AppliedPendingConfirmation ==> old(self).lock() == Some(id),
        ensures
            final(self).executions() == old(self).executions().insert(id.0, e),
            final(self).snapshots() == old(self).snapshots(),
            final(self).lock() == old(self).lock(),
            pending_holds_lock(final(self).lock(), final(self).executions()),
    {
        proof {
            use_type_invariant(&*self);
        }
        let ghost before = self.executions@;
        let mut execs: HashMap<u128, ApplyExecution> = HashMap::new();
        std::mem::swap(&mut execs, &mut self.executions);
        execs.insert(id.0, e);
        assert forall|x: u128| #[trigger] awaiting_confirmation(execs@, x) implies self.active_lock
            == Some(ExecutionId(x)) by {
            if x != id.0 {
                assert(awaiting_confirmation(before, x));
            }
        }
        self.executions = execs;
    }

    /// Stores the pre-apply snapshot of execution `id`.
    fn put_snapshot(&mut self, id: ExecutionId, snapshot: FirewallSnapshot)
        ensures
            final(self).snapshots() == old(self).snapshots().insert(id.0, snapshot),
            final(self).executions() == old(self).executions(),
            final(self).lock() == old(self).lock(),
            pending_holds_lock(final(self).lock(), final(self).executions()),
    {
        proof {
            use_type_invariant(&*self);
        }
        let mut snaps: HashMap<u128, FirewallSnapshot> = HashMap::new();
        std::mem::swap(&mut snaps, &mut self.snapshots);
        snaps.insert(id.0, snapshot);
        self.snapshots = snaps;
    }

    /// The execution that holds the apply lock, if any.
    pub fn active_execution(&self) -> (r: Option<ExecutionId>)
        ensures
            r == self.lock(),
    {
        self.active_lock
    }

    /// The execution `id`, or a not-found error.
    pub fn get_execution(&self, id: ExecutionId) -> (r: Result<ApplyExecution, AegisError>)
        ensures
            match r {
                Ok(e) => self.executions().contains_key(id.0) && e == self.executions()[id.0],
                Err(e) => !self.executions().contains_key(id.0) && e is NotFound,
            },
    {
        match self.executions.get(&id.0) {
            Some(e) => Ok(copy_execution(e)),
            None => {
                let t = crate::identity::uuid_hyphenated_text(id.0);
                Err(AegisError::NotFound(concat3("Apply execution '", t.as_str(), "' not found")))
            },
        }
    }

    /// Confirms execution `id`: an execution that waits for confirmation is committed and
    /// frees the apply lock; an unknown one is not found; any other is a conflict and
    /// nothing changes.
    pub fn confirm(&mut self, id: ExecutionId) -> (r: Result<ApplyExecution, AegisError>)
        ensures
            match r {
                Ok(e) => {
                    &&& awaiting_confirmation(old(self).executions(), id.0)
                    &&& e == ApplyExecution {
                        state: ExecutionState::Committed,
                        ..old(self).executions()[id.0]
                    }
                    &&& final(self).executions() == old(self).executions().insert(id.0, e)
                    &&& final(self).lock() == released(old(self).lock(), id)
                    &&& old(self).lock() == Some(id)
                    &&& final(self).lock() is None
                },
                Err(e) => {
                    &&& !awaiting_confirmation(old(self).executions(), id.0)
                    &&& (if old(self).executions().contains_key(id.0) {
                        e is Conflict
                    } else {
                        e is NotFound
                    })
                    &&& final(self).executions() == old(self).executions()
                    &&& final(self).lock() == old(self).lock()
                },
            },
            final(self).snapshots() == old(self).snapshots(),
            pending_holds_lock(final(self).lock(), final(self).executions()),
    {
        proof {
            use_type_invariant(&*self);
        }
        let mut e = match self.get_execution(id) {
            Ok(e) => e,
            Err(err) => return Err(err),
        };
        if e.state != ExecutionState::AppliedPendingConfirmation {
            let t = crate::identity::uuid_hyphenated_text(id.0);
            let head = concat3("Cannot confirm execution '", t.as_str(), "' in state ");
            let m = concat3(head.as_str(), e.state.name(), "");
            return Err(AegisError::Conflict(m));
        }
        assert(awaiting_confirmation(self.executions@, id.0));
        e.state = ExecutionState::Committed;
        self.put_execution(id, copy_execution(&e));
        self.release_lock(id);
        Ok(e)
    }

    /// Starts a manual rollback of execution `id`: gives back its snapshot and marks the
    /// execution as rolling back; without a snapshot it is not found and nothing changes.
    pub fn begin_rollback(&mut self, id: ExecutionId) -> (r: Result<FirewallSnapshot, AegisError>)
        ensures
            match r {
                Ok(s) => {
                    &&& old(self).snapshots().contains_key(id.0)
                    &&& s == old(self).snapshots()[id.0]
                    &&& final(self).executions() == with_state(
                        old(self).executions(),
                        id.0,
                        ExecutionState::RollingBack,
                    )
                },
                Err(e) => {
                    &&& !old(self).snapshots().contains_key(id.0)
                    &&& e is NotFound
                    &&& final(self).executions() == old(self).executions()
                },
            },
            final(self).snapshots() == old(self).snapshots(),
            final(self).lock() == old(self).lock(),
            awaiting_confirmation(old(self).executions(), id.0) ==> final(self).lock() == Some(id),
            pending_holds_lock(final(self).lock(), final(self).executions()),
    {
        proof {
            use_type_invariant(&*self);
        }
        let snap = match self.snapshots.get(&id.0) {
            Some(s) => copy_snapshot(s),
            None => {
                let t = crate::identity::uuid_hyphenated_text(id.0);
                return Err(
                    AegisError::NotFound(
                        concat3("Snapshot for execution '", t.as_str(), "' not found"),
                    ),
                );
            },
        };
        self.set_state(id, ExecutionState::RollingBack);
        Ok(snap)
    }

    /// Puts execution `id` in state `st`, if it exists.
    fn set_state(&mut self, id: ExecutionId, st: ExecutionState)
        requires
            st != ExecutionState::AppliedPendingConfirmation,
        ensures
            final(self).executions() == with_state(old(self).executions(), id.0, st),
            final(self).snapshots() == old(self).snapshots(),
            final(self).lock() == old(self).lock(),
            pending_holds_lock(final(self).lock(), final(self).executions()),
    {
        proof {
            use_type_invariant(&*self);
        }
        match self.executions.get(&id.0) {
            Some(e) => {
                let mut e2 = copy_execution(e);
                e2.state = st;
                self.put_execution(id, e2);
            },
            None => {},
        }
    }

    /// Ends a manual rollback of execution `id` once the backend has run it: rolled back
    /// when it succeeded, failed (with `Rollback failed: ` and `failure` as its message)
    /// otherwise; the apply lock is freed. An unknown execution is not found, and then the
    /// lock stays as it is.
    pub fn finish_rollback(&mut self, id: ExecutionId, succeeded: bool, failure: &str) -> (r:
        Result<ApplyExecution, AegisError>)
        ensures
            match r {
                Ok(e) => {
                    &&& old(self).executions().contains_key(id.0)
                    &&& e.execution_id == old(self).executions()[id.0].execution_id
                    &&& e.policy_id == old(self).executions()[id.0].policy_id
                    &&& e.snapshot_id == old(self).executions()[id.0].snapshot_id
                    &&& e.timeout_seconds == old(self).executions()[id.0].timeout_seconds
                    &&& e.created_at == old(self).executions()[id.0].created_at
                    &&& e.expires_at == old(self).executions()[id.0].expires_at
                    &&& e.state == rollback_end_state(succeeded)
                    &&& (if succeeded {
                        e.error_message == old(self).executions()[id.0].error_message
                    } else {
                        message_is(e.error_message, "Rollback failed: "@ + failure@)
                    })
                    &&& final(self).executions() == old(self).executions().insert(id.0, e)
                    &&& final(self).lock() == released(old(self).lock(), id)
                },
                Err(e) => {
                    &&& !old(self).executions().contains_key(id.0)
                    &&& e is NotFound
                    &&& final(self).executions() == old(self).executions()
                    &&& final(self).lock() == old(self).lock()
                },
            },
            final(self).snapshots() == old(self).snapshots(),
            pending_holds_lock(final(self).lock(), final(self).executions()),
    {
        proof {
            use_type_invariant(&*self);
        }
        let mut e = match self.get_execution(id) {
            Ok(e) => e,
            Err(err) => return Err(err),
        };
        if succeeded {
            e.state = ExecutionState::RolledBack;
        } else {
            e.state = ExecutionState::Failed;
            e.error_message = Some(concat3("Rollback failed: ", failure, ""));
            proof {
                reveal_strlit("");
            }
            assert(e.error_message->Some_0@ =~= "Rollback failed: "@ + failure@);
        }
        self.put_execution(id, copy_execution(&e));
        self.release_lock(id);
        Ok(e)
    }

    /// When the rollback timer of execution `id` fires: if the execution still waits for
    /// confirmation it is marked as rolling back and the rollback is due (`true`); otherwise
    /// nothing happens.
    pub fn rollback_due_on_timeout(&mut self, id: ExecutionId) -> (r: bool)
        ensures
            r == awaiting_confirmation(old(self).executions(), id.0),
            final(self).executions() == if r {
                with_state(old(self).executions(), id.0, ExecutionState::RollingBack)
            } else {
                old(self).executions()
            },
            final(self).snapshots() == old(self).snapshots(),
            final(self).lock() == old(self).lock(),
            r ==> final(self).lock() == Some(id),
            pending_holds_lock(final(self).lock(), final(self).executions()),
    {
        proof {
            use_type_invariant(&*self);
        }
        let pending = match self.executions.get(&id.0) {
            Some(e) => e.state == ExecutionState::AppliedPendingConfirmation,
            None => false,
        };
        if pending {
            self.set_state(id, ExecutionState::RollingBack);
        }
        pending
    }

    /// Ends a rollback on timeout once the backend has run it: rolled back (with a message
    /// that says so) when it succeeded, failed otherwise; the apply lock is freed.
    pub fn finish_timeout_rollback(&mut self, id: ExecutionId, succeeded: bool)
        ensures
            final(self).lock() == released(old(self).lock(), id),
            final(self).snapshots() == old(self).snapshots(),
            old(self).executions().contains_key(id.0) ==> {
                let e = final(self).executions()[id.0];
                &&& final(self).executions() == old(self).executions().insert(id.0, e)
                &&& e.execution_id == old(self).executions()[id.0].execution_id
                &&& e.policy_id == old(self).executions()[id.0].policy_id
                &&& e.snapshot_id == old(self).executions()[id.0].snapshot_id
                &&& e.created_at == old(self).executions()[id.0].created_at
                &&& e.expires_at == old(self).executions()[id.0].expires_at
                &&& e.timeout_seconds == old(self).executions()[id.0].timeout_seconds
                &&& e.state == rollback_end_state(succeeded)
                &&& (if succeeded {
                    message_is(e.error_message, "Auto-rolled back due to confirmation timeout"@)
                } else {
                    message_is(e.error_message, "Auto-rollback failed on timeout!"@)
                })
            },
            !old(self).executions().contains_key(id.0) ==> final(self).executions() == old(
                self,
            ).executions(),
            pending_holds_lock(final(self).lock(), final(self).executions()),
    {
        proof {
            use_type_invariant(&*self);
        }
        match self.executions.get(&id.0) {
            Some(e) => {
                let mut e2 = copy_execution(e);
                if succeeded {
                    e2.state = ExecutionState::RolledBack;
                    e2.error_message = Some(owned("Auto-rolled back due to confirmation timeout"));
                } else {
                    e2.state = ExecutionState::Failed;
                    e2.error_message = Some(owned("Auto-rollback failed on timeout!"));
                }
                self.put_execution(id, e2);
            },
            None => {},
        }
        self.release_lock(id);
    }
}

// ───────────────────────── laws ─────────────────────────

/// Only one apply runs at a time: once an execution has taken the free apply lock, a
/// request of any other execution is refused and leaves the lock with the holder; a release
/// by another execution does not free it, the holder's release does.
pub proof fn law_apply_lock_exclusive(lock: Option<ExecutionId>, a: ExecutionId, b: ExecutionId)
    requires
        lock is None,
        a != b,
    ensures
        lock_after_acquire(lock, a) == Some(a),
        lock_after_acquire(lock_after_acquire(lock, a), b) == Some(a),
        released(lock_after_acquire(lock, a), b) == Some(a),
        released(lock_after_acquire(lock, a), a) is None,
{
}

/// An execution that waits for confirmation holds the apply lock, so at most one waits at a
/// time, and confirming it or rolling it back (both release its lock) leaves the lock free.
pub proof fn law_pending_execution_holds_lock(
    lock: Option<ExecutionId>,
    m: Map<u128, ApplyExecution>,
    id: u128,
    other: u128,
)
    requires
        pending_holds_lock(lock, m),
        awaiting_confirmation(m, id),
    ensures
        lock == Some(ExecutionId(id)),
        awaiting_confirmation(m, other) ==> other == id,
        released(lock, ExecutionId(id)) is None,
{
    assert(awaiting_confirmation(m, id));
    if awaiting_confirmation(m, other) {
        assert(lock == Some(ExecutionId(other)));
    }
}

/// A confirmed execution is never rolled back on timeout, and cannot be confirmed twice.
pub proof fn law_confirmed_stays_committed(m: Map<u128, ApplyExecution>, id: u128)
    requires
        awaiting_confirmation(m, id),
    ensures
        ({
            let after = m.insert(id, ApplyExecution { state: ExecutionState::Committed, ..m[id] });
            &&& !awaiting_confirmation(after, id)
            &&& after[id].state.terminal()
        }),
{
}

/// A rollback, on timeout or manual, whether or not the backend restored the snapshot, ends
/// in a final state: the execution no longer waits for confirmation, so it can be neither
/// confirmed nor rolled back on timeout afterwards.
pub proof fn law_rollback_ends_final(
    m: Map<u128, ApplyExecution>,
    id: u128,
    e: ApplyExecution,
    succeeded: bool,
)
    requires
        e.state == rollback_end_state(succeeded),
    ensures
        rollback_end_state(succeeded).terminal(),
        !awaiting_confirmation(m.insert(id, e), id),
{
}

/// The steps of an apply follow one another in a fixed order, each reached only when the
/// one before it passed, and an execution is recorded only after the health checks passed.
pub proof fn law_apply_steps_in_order(s: ApplyStep, o: StepOutcome, checks: Seq<Seq<char>>, d: ApplyDecision)
    requires
        is_apply_decision(d, s, o, checks),
    ensures
        d is Record ==> s == ApplyStep::HealthCheck && o == StepOutcome::Passed,
        d matches ApplyDecision::Proceed(n) ==> o == StepOutcome::Passed && next_step(s)
            == Some(n),
        d matches ApplyDecision::Abort { rollback_first, .. } ==> (rollback_first <==> s
            == ApplyStep::HealthCheck),
        d matches ApplyDecision::Abort { release_lock, .. } ==> (!release_lock <==> (s
            == ApplyStep::Validate && o is Errored)),
{
}

} // verus!
