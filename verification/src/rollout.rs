//! Multi-node rollout coordination: canary guard, batch sizing, failure threshold and the
//! order of rollback.
use vstd::prelude::*;
use crate::models::rollout::{
    BatchConfig, NodeRolloutState, NodeRolloutStatus, RolloutSpec, RolloutStrategy,
};

verus! {

// ───────────────────────── specifications ─────────────────────────

/// The identifiers of the nodes whose state is `st`, in the order of `s`.
pub open spec fn ids_in_state(s: Seq<NodeRolloutStatus>, st: NodeRolloutState) -> Seq<u128>
    decreases s.len(),
{
    if s.len() == 0 {
        seq![]
    } else {
        let rest = ids_in_state(s.drop_last(), st);
        if s.last().state == st {
            rest.push(s.last().node_id)
        } else {
            rest
        }
    }
}

/// The state recorded for node `id` by the first status that names it.
pub open spec fn state_of(s: Seq<NodeRolloutStatus>, id: u128) -> Option<NodeRolloutState>
    decreases s.len(),
{
    if s.len() == 0 {
        None
    } else if s[0].node_id == id {
        Some(s[0].state)
    } else {
        state_of(s.drop_first(), id)
    }
}

/// `ids` without the occurrences of `x`.
pub open spec fn without(ids: Seq<u128>, x: u128) -> Seq<u128>
    decreases ids.len(),
{
    if ids.len() == 0 {
        seq![]
    } else {
        let rest = without(ids.drop_last(), x);
        if ids.last() == x {
            rest
        } else {
            rest.push(ids.last())
        }
    }
}

/// The first `n` elements of `s`, or all of them when there are fewer.
pub open spec fn take_at_most(s: Seq<u128>, n: int) -> Seq<u128> {
    if 0 <= n < s.len() {
        s.take(n)
    } else {
        s
    }
}

/// The canary node of a rollout: its first target.
pub open spec fn canary_of(targets: Seq<u128>) -> Option<u128> {
    if targets.len() > 0 {
        Some(targets[0])
    } else {
        None
    }
}

/// The nodes to which a rollout is dispatched next.
///
/// - all at once: every pending node;
/// - manual: the first pending node;
/// - canary: nothing once the canary has failed; the pending nodes but the canary, a batch
///   (of at least one) at a time, once it has succeeded; before that the canary alone,
///   while it is pending;
/// - batch: pending nodes, no more than the batch size and no more than the nodes that may
///   still become unavailable beside those running.
pub open spec fn next_batch(spec: RolloutSpec, s: Seq<NodeRolloutStatus>) -> Seq<u128> {
    let pending = ids_in_state(s, NodeRolloutState::Pending);
    match spec.strategy {
        RolloutStrategy::AllAtOnce => pending,
        RolloutStrategy::Manual => take_at_most(pending, 1),
        RolloutStrategy::Canary => match canary_of(spec.targets@) {
            None => seq![],
            Some(cid) => if state_of(s, cid) == Some(NodeRolloutState::Failed) {
                seq![]
            } else if state_of(s, cid) == Some(NodeRolloutState::Succeeded) {
                let n = if spec.batch_config.batch_size >= 1 {
                    spec.batch_config.batch_size as int
                } else {
                    1
                };
                take_at_most(without(pending, cid), n)
            } else if pending.contains(cid) {
                seq![cid]
            } else {
                seq![]
            },
        },
        RolloutStrategy::Batch => {
            let running = ids_in_state(s, NodeRolloutState::Running).len();
            let max = spec.batch_config.max_unavailable;
            let can = if max > running { max - running } else { 0 };
            let size = spec.batch_config.batch_size;
            take_at_most(pending, if size < can { size as int } else { can as int })
        },
    }
}

/// Whether the failed nodes reach the failure threshold of the rollout (never when it has
/// no targets): `failed * 100 / targets >= threshold`, in whole percent.
pub open spec fn over_threshold(spec: RolloutSpec, s: Seq<NodeRolloutStatus>) -> bool {
    let total = spec.targets@.len();
    if total == 0 {
        false
    } else {
        (ids_in_state(s, NodeRolloutState::Failed).len() * 100) / total
            >= spec.failure_threshold_percent
    }
}

/// `s` holds, in the order of `targets`, one pending status per target with no step and no
/// error: what a rollout starts from.
pub open spec fn fresh_statuses(targets: Seq<u128>, s: Seq<NodeRolloutStatus>) -> bool {
    &&& s.len() == targets.len()
    &&& forall|i: int|
        0 <= i < s.len() ==> {
            &&& (#[trigger] s[i]).node_id == targets[i]
            &&& s[i].state == NodeRolloutState::Pending
            &&& s[i].current_step is None
            &&& s[i].error_message is None
        }
}

// ───────────────────────── lemmas ─────────────────────────

proof fn lemma_ids_in_state_members(s: Seq<NodeRolloutStatus>, st: NodeRolloutState, x: u128)
    ensures
        ids_in_state(s, st).contains(x) ==> exists|i: int|
            0 <= i < s.len() && (#[trigger] s[i]).node_id == x && s[i].state == st,
    decreases s.len(),
{
    if s.len() > 0 {
        let rest = ids_in_state(s.drop_last(), st);
        lemma_ids_in_state_members(s.drop_last(), st, x);
        if ids_in_state(s, st).contains(x) {
            if rest.contains(x) {
                let i = choose|i: int|
                    0 <= i < s.drop_last().len() && (#[trigger] s.drop_last()[i]).node_id == x
                        && s.drop_last()[i].state == st;
                assert(s[i] == s.drop_last()[i]);
            } else {
                assert(s[s.len() - 1].node_id == x);
            }
        }
    }
}

proof fn lemma_without_subset(ids: Seq<u128>, x: u128, y: u128)
    ensures
        without(ids, x).contains(y) ==> ids.contains(y) && y != x,
    decreases ids.len(),
{
    if ids.len() > 0 {
        lemma_without_subset(ids.drop_last(), x, y);
        if without(ids, x).contains(y) {
            let rest = without(ids.drop_last(), x);
            if rest.contains(y) {
                let j = choose|j: int| 0 <= j < rest.len() && rest[j] == y;
                let k = choose|k: int| 0 <= k < ids.drop_last().len() && ids.drop_last()[k] == y;
                assert(ids[k] == y);
            } else {
                assert(ids[ids.len() - 1] == y);
            }
        }
    }
}

proof fn lemma_take_at_most_subset(s: Seq<u128>, n: int, y: u128)
    ensures
        take_at_most(s, n).contains(y) ==> s.contains(y),
        take_at_most(s, n).len() <= s.len(),
        0 <= n ==> take_at_most(s, n).len() <= n || take_at_most(s, n) == s,
{
    if take_at_most(s, n).contains(y) && 0 <= n < s.len() {
        let j = choose|j: int| 0 <= j < s.take(n).len() && s.take(n)[j] == y;
        assert(s[j] == y);
    }
}

proof fn lemma_fresh_pending(targets: Seq<u128>, s: Seq<NodeRolloutStatus>)
    requires
        fresh_statuses(targets, s),
    ensures
        ids_in_state(s, NodeRolloutState::Pending) == targets,
    decreases s.len(),
{
    if s.len() > 0 {
        let t = targets.drop_last();
        let r = s.drop_last();
        assert forall|i: int| 0 <= i < r.len() implies {
            &&& (#[trigger] r[i]).node_id == t[i]
            &&& r[i].state == NodeRolloutState::Pending
            &&& r[i].current_step is None
            &&& r[i].error_message is None
        } by {
            assert(r[i] == s[i]);
        }
        lemma_fresh_pending(t, r);
        assert(s.last() == s[s.len() - 1]);
        assert(targets =~= t.push(targets.last()));
    } else {
        assert(targets =~= seq![]);
    }
}

proof fn lemma_fresh_state_of_first(targets: Seq<u128>, s: Seq<NodeRolloutStatus>)
    requires
        fresh_statuses(targets, s),
        targets.len() > 0,
    ensures
        state_of(s, targets[0]) == Some(NodeRolloutState::Pending),
{
    assert(s[0].node_id == targets[0]);
}

// ───────────────────────── laws ─────────────────────────

/// A rollout is only ever dispatched to nodes that are still pending.
pub proof fn law_next_batch_only_pending(spec: RolloutSpec, s: Seq<NodeRolloutStatus>, id: u128)
    requires
        next_batch(spec, s).contains(id),
    ensures
        exists|i: int|
            0 <= i < s.len() && (#[trigger] s[i]).node_id == id && s[i].state
                == NodeRolloutState::Pending,
{
    let pending = ids_in_state(s, NodeRolloutState::Pending);
    lemma_ids_in_state_members(s, NodeRolloutState::Pending, id);
    match spec.strategy {
        RolloutStrategy::AllAtOnce => {},
        RolloutStrategy::Manual => {
            lemma_take_at_most_subset(pending, 1, id);
        },
        RolloutStrategy::Canary => {
            let cid = spec.targets@[0];
            let n = if spec.batch_config.batch_size >= 1 {
                spec.batch_config.batch_size as int
            } else {
                1
            };
            lemma_take_at_most_subset(without(pending, cid), n, id);
            lemma_without_subset(pending, cid, id);
        },
        RolloutStrategy::Batch => {
            let running = ids_in_state(s, NodeRolloutState::Running).len();
            let max = spec.batch_config.max_unavailable;
            let can = if max > running { max - running } else { 0 };
            let size = spec.batch_config.batch_size;
            lemma_take_at_most_subset(pending, if size < can { size as int } else { can as int }, id);
        },
    }
}

/// Once the canary node has failed, a canary rollout dispatches nothing more.
pub proof fn law_failed_canary_halts(spec: RolloutSpec, s: Seq<NodeRolloutStatus>)
    requires
        spec.strategy == RolloutStrategy::Canary,
        spec.targets@.len() > 0,
        state_of(s, spec.targets@[0]) == Some(NodeRolloutState::Failed),
    ensures
        next_batch(spec, s).len() == 0,
{
}

/// Until the canary node has succeeded, a canary rollout dispatches at most the canary.
pub proof fn law_canary_goes_first(spec: RolloutSpec, s: Seq<NodeRolloutStatus>, id: u128)
    requires
        spec.strategy == RolloutStrategy::Canary,
        spec.targets@.len() > 0,
        state_of(s, spec.targets@[0]) != Some(NodeRolloutState::Succeeded),
        next_batch(spec, s).contains(id),
    ensures
        id == spec.targets@[0],
        next_batch(spec, s).len() == 1,
{
}

/// A batch rollout dispatches no more than its batch size, and never more nodes than may
/// still become unavailable beside those already running.
pub proof fn law_batch_bounds(spec: RolloutSpec, s: Seq<NodeRolloutStatus>)
    requires
        spec.strategy == RolloutStrategy::Batch,
    ensures
        next_batch(spec, s).len() <= spec.batch_config.batch_size,
        next_batch(spec, s).len() == 0 || next_batch(spec, s).len() + ids_in_state(
            s,
            NodeRolloutState::Running,
        ).len() <= spec.batch_config.max_unavailable,
{
    let pending = ids_in_state(s, NodeRolloutState::Pending);
    let running = ids_in_state(s, NodeRolloutState::Running).len();
    let max = spec.batch_config.max_unavailable;
    let can = if max > running { max - running } else { 0 };
    let size = spec.batch_config.batch_size;
    lemma_take_at_most_subset(pending, if size < can { size as int } else { can as int }, 0);
}

proof fn lemma_ids_in_state_filter(s: Seq<NodeRolloutStatus>, st: NodeRolloutState)
    ensures
        ids_in_state(s, st) == s.filter(|x: NodeRolloutStatus| x.state == st).map_values(
            |x: NodeRolloutStatus| x.node_id,
        ),
    decreases s.len(),
{
    reveal(Seq::filter);
    let p = |x: NodeRolloutStatus| x.state == st;
    let f = |x: NodeRolloutStatus| x.node_id;
    if s.len() == 0 {
        assert(s.filter(p) =~= Seq::<NodeRolloutStatus>::empty());
        assert(s.filter(p).map_values(f) =~= Seq::<u128>::empty());
    } else {
        lemma_ids_in_state_filter(s.drop_last(), st);
        let sub = s.drop_last().filter(p);
        if p(s.last()) {
            assert(s.filter(p) == sub.push(s.last()));
            assert(sub.push(s.last()).map_values(f) =~= sub.map_values(f).push(s.last().node_id));
        } else {
            assert(s.filter(p) == sub);
        }
    }
}

/// A batch rollout dispatches the pending nodes in the order of the statuses, as many as the
/// batch size allows and as may still become unavailable beside the nodes that are running
/// (none when the running ones already reach the limit). Only running nodes count against
/// the limit: succeeded and failed nodes do not.
pub proof fn law_batch_dispatches_first_pending(spec: RolloutSpec, s: Seq<NodeRolloutStatus>)
    requires
        spec.strategy == RolloutStrategy::Batch,
    ensures
        ({
            let pending = s.filter(|x: NodeRolloutStatus| x.state == NodeRolloutState::Pending)
                .map_values(|x: NodeRolloutStatus| x.node_id);
            let running = s.filter(
                |x: NodeRolloutStatus| x.state == NodeRolloutState::Running,
            ).len() as int;
            let room = spec.batch_config.max_unavailable as int - running;
            let size = spec.batch_config.batch_size as int;
            let count = if room <= 0 {
                0
            } else if size <= room && size <= pending.len() {
                size
            } else if room <= pending.len() {
                room
            } else {
                pending.len() as int
            };
            next_batch(spec, s) == pending.take(count)
        }),
{
    lemma_ids_in_state_filter(s, NodeRolloutState::Pending);
    lemma_ids_in_state_filter(s, NodeRolloutState::Running);
    let pending = ids_in_state(s, NodeRolloutState::Pending);
    assert(pending.take(pending.len() as int) =~= pending);
}

/// A manual rollout dispatches one node at a time.
pub proof fn law_manual_one_at_a_time(spec: RolloutSpec, s: Seq<NodeRolloutStatus>)
    requires
        spec.strategy == RolloutStrategy::Manual,
    ensures
        next_batch(spec, s).len() <= 1,
{
    lemma_take_at_most_subset(ids_in_state(s, NodeRolloutState::Pending), 1, 0);
}

/// On a fresh rollout, all-at-once dispatches every target, in order.
pub proof fn law_fresh_all_at_once(spec: RolloutSpec, s: Seq<NodeRolloutStatus>)
    requires
        spec.strategy == RolloutStrategy::AllAtOnce,
        fresh_statuses(spec.targets@, s),
    ensures
        next_batch(spec, s) == spec.targets@,
{
    lemma_fresh_pending(spec.targets@, s);
}

/// On a fresh rollout with targets, a canary rollout dispatches the first target alone.
pub proof fn law_fresh_canary(spec: RolloutSpec, s: Seq<NodeRolloutStatus>)
    requires
        spec.strategy == RolloutStrategy::Canary,
        spec.targets@.len() > 0,
        fresh_statuses(spec.targets@, s),
    ensures
        next_batch(spec, s) == seq![spec.targets@[0]],
{
    lemma_fresh_pending(spec.targets@, s);
    lemma_fresh_state_of_first(spec.targets@, s);
    assert(spec.targets@[0] == spec.targets@[0]);
    assert(ids_in_state(s, NodeRolloutState::Pending).contains(spec.targets@[0]));
}

// ───────────────────────── implementation ─────────────────────────

/// The identifiers of the statuses in state `st`, in order.
fn ids_with_state(statuses: &[NodeRolloutStatus], st: NodeRolloutState) -> (r: Vec<u128>)
    ensures
        r@ == ids_in_state(statuses@, st),
{
    let mut r: Vec<u128> = Vec::new();
    let mut i: usize = 0;
    assert(statuses@.take(0) =~= seq![]);
    while i < statuses.len()
        invariant
            i <= statuses@.len(),
            r@ == ids_in_state(statuses@.take(i as int), st),
        decreases statuses.len() - i,
    {
        assert(statuses@.take(i + 1).drop_last() =~= statuses@.take(i as int));
        if statuses[i].state == st {
            r.push(statuses[i].node_id);
        }
        i = i + 1;
    }
    assert(statuses@.take(statuses@.len() as int) =~= statuses@);
    r
}

/// The state of node `id` recorded by the first status that names it.
fn find_state(statuses: &[NodeRolloutStatus], id: u128) -> (r: Option<NodeRolloutState>)
    ensures
        r == state_of(statuses@, id),
{
    let mut i: usize = 0;
    assert(statuses@.skip(0) =~= statuses@);
    while i < statuses.len()
        invariant
            i <= statuses@.len(),
            state_of(statuses@, id) == state_of(statuses@.skip(i as int), id),
        decreases statuses.len() - i,
    {
        if statuses[i].node_id == id {
            return Some(statuses[i].state);
        }
        assert(statuses@.skip(i as int).drop_first() =~= statuses@.skip(i + 1));
        i = i + 1;
    }
    None
}

/// The elements of `ids` that are not `x`.
fn ids_without(ids: &[u128], x: u128) -> (r: Vec<u128>)
    ensures
        r@ == without(ids@, x),
{
    let mut r: Vec<u128> = Vec::new();
    let mut i: usize = 0;
    assert(ids@.take(0) =~= seq![]);
    while i < ids.len()
        invariant
            i <= ids@.len(),
            r@ == without(ids@.take(i as int), x),
        decreases ids.len() - i,
    {
        assert(ids@.take(i + 1).drop_last() =~= ids@.take(i as int));
        if ids[i] != x {
            r.push(ids[i]);
        }
        i = i + 1;
    }
    assert(ids@.take(ids@.len() as int) =~= ids@);
    r
}

/// The first `n` elements of `ids`, or all of them when there are fewer.
fn first_n(ids: &[u128], n: usize) -> (r: Vec<u128>)
    ensures
        r@ == take_at_most(ids@, n as int),
{
    let mut r: Vec<u128> = Vec::new();
    let mut i: usize = 0;
    while i < ids.len() && i < n
        invariant
            i <= ids@.len(),
            i <= n,
            r@ == ids@.take(i as int),
        decreases ids.len() - i,
    {
        r.push(ids[i]);
        assert(r@ =~= ids@.take(i + 1));
        i = i + 1;
    }
    assert(ids@.take(ids@.len() as int) =~= ids@);
    r
}

/// Whether `x` occurs in `ids`.
fn contains_id(ids: &[u128], x: u128) -> (r: bool)
    ensures
        r == ids@.contains(x),
{
    let mut i: usize = 0;
    while i < ids.len()
        invariant
            i <= ids@.len(),
            forall|j: int| 0 <= j < i ==> ids@[j] != x,
        decreases ids.len() - i,
    {
        if ids[i] == x {
            return true;
        }
        i = i + 1;
    }
    false
}

/// Engine that coordinates a rollout over several nodes.
#[derive(Debug, Clone, Default)]
pub struct RolloutCoordinator;

impl RolloutCoordinator {
    pub fn new() -> (r: Self) {
        RolloutCoordinator
    }

    /// The canary node: the first target, if any.
    pub fn select_canary_node(targets: &[u128]) -> (r: Option<u128>)
        ensures
            r == canary_of(targets@),
    {
        if targets.len() > 0 {
            Some(targets[0])
        } else {
            None
        }
    }

    /// Whether the canary node has failed, which stops the whole fleet.
    pub fn should_stop_on_canary_fail(canary_id: u128, node_statuses: &[NodeRolloutStatus]) -> (r:
        bool)
        ensures
            r == (state_of(node_statuses@, canary_id) == Some(NodeRolloutState::Failed)),
    {
        match find_state(node_statuses, canary_id) {
            Some(st) => st == NodeRolloutState::Failed,
            None => false,
        }
    }

    /// The nodes to which the rollout is dispatched next, by its strategy.
    pub fn compute_next_batch(spec: &RolloutSpec, node_statuses: &[NodeRolloutStatus]) -> (r: Vec<
        u128,
    >)
        ensures
            r@ == next_batch(*spec, node_statuses@),
    {
        let pending = ids_with_state(node_statuses, NodeRolloutState::Pending);
        match spec.strategy {
            RolloutStrategy::AllAtOnce => pending,
            RolloutStrategy::Manual => first_n(pending.as_slice(), 1),
            RolloutStrategy::Canary => {
                match Self::select_canary_node(spec.targets.as_slice()) {
                    None => Vec::new(),
                    Some(cid) => {
                        let st = find_state(node_statuses, cid);
                        if st == Some(NodeRolloutState::Failed) {
                            Vec::new()
                        } else if st == Some(NodeRolloutState::Succeeded) {
                            let n = if spec.batch_config.batch_size >= 1 {
                                spec.batch_config.batch_size
                            } else {
                                1
                            };
                            let rest = ids_without(pending.as_slice(), cid);
                            first_n(rest.as_slice(), n)
                        } else if contains_id(pending.as_slice(), cid) {
                            let mut v: Vec<u128> = Vec::new();
                            v.push(cid);
                            assert(v@ =~= seq![cid]);
                            v
                        } else {
                            Vec::new()
                        }
                    },
                }
            },
            RolloutStrategy::Batch => {
                let running = ids_with_state(node_statuses, NodeRolloutState::Running).len();
                let BatchConfig { batch_size, max_unavailable, .. } = spec.batch_config;
                let can = max_unavailable.saturating_sub(running);
                let n = if batch_size < can {
                    batch_size
                } else {
                    can
                };
                first_n(pending.as_slice(), n)
            },
        }
    }

    /// Whether the share of failed nodes has reached the failure threshold.
    pub fn check_failure_threshold(spec: &RolloutSpec, node_statuses: &[NodeRolloutStatus]) -> (r:
        bool)
        requires
            node_statuses@.len() * 100 <= usize::MAX,
        ensures
            r == over_threshold(*spec, node_statuses@),
    {
        let total = spec.targets.len();
        if total == 0 {
            return false;
        }
        let failed = ids_with_state(node_statuses, NodeRolloutState::Failed);
        proof {
            lemma_ids_in_state_len(node_statuses@, NodeRolloutState::Failed);
        }
        let percent = (failed.len() * 100) / total;
        percent >= spec.failure_threshold_percent as usize
    }

    /// The nodes to roll back: those that succeeded, the last to succeed first.
    pub fn compute_rollback_targets(node_statuses: &[NodeRolloutStatus]) -> (r: Vec<u128>)
        ensures
            r@ == ids_in_state(node_statuses@, NodeRolloutState::Succeeded).reverse(),
    {
        let succeeded = ids_with_state(node_statuses, NodeRolloutState::Succeeded);
        let mut r: Vec<u128> = Vec::new();
        let mut i: usize = succeeded.len();
        while i > 0
            invariant
                i <= succeeded@.len(),
                r@ == succeeded@.skip(i as int).reverse(),
            decreases i,
        {
            i = i - 1;
            r.push(succeeded[i]);
            assert(r@ =~= succeeded@.skip(i as int).reverse());
        }
        assert(succeeded@.skip(0) =~= succeeded@);
        r
    }

    /// One pending status per target, in order, with no step and no error.
    pub fn init_node_statuses(targets: &[u128]) -> (r: Vec<NodeRolloutStatus>)
        ensures
            fresh_statuses(targets@, r@),
    {
        let mut r: Vec<NodeRolloutStatus> = Vec::new();
        let mut i: usize = 0;
        while i < targets.len()
            invariant
                i <= targets@.len(),
                fresh_statuses(targets@.take(i as int), r@),
            decreases targets.len() - i,
        {
            r.push(
                NodeRolloutStatus {
                    node_id: targets[i],
                    state: NodeRolloutState::Pending,
                    current_step: None,
                    error_message: None,
                },
            );
            i = i + 1;
        }
        assert(targets@.take(targets@.len() as int) =~= targets@);
        r
    }
}

proof fn lemma_ids_in_state_len(s: Seq<NodeRolloutStatus>, st: NodeRolloutState)
    ensures
        ids_in_state(s, st).len() <= s.len(),
    decreases s.len(),
{
    if s.len() > 0 {
        lemma_ids_in_state_len(s.drop_last(), st);
    }
}

} // verus!
