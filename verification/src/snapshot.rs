//! Snapshots of the ruleset taken before an apply: their SHA-256 checksum, where they are
//! stored, the integrity check when they are read back, and the retention of the newest.
use vstd::prelude::*;
use crate::digest::{sha256_hex, sha256_hex_text};
use crate::errors::{AegisError, SnapshotId, Timestamp};
use crate::identity::{uuid_hyphenated, uuid_hyphenated_text};
use crate::text::{concat3, owned, push_str, str_eq};
use vstd::relations::injective_on;
use vstd::set_lib::{lemma_int_range, lemma_len_subset, lemma_map_size, lemma_subset_equality, set_int_range};

verus! {

/// A snapshot of the nftables ruleset.
#[derive(Debug, Clone, PartialEq, Eq)]
pub struct FirewallSnapshot {
    pub snapshot_id: SnapshotId,
    pub created_at: Timestamp,
    pub policy_hash: String,
    pub ruleset_content: String,
    pub checksum_sha256: String,
    pub reason: String,
}

/// A copy of a snapshot.
pub fn copy_snapshot(s: &FirewallSnapshot) -> (r: FirewallSnapshot)
    ensures
        r == *s,
{
    FirewallSnapshot {
        snapshot_id: s.snapshot_id,
        created_at: s.created_at,
        policy_hash: s.policy_hash.clone(),
        ruleset_content: s.ruleset_content.clone(),
        checksum_sha256: s.checksum_sha256.clone(),
        reason: s.reason.clone(),
    }
}

impl FirewallSnapshot {
    /// The checksum of a ruleset: the lower-case hexadecimal SHA-256 digest of its UTF-8
    /// bytes.
    pub fn compute_checksum(content: &str) -> (r: String)
        ensures
            r@ == sha256_hex(content@),
    {
        sha256_hex_text(content)
    }

    /// Whether the stored checksum is the checksum of the stored ruleset.
    pub fn verify_checksum(&self) -> (r: bool)
        ensures
            r == (self.checksum_sha256@ == sha256_hex(self.ruleset_content@)),
    {
        let expected = Self::compute_checksum(self.ruleset_content.as_str());
        str_eq(self.checksum_sha256.as_str(), expected.as_str())
    }
}

/// Storage of snapshots on disk, in one directory each, keeping the newest.
pub struct SnapshotManager {
    base_dir: String,
    max_retention: usize,
}

/// The directory of a snapshot: the base directory, `/`, and the snapshot's identifier.
pub open spec fn snapshot_dir(base: Seq<char>, id: SnapshotId) -> Seq<char> {
    base + "/"@ + uuid_hyphenated(id.0)
}

impl SnapshotManager {
    pub closed spec fn base_dir(&self) -> Seq<char> {
        self.base_dir@
    }

    pub closed spec fn max_retention(&self) -> usize {
        self.max_retention
    }

    /// A manager that stores under `base_dir` and keeps the `max_retention` newest.
    pub fn new(base_dir: &str, max_retention: usize) -> (r: Self)
        ensures
            r.base_dir() == base_dir@,
            r.max_retention() == max_retention,
    {
        SnapshotManager { base_dir: owned(base_dir), max_retention }
    }

    /// The production manager: `/var/lib/aegisnode/snapshots`, keeping 10.
    pub fn default_prod() -> (r: Self)
        ensures
            r.base_dir() == "/var/lib/aegisnode/snapshots"@,
            r.max_retention() == 10,
    {
        Self::new("/var/lib/aegisnode/snapshots", 10)
    }

    /// The base directory.
    pub fn base_dir_text(&self) -> (r: &str)
        ensures
            r@ == self.base_dir(),
    {
        self.base_dir.as_str()
    }

    /// How many snapshots are kept.
    pub fn retention(&self) -> (r: usize)
        ensures
            r == self.max_retention(),
    {
        self.max_retention
    }

    /// The directory of snapshot `id`.
    pub fn dir_of(&self, id: SnapshotId) -> (r: String)
        ensures
            r@ == snapshot_dir(self.base_dir(), id),
    {
        let t = uuid_hyphenated_text(id.0);
        concat3(self.base_dir.as_str(), "/", t.as_str())
    }

    /// The snapshot record made at `now` with identifier `id`: the ruleset with its
    /// checksum, the policy hash and the reason.
    pub fn build_snapshot(
        policy_hash: &str,
        ruleset_content: &str,
        reason: &str,
        id: SnapshotId,
        now: Timestamp,
    ) -> (r: FirewallSnapshot)
        ensures
            r.snapshot_id == id,
            r.created_at == now,
            r.policy_hash@ == policy_hash@,
            r.ruleset_content@ == ruleset_content@,
            r.checksum_sha256@ == sha256_hex(ruleset_content@),
            r.reason@ == reason@,
    {
        let checksum = FirewallSnapshot::compute_checksum(ruleset_content);
        FirewallSnapshot {
            snapshot_id: id,
            created_at: now,
            policy_hash: owned(policy_hash),
            ruleset_content: owned(ruleset_content),
            checksum_sha256: checksum,
            reason: owned(reason),
        }
    }

    /// A snapshot read back from disk is accepted only when its checksum holds; otherwise a
    /// storage error reports it as corrupted.
    pub fn check_read(snapshot: FirewallSnapshot) -> (r: Result<FirewallSnapshot, AegisError>)
        ensures
            match r {
                Ok(s) => s == snapshot && intact(snapshot),
                Err(e) => e is Storage && !intact(snapshot),
            },
    {
        if !snapshot.verify_checksum() {
            let t = uuid_hyphenated_text(snapshot.snapshot_id.0);
            let m = concat3(
                "Checksum verification failed for snapshot '",
                t.as_str(),
                "'. Data corrupted!",
            );
            return Err(AegisError::Storage(m));
        }
        Ok(snapshot)
    }

    /// Which stored snapshots to delete, given their creation times: the oldest ones beyond
    /// the retention limit, snapshots of the same time taken in the order given (indices, in
    /// increasing order).
    pub fn retention_victims(&self, created: &[Timestamp]) -> (r: Vec<usize>)
        ensures
            r@ == victims(created@, excess(created@.len(), self.max_retention() as nat), created@.len()),
    {
        let n = created.len();
        let k: usize = if n > self.max_retention {
            n - self.max_retention
        } else {
            0
        };
        let mut r: Vec<usize> = Vec::new();
        let mut i: usize = 0;
        while i < n
            invariant
                i <= n == created@.len(),
                k == excess(n as nat, self.max_retention() as nat),
                r@ == victims(created@, k as nat, i as nat),
            decreases n - i,
        {
            let rank = rank_of(created, i);
            if rank < k {
                r.push(i);
            }
            i = i + 1;
        }
        r
    }
}

/// How many of `n` snapshots exceed the retention limit `max`.
pub open spec fn excess(n: nat, max: nat) -> nat {
    if n > max {
        (n - max) as nat
    } else {
        0
    }
}

/// Snapshot `j` sorts before snapshot `i`: it is older, or as old and given earlier.
pub open spec fn sorts_before(ts: Seq<Timestamp>, j: int, i: int) -> bool {
    ts[i].later_than(ts[j]) || (ts[i] == ts[j] && j < i)
}

/// How many of the first `n` snapshots sort before snapshot `i`.
pub open spec fn rank_upto(ts: Seq<Timestamp>, i: int, n: nat) -> nat
    decreases n,
{
    if n == 0 {
        0
    } else {
        rank_upto(ts, i, (n - 1) as nat) + if sorts_before(ts, n - 1, i) {
            1nat
        } else {
            0nat
        }
    }
}

/// The position of snapshot `i` once all are sorted by creation time.
pub open spec fn rank(ts: Seq<Timestamp>, i: int) -> nat {
    rank_upto(ts, i, ts.len())
}

/// Among the first `n` snapshots, the indices of those whose position in creation order is
/// below `k`, in increasing order.
pub open spec fn victims(ts: Seq<Timestamp>, k: nat, n: nat) -> Seq<usize>
    decreases n,
{
    if n == 0 {
        seq![]
    } else {
        let rest = victims(ts, k, (n - 1) as nat);
        if rank(ts, n - 1) < k {
            rest.push((n - 1) as usize)
        } else {
            rest
        }
    }
}

proof fn lemma_rank_upto_bound(ts: Seq<Timestamp>, i: int, n: nat)
    ensures
        rank_upto(ts, i, n) <= n,
    decreases n,
{
    if n > 0 {
        lemma_rank_upto_bound(ts, i, (n - 1) as nat);
    }
}

/// The position of snapshot `i` in creation order.
fn rank_of(created: &[Timestamp], i: usize) -> (r: usize)
    requires
        i < created@.len(),
    ensures
        r == rank(created@, i as int),
{
    let mut count: usize = 0;
    let mut j: usize = 0;
    while j < created.len()
        invariant
            i < created@.len(),
            j <= created@.len(),
            count == rank_upto(created@, i as int, j as nat),
            count <= j,
        decreases created.len() - j,
    {
        let before = created[i].is_after(&created[j]) || (created[i] == created[j] && j < i);
        if before {
            count = count + 1;
        }
        j = j + 1;
    }
    count
}

proof fn lemma_rank_monotone(ts: Seq<Timestamp>, i: int, j: int, n: nat)
    requires
        0 <= i < ts.len(),
        0 <= j < ts.len(),
        ts[i].later_than(ts[j]),
        n <= ts.len(),
    ensures
        rank_upto(ts, j, n) + (if j < n { 1nat } else { 0nat }) <= rank_upto(ts, i, n),
    decreases n,
{
    if n > 0 {
        lemma_rank_monotone(ts, i, j, (n - 1) as nat);
        let x = n - 1;
        if sorts_before(ts, x, j) {
            assert(sorts_before(ts, x, i));
        }
        if x == j {
            assert(sorts_before(ts, x, i));
        }
    }
}

proof fn lemma_victims_members(ts: Seq<Timestamp>, k: nat, n: nat, x: usize)
    requires
        n <= ts.len(),
        ts.len() <= usize::MAX,
    ensures
        victims(ts, k, n).contains(x) <==> (x < n && rank(ts, x as int) < k),
    decreases n,
{
    if n > 0 {
        lemma_victims_members(ts, k, (n - 1) as nat, x);
        let rest = victims(ts, k, (n - 1) as nat);
        if rank(ts, n - 1) < k {
            let v = rest.push((n - 1) as usize);
            if x == n - 1 {
                assert(v[v.len() - 1] == x);
            }
            if v.contains(x) && x != n - 1 {
                let p = choose|p: int| 0 <= p < v.len() && v[p] == x;
                assert(p < rest.len());
                assert(rest[p] == x);
            }
            if rest.contains(x) {
                let p = choose|p: int| 0 <= p < rest.len() && rest[p] == x;
                assert(v[p] == x);
            }
        }
    }
}

/// Retention deletes only the oldest snapshots: every snapshot it deletes is at least as old
/// as every snapshot it keeps.
pub proof fn law_retention_deletes_oldest(ts: Seq<Timestamp>, max: nat, v: usize, kept: usize)
    requires
        ts.len() <= usize::MAX,
        victims(ts, excess(ts.len(), max), ts.len()).contains(v),
        kept < ts.len(),
        !victims(ts, excess(ts.len(), max), ts.len()).contains(kept),
    ensures
        !ts[v as int].later_than(ts[kept as int]),
{
    let k = excess(ts.len(), max);
    lemma_victims_members(ts, k, ts.len(), v);
    lemma_victims_members(ts, k, ts.len(), kept);
    if ts[v as int].later_than(ts[kept as int]) {
        lemma_rank_monotone(ts, v as int, kept as int, ts.len());
    }
}

proof fn lemma_sorts_before_order(ts: Seq<Timestamp>, a: int, b: int, c: int)
    requires
        0 <= a < ts.len(),
        0 <= b < ts.len(),
        0 <= c < ts.len(),
    ensures
        !sorts_before(ts, a, a),
        sorts_before(ts, a, b) && sorts_before(ts, b, c) ==> sorts_before(ts, a, c),
        a != b ==> sorts_before(ts, a, b) || sorts_before(ts, b, a),
{
}

/// Snapshots that sort before `i` sort before `j` when `i` sorts before `j`, and `i` itself
/// counts for `j`.
proof fn lemma_rank_strict(ts: Seq<Timestamp>, i: int, j: int, m: nat)
    requires
        0 <= i < ts.len(),
        0 <= j < ts.len(),
        m <= ts.len(),
        sorts_before(ts, i, j),
    ensures
        rank_upto(ts, i, m) + (if i < m { 1nat } else { 0nat }) <= rank_upto(ts, j, m),
    decreases m,
{
    if m > 0 {
        let x = m - 1;
        lemma_rank_strict(ts, i, j, (m - 1) as nat);
        lemma_sorts_before_order(ts, x, i, j);
    }
}

/// A snapshot does not sort before itself.
proof fn lemma_rank_below(ts: Seq<Timestamp>, i: int, m: nat)
    requires
        0 <= i < ts.len(),
        m <= ts.len(),
    ensures
        rank_upto(ts, i, m) + (if i < m { 1nat } else { 0nat }) <= m,
    decreases m,
{
    if m > 0 {
        lemma_rank_below(ts, i, (m - 1) as nat);
        lemma_sorts_before_order(ts, i, i, i);
    }
}

/// The snapshots among the first `m` whose position in creation order is below `k`.
spec fn victim_set(ts: Seq<Timestamp>, k: nat, m: int) -> Set<int> {
    Set::new(|i: int| 0 <= i < m && rank(ts, i) < k)
}

proof fn lemma_victims_len(ts: Seq<Timestamp>, k: nat, m: nat)
    requires
        m <= ts.len(),
    ensures
        victim_set(ts, k, m as int).finite(),
        victims(ts, k, m).len() == victim_set(ts, k, m as int).len(),
    decreases m,
{
    lemma_int_range(0, m as int);
    lemma_len_subset(victim_set(ts, k, m as int), set_int_range(0, m as int));
    if m > 0 {
        lemma_victims_len(ts, k, (m - 1) as nat);
        let prev = victim_set(ts, k, m - 1);
        if rank(ts, m - 1) < k {
            assert(victim_set(ts, k, m as int) =~= prev.insert(m - 1));
            assert(!prev.contains(m - 1));
        } else {
            assert(victim_set(ts, k, m as int) =~= prev);
        }
    } else {
        assert(victim_set(ts, k, 0) =~= Set::<int>::empty());
    }
}

proof fn lemma_victim_count(ts: Seq<Timestamp>, k: nat)
    requires
        k <= ts.len(),
    ensures
        victim_set(ts, k, ts.len() as int).len() == k,
{
    let n = ts.len() as int;
    let d = set_int_range(0, n);
    let f = |i: int| rank(ts, i) as int;
    lemma_int_range(0, n);
    lemma_int_range(0, k as int);
    assert forall|x1: int, x2: int|
        d.contains(x1) && d.contains(x2) && #[trigger] f(x1) == #[trigger] f(x2) implies x1
        == x2 by {
        if x1 != x2 {
            lemma_sorts_before_order(ts, x1, x2, x2);
            if sorts_before(ts, x1, x2) {
                lemma_rank_strict(ts, x1, x2, ts.len());
            } else {
                lemma_rank_strict(ts, x2, x1, ts.len());
            }
        }
    }
    let r = d.map(f);
    lemma_map_size(d, r, f);
    assert(r.subset_of(set_int_range(0, n))) by {
        assert forall|y: int| r.contains(y) implies set_int_range(0, n).contains(y) by {
            let x = choose|x: int| d.contains(x) && y == f(x);
            lemma_rank_below(ts, x, ts.len());
        }
    }
    lemma_subset_equality(r, set_int_range(0, n));
    let v = victim_set(ts, k, n);
    lemma_len_subset(v, d);
    assert(injective_on(f, v));
    assert(v.map(f) =~= set_int_range(0, k as int)) by {
        assert forall|y: int| set_int_range(0, k as int).contains(y) implies v.map(f).contains(y) by {
            assert(r.contains(y));
            let x = choose|x: int| d.contains(x) && y == f(x);
            assert(v.contains(x));
        }
    }
    lemma_map_size(v, set_int_range(0, k as int), f);
}

/// Retention keeps exactly as many snapshots as its limit allows: with more snapshots than
/// the limit it deletes as many as exceed it, and otherwise none.
pub proof fn law_retention_keeps_limit(ts: Seq<Timestamp>, max: nat)
    requires
        ts.len() <= usize::MAX,
    ensures
        victims(ts, excess(ts.len(), max), ts.len()).len() == if ts.len() > max {
            ts.len() - max
        } else {
            0
        },
{
    let k = excess(ts.len(), max);
    lemma_victims_len(ts, k, ts.len());
    lemma_victim_count(ts, k);
}

/// Within the retention limit nothing is deleted.
pub proof fn law_retention_within_limit(ts: Seq<Timestamp>, max: nat)
    requires
        ts.len() <= max,
    ensures
        victims(ts, excess(ts.len(), max), ts.len()).len() == 0,
{
    lemma_no_victims(ts, ts.len());
}

proof fn lemma_no_victims(ts: Seq<Timestamp>, n: nat)
    ensures
        victims(ts, 0, n).len() == 0,
    decreases n,
{
    if n > 0 {
        lemma_no_victims(ts, (n - 1) as nat);
    }
}


/// A snapshot whose stored checksum is the checksum of its stored ruleset.
pub open spec fn intact(s: FirewallSnapshot) -> bool {
    s.checksum_sha256@ == sha256_hex(s.ruleset_content@)
}

/// A snapshot as `build_snapshot` makes it (its checksum the SHA-256 of its ruleset), read
/// back unchanged, passes the integrity check of `check_read`.
pub proof fn law_snapshot_read_back(
    policy_hash: Seq<char>,
    content: Seq<char>,
    reason: Seq<char>,
    s: FirewallSnapshot,
)
    requires
        s.ruleset_content@ == content,
        s.policy_hash@ == policy_hash,
        s.reason@ == reason,
        s.checksum_sha256@ == sha256_hex(content),
    ensures
        intact(s),
{
}

} // verus!
