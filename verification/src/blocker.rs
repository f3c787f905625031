//! The block list of addresses (manual and automatic blocks, allowlist protection) and the
//! SSH brute-force detector with its sliding window.
use vstd::prelude::*;
use crate::errors::{AegisError, Timestamp, MAX_SPAN_SECS};
use crate::models::firewall::CidrSpec;
use crate::models::security::{BlockEntry, BlockerConfig};
use crate::net::{contains_ip, is_loopback, loopback, net_contains, parse_net, parsed_net, IpValue};
use crate::text::{
    chars_of, concat3, contains_str, contains_seq, decimal, decimal_text, owned, push_str,
    str_eq, string_of, trim, trim_chars,
};

verus! {

// ───────────────────────── specifications ─────────────────────────

/// The position of the entry for address `ip` (the last one, should there be several).
pub open spec fn ip_index(es: Seq<BlockEntry>, ip: Seq<char>) -> Option<int>
    decreases es.len(),
{
    if es.len() == 0 {
        None
    } else if es.last().ip@ == ip {
        Some(es.len() - 1)
    } else {
        ip_index(es.drop_last(), ip)
    }
}

/// No two entries are for the same address.
pub open spec fn unique_ips(es: Seq<BlockEntry>) -> bool {
    forall|i: int, j: int|
        0 <= i < es.len() && 0 <= j < es.len() && i != j ==> (#[trigger] es[i]).ip@
            != (#[trigger] es[j]).ip@
}

/// The entries with `e` in place of the entry for its address, or added when there is none
/// (what inserting into a map keyed by address does).
pub open spec fn upsert(es: Seq<BlockEntry>, e: BlockEntry) -> Seq<BlockEntry> {
    match ip_index(es, e.ip@) {
        Some(i) => es.update(i, e),
        None => es.push(e),
    }
}

/// The entries without the one for address `ip`.
pub open spec fn remove_ip(es: Seq<BlockEntry>, ip: Seq<char>) -> Seq<BlockEntry> {
    match ip_index(es, ip) {
        Some(i) => es.remove(i),
        None => es,
    }
}

/// The entries that have not expired at `now`, in order.
pub open spec fn unexpired(es: Seq<BlockEntry>, now: Timestamp) -> Seq<BlockEntry>
    decreases es.len(),
{
    if es.len() == 0 {
        seq![]
    } else {
        let rest = unexpired(es.drop_last(), now);
        if es.last().expired_at(now) {
            rest
        } else {
            rest.push(es.last())
        }
    }
}

/// The text reads, by `ipnet`, as a network that contains `a`.
pub open spec fn net_admits(s: Seq<char>, a: IpValue) -> bool {
    match parsed_net(s) {
        Some(n) => net_contains(n, a),
        None => false,
    }
}

/// Some network of the allowlist contains `a`.
pub open spec fn in_allowlist(allow: Seq<CidrSpec>, a: IpValue) -> bool {
    exists|i: int| 0 <= i < allow.len() && #[trigger] net_admits(allow[i].0@, a)
}

/// An address may never be blocked: it reads as an IP address (`parsed`) that is a loopback
/// address, that equals the address of the administrator's SSH session, or that lies in a
/// network of the allowlist.
pub open spec fn allowlisted(
    allow: Seq<CidrSpec>,
    ip: Seq<char>,
    parsed: Option<IpValue>,
    admin: Option<Seq<char>>,
) -> bool {
    match parsed {
        None => false,
        Some(a) => loopback(a) || admin == Some(ip) || in_allowlist(allow, a),
    }
}

/// The block entry made at `now` for `ip`: it expires `duration` seconds after `now`, or
/// never.
pub open spec fn new_entry(
    ip: Seq<char>,
    duration: Option<u64>,
    reason: Seq<char>,
    actor: Seq<char>,
    now: Timestamp,
    e: BlockEntry,
) -> bool {
    &&& e.ip@ == ip
    &&& e.reason@ == reason
    &&& e.actor@ == actor
    &&& e.duration_seconds == duration
    &&& e.created_at == now
    &&& e.expires_at == match duration {
        Some(d) => Some(Timestamp { secs: (now.secs + d) as i64, nanos: now.nanos }),
        None => None,
    }
}

/// A block duration can be added to `now`.
pub open spec fn duration_ok(now: Timestamp, duration: Option<u64>) -> bool {
    duration matches Some(d) ==> d <= MAX_SPAN_SECS && now.shift_ok(d as int)
}

// ───────────────────────── lemmas ─────────────────────────

proof fn lemma_ip_index(es: Seq<BlockEntry>, ip: Seq<char>)
    ensures
        ip_index(es, ip) matches Some(i) ==> 0 <= i < es.len() && es[i].ip@ == ip,
        ip_index(es, ip) is None ==> forall|k: int| 0 <= k < es.len() ==> (#[trigger] es[k]).ip@
            != ip,
    decreases es.len(),
{
    if es.len() > 0 {
        lemma_ip_index(es.drop_last(), ip);
        if es.last().ip@ != ip {
            assert forall|k: int| 0 <= k < es.len() - 1 implies es[k] == es.drop_last()[k] by {}
        }
    }
}

proof fn lemma_upsert_unique(es: Seq<BlockEntry>, e: BlockEntry)
    requires
        unique_ips(es),
    ensures
        unique_ips(upsert(es, e)),
        upsert(es, e).contains(e),
{
    lemma_ip_index(es, e.ip@);
    match ip_index(es, e.ip@) {
        Some(i) => {
            assert(upsert(es, e)[i] == e);
        },
        None => {
            assert(upsert(es, e)[es.len() as int] == e);
        },
    }
}

proof fn lemma_remove_unique(es: Seq<BlockEntry>, ip: Seq<char>)
    requires
        unique_ips(es),
    ensures
        unique_ips(remove_ip(es, ip)),
        forall|k: int| 0 <= k < remove_ip(es, ip).len() ==> (#[trigger] remove_ip(es, ip)[k]).ip@
            != ip,
{
    lemma_ip_index(es, ip);
    let r = remove_ip(es, ip);
    match ip_index(es, ip) {
        Some(i) => {
            assert forall|a: int, b: int|
                0 <= a < r.len() && 0 <= b < r.len() && a != b implies (#[trigger] r[a]).ip@
                != (#[trigger] r[b]).ip@ by {
                let a2 = if a < i { a } else { a + 1 };
                let b2 = if b < i { b } else { b + 1 };
                assert(r[a] == es[a2]);
                assert(r[b] == es[b2]);
            }
            assert forall|k: int| 0 <= k < r.len() implies (#[trigger] r[k]).ip@ != ip by {
                let k2 = if k < i { k } else { k + 1 };
                assert(r[k] == es[k2]);
            }
        },
        None => {},
    }
}

proof fn lemma_unexpired_sub(es: Seq<BlockEntry>, now: Timestamp)
    ensures
        forall|k: int|
            0 <= k < unexpired(es, now).len() ==> es.contains(#[trigger] unexpired(es, now)[k])
                && !unexpired(es, now)[k].expired_at(now),
        unexpired(es, now).len() <= es.len(),
    decreases es.len(),
{
    if es.len() > 0 {
        lemma_unexpired_sub(es.drop_last(), now);
        let rest = unexpired(es.drop_last(), now);
        assert forall|k: int| 0 <= k < rest.len() implies es.contains(#[trigger] rest[k]) by {
            let j = choose|j: int| 0 <= j < es.drop_last().len() && es.drop_last()[j] == rest[k];
            assert(es[j] == rest[k]);
        }
        assert(es[es.len() - 1] == es.last());
    }
}

proof fn lemma_unexpired_unique(es: Seq<BlockEntry>, now: Timestamp)
    requires
        unique_ips(es),
    ensures
        unique_ips(unexpired(es, now)),
        forall|k: int|
            0 <= k < unexpired(es, now).len() ==> exists|j: int|
                0 <= j < es.len() && es[j] == #[trigger] unexpired(es, now)[k],
    decreases es.len(),
{
    if es.len() > 0 {
        let d = es.drop_last();
        assert(unique_ips(d)) by {
            assert forall|a: int, b: int|
                0 <= a < d.len() && 0 <= b < d.len() && a != b implies (#[trigger] d[a]).ip@
                != (#[trigger] d[b]).ip@ by {
                assert(d[a] == es[a] && d[b] == es[b]);
            }
        }
        lemma_unexpired_unique(d, now);
        let rest = unexpired(d, now);
        assert forall|k: int| 0 <= k < rest.len() implies exists|j: int|
            0 <= j < es.len() && es[j] == #[trigger] rest[k] by {
            let j = choose|j: int| 0 <= j < d.len() && d[j] == rest[k];
            assert(es[j] == rest[k]);
        }
        if !es.last().expired_at(now) {
            let r = rest.push(es.last());
            assert forall|a: int, b: int|
                0 <= a < r.len() && 0 <= b < r.len() && a != b implies (#[trigger] r[a]).ip@
                != (#[trigger] r[b]).ip@ by {
                if a < rest.len() && b < rest.len() {
                } else if a < rest.len() {
                    let j = choose|j: int| 0 <= j < d.len() && d[j] == rest[a];
                    assert(es[j] == r[a]);
                    assert(r[b] == es[es.len() - 1]);
                } else {
                    let j = choose|j: int| 0 <= j < d.len() && d[j] == rest[b];
                    assert(es[j] == r[b]);
                    assert(r[a] == es[es.len() - 1]);
                }
            }
            assert forall|k: int| 0 <= k < r.len() implies exists|j: int|
                0 <= j < es.len() && es[j] == #[trigger] r[k] by {
                if k == rest.len() {
                    assert(es[es.len() - 1] == r[k]);
                } else {
                    assert(r[k] == rest[k]);
                }
            }
        }
    }
}

// ───────────────────────── implementation ─────────────────────────

/// A copy of an entry.
fn copy_entry(e: &BlockEntry) -> (r: BlockEntry)
    ensures
        r == *e,
{
    BlockEntry {
        ip: e.ip.clone(),
        reason: e.reason.clone(),
        actor: e.actor.clone(),
        duration_seconds: e.duration_seconds,
        created_at: e.created_at,
        expires_at: e.expires_at,
    }
}

/// In-memory block list, mirrored into the nftables sets.
pub struct BlockManager {
    config: BlockerConfig,
    entries: Vec<BlockEntry>,
}

impl BlockManager {
    /// The settings of the manager.
    pub closed spec fn config_of(&self) -> BlockerConfig {
        self.config
    }

    /// The blocked entries.
    pub closed spec fn entries_of(&self) -> Seq<BlockEntry> {
        self.entries@
    }

    /// No two entries are for the same address.
    pub closed spec fn wf(&self) -> bool {
        unique_ips(self.entries@)
    }

    /// An empty block list with the given settings.
    pub fn new(config: BlockerConfig) -> (r: Self)
        ensures
            r.wf(),
            r.config_of() == config,
            r.entries_of().len() == 0,
    {
        BlockManager { config, entries: Vec::new() }
    }

    /// The position of the entry for `ip`.
    fn find_ip(&self, ip: &str) -> (r: Option<usize>)
        ensures
            match r {
                Some(i) => ip_index(self.entries@, ip@) == Some(i as int),
                None => ip_index(self.entries@, ip@) is None,
            },
    {
        let mut j: usize = self.entries.len();
        assert(self.entries@.take(j as int) =~= self.entries@);
        while j > 0
            invariant
                j <= self.entries@.len(),
                ip_index(self.entries@, ip@) == ip_index(self.entries@.take(j as int), ip@),
            decreases j,
        {
            if str_eq(self.entries[j - 1].ip.as_str(), ip) {
                return Some(j - 1);
            }
            assert(self.entries@.take(j as int).drop_last() =~= self.entries@.take(j - 1));
            j = j - 1;
        }
        None
    }

    /// Whether `ip` may never be blocked. `parsed` is what `ip` reads as an IP address
    /// (`None` when it is none) and `admin_ip` the address of the administrator's SSH
    /// session, if any.
    ///
    /// The address is not read here: `parsed` is taken on trust as the reading of the address
    /// text (the standard library's `IpAddr` parse, done by the caller), and nothing checks
    /// that the two agree.
    pub fn is_allowlisted(&self, ip: &str, parsed: Option<IpValue>, admin_ip: Option<&str>) -> (r:
        bool)
        ensures
            r == allowlisted(
                self.config_of().allowlist@,
                ip@,
                parsed,
                match admin_ip {
                    Some(a) => Some(a@),
                    None => None,
                },
            ),
    {
        let a = match parsed {
            Some(a) => a,
            None => return false,
        };
        if is_loopback(a) {
            return true;
        }
        match admin_ip {
            Some(admin) => {
                if str_eq(admin, ip) {
                    return true;
                }
            },
            None => {},
        }
        let allow = &self.config.allowlist;
        let mut i: usize = 0;
        while i < allow.len()
            invariant
                i <= allow@.len(),
                allow@ == self.config.allowlist@,
                parsed == Some(a),
                !loopback(a),
                match admin_ip {
                    Some(x) => x@ != ip@,
                    None => true,
                },
                forall|k: int| 0 <= k < i ==> !#[trigger] net_admits(allow@[k].0@, a),
            decreases allow.len() - i,
        {
            match parse_net(allow[i].0.as_str()) {
                Some(n) => {
                    if contains_ip(n, a) {
                        assert(net_admits(allow@[i as int].0@, a));
                        return true;
                    }
                },
                None => {},
            }
            i = i + 1;
        }
        false
    }

    /// Blocks `ip` (trimmed) at time `now`, for `duration_seconds` or for good, unless it is
    /// allowlisted; a block for the same address is replaced. `parsed` is what the trimmed
    /// address reads as an IP address, `admin_ip` the address of the administrator's SSH
    /// session.
    ///
    /// The address is not read here: `parsed` is taken on trust as the reading of the address
    /// text (the standard library's `IpAddr` parse, done by the caller), and nothing checks
    /// that the two agree.
    pub fn add_block_at(
        &mut self,
        ip: &str,
        parsed: Option<IpValue>,
        duration_seconds: Option<u64>,
        reason: &str,
        actor: &str,
        admin_ip: Option<&str>,
        now: Timestamp,
    ) -> (r: Result<BlockEntry, AegisError>)
        requires
            old(self).wf(),
            duration_ok(now, duration_seconds),
        ensures
            final(self).wf(),
            final(self).config_of() == old(self).config_of(),
            match r {
                Ok(e) => {
                    &&& !allowlisted(
                        old(self).config_of().allowlist@,
                        trim(ip@),
                        parsed,
                        match admin_ip {
                            Some(a) => Some(a@),
                            None => None,
                        },
                    )
                    &&& new_entry(trim(ip@), duration_seconds, reason@, actor@, now, e)
                    &&& final(self).entries_of() == upsert(old(self).entries_of(), e)
                },
                Err(e) => {
                    &&& allowlisted(
                        old(self).config_of().allowlist@,
                        trim(ip@),
                        parsed,
                        match admin_ip {
                            Some(a) => Some(a@),
                            None => None,
                        },
                    )
                    &&& e is Validation
                    &&& final(self).entries_of() == old(self).entries_of()
                },
            },
    {
        let cs = chars_of(ip);
        let t = trim_chars(cs.as_slice());
        let trimmed = string_of(t.as_slice());
        if self.is_allowlisted(trimmed.as_str(), parsed, admin_ip) {
            let m = concat3(
                "Cannot block IP '",
                trimmed.as_str(),
                "' because it is in the management Allowlist or active Admin session!",
            );
            return Err(AegisError::Validation(m));
        }
        let expires_at = match duration_seconds {
            Some(d) => Some(now.shifted(d as i64)),
            None => None,
        };
        let entry = BlockEntry {
            ip: trimmed.clone(),
            reason: owned(reason),
            actor: owned(actor),
            duration_seconds,
            created_at: now,
            expires_at,
        };
        proof {
            lemma_ip_index(self.entries@, trimmed@);
            lemma_upsert_unique(self.entries@, entry);
        }
        match self.find_ip(trimmed.as_str()) {
            Some(i) => {
                self.entries.set(i, copy_entry(&entry));
            },
            None => {
                self.entries.push(copy_entry(&entry));
            },
        }
        Ok(entry)
    }

    /// Blocks `ip` from now on (by the clock), as `add_block_at` does. A duration that would
    /// take the expiry out of the calendar range is refused with a validation error.
    ///
    /// The address is not read here: `parsed` is taken on trust as the reading of the address
    /// text (the standard library's `IpAddr` parse, done by the caller), and nothing checks
    /// that the two agree.
    pub fn add_block(
        &mut self,
        ip: &str,
        parsed: Option<IpValue>,
        duration_seconds: Option<u64>,
        reason: &str,
        actor: &str,
        admin_ip: Option<&str>,
    ) -> (r: Result<BlockEntry, AegisError>)
        requires
            old(self).wf(),
        ensures
            final(self).wf(),
            final(self).config_of() == old(self).config_of(),
            match r {
                Ok(e) => {
                    &&& !allowlisted(
                        old(self).config_of().allowlist@,
                        trim(ip@),
                        parsed,
                        match admin_ip {
                            Some(a) => Some(a@),
                            None => None,
                        },
                    )
                    &&& new_entry(trim(ip@), duration_seconds, reason@, actor@, e.created_at, e)
                    &&& final(self).entries_of() == upsert(old(self).entries_of(), e)
                },
                Err(e) => {
                    &&& e is Validation
                    &&& final(self).entries_of() == old(self).entries_of()
                    &&& (duration_seconds is Some || allowlisted(
                        old(self).config_of().allowlist@,
                        trim(ip@),
                        parsed,
                        match admin_ip {
                            Some(a) => Some(a@),
                            None => None,
                        },
                    ))
                },
            },
    {
        let now = crate::clock::now();
        let fits = match duration_seconds {
            Some(d) => d <= MAX_SPAN_SECS as u64 && now.secs <= crate::errors::MAX_UNIX_SECS - d as i64,
            None => true,
        };
        if !fits {
            return Err(AegisError::Validation(owned("Block duration out of range")));
        }
        self.add_block_at(ip, parsed, duration_seconds, reason, actor, admin_ip, now)
    }

    /// Unblocks `ip` (trimmed); gives back the entry that was removed, if any.
    pub fn remove_block(&mut self, ip: &str) -> (r: Result<Option<BlockEntry>, AegisError>)
        requires
            old(self).wf(),
        ensures
            final(self).wf(),
            final(self).config_of() == old(self).config_of(),
            final(self).entries_of() == remove_ip(old(self).entries_of(), trim(ip@)),
            r matches Ok(o) && match ip_index(old(self).entries_of(), trim(ip@)) {
                Some(i) => o == Some(old(self).entries_of()[i]),
                None => o is None,
            },
    {
        let cs = chars_of(ip);
        let t = trim_chars(cs.as_slice());
        let trimmed = string_of(t.as_slice());
        proof {
            lemma_ip_index(self.entries@, trimmed@);
            lemma_remove_unique(self.entries@, trimmed@);
        }
        match self.find_ip(trimmed.as_str()) {
            Some(i) => {
                let e = self.entries.remove(i);
                Ok(Some(e))
            },
            None => Ok(None),
        }
    }

    /// Drops the entries that have expired at `now`.
    pub fn cleanup_expired_at(&mut self, now: Timestamp)
        requires
            old(self).wf(),
        ensures
            final(self).wf(),
            final(self).config_of() == old(self).config_of(),
            final(self).entries_of() == unexpired(old(self).entries_of(), now),
    {
        let ghost es = self.entries@;
        let mut kept: Vec<BlockEntry> = Vec::new();
        let mut i: usize = 0;
        assert(es.take(0) =~= seq![]);
        while i < self.entries.len()
            invariant
                i <= es.len(),
                self.entries@ == es,
                kept@ == unexpired(es.take(i as int), now),
            decreases es.len() - i,
        {
            assert(es.take(i + 1).drop_last() =~= es.take(i as int));
            if !self.entries[i].is_expired_at(now) {
                kept.push(copy_entry(&self.entries[i]));
            }
            i = i + 1;
        }
        assert(es.take(es.len() as int) =~= es);
        proof {
            lemma_unexpired_unique(es, now);
        }
        self.entries = kept;
    }

    /// Drops the entries that have expired by the clock.
    pub fn cleanup_expired(&mut self)
        requires
            old(self).wf(),
        ensures
            final(self).wf(),
            final(self).config_of() == old(self).config_of(),
            exists|now: Timestamp|
                now.wf() && final(self).entries_of() == unexpired(old(self).entries_of(), now),
    {
        let now = crate::clock::now();
        self.cleanup_expired_at(now);
    }

    /// The blocked entries that have not expired at `now` (expired ones are dropped first).
    pub fn list_blocks_at(&mut self, now: Timestamp) -> (r: Vec<BlockEntry>)
        requires
            old(self).wf(),
        ensures
            final(self).wf(),
            final(self).config_of() == old(self).config_of(),
            final(self).entries_of() == unexpired(old(self).entries_of(), now),
            r@ == final(self).entries_of(),
    {
        self.cleanup_expired_at(now);
        let mut r: Vec<BlockEntry> = Vec::new();
        let mut i: usize = 0;
        while i < self.entries.len()
            invariant
                i <= self.entries@.len(),
                r@ == self.entries@.take(i as int),
            decreases self.entries.len() - i,
        {
            r.push(copy_entry(&self.entries[i]));
            assert(r@ =~= self.entries@.take(i + 1));
            i = i + 1;
        }
        assert(self.entries@.take(self.entries@.len() as int) =~= self.entries@);
        r
    }

    /// The blocked entries that have not expired by the clock.
    pub fn list_blocks(&mut self) -> (r: Vec<BlockEntry>)
        requires
            old(self).wf(),
        ensures
            final(self).wf(),
            final(self).config_of() == old(self).config_of(),
            exists|now: Timestamp|
                now.wf() && final(self).entries_of() == unexpired(old(self).entries_of(), now),
            r@ == final(self).entries_of(),
    {
        let now = crate::clock::now();
        self.list_blocks_at(now)
    }

    /// The nftables command that adds the entry's address to `blocked_ipv6` (an address
    /// with a `:`) or `blocked_ipv4`, with a timeout for a timed block.
    pub fn build_nft_add_element_cmd(entry: &BlockEntry) -> (r: String)
        ensures
            r@ == nft_add_element(entry.ip@, entry.duration_seconds),
    {
        let set_name = if contains_str(entry.ip.as_str(), ":") {
            "blocked_ipv6"
        } else {
            "blocked_ipv4"
        };
        let mut r = owned("add element inet aegis_filter ");
        push_str(&mut r, set_name);
        push_str(&mut r, " { ");
        push_str(&mut r, entry.ip.as_str());
        match entry.duration_seconds {
            Some(d) => {
                push_str(&mut r, " timeout ");
                push_str(&mut r, decimal_text(d).as_str());
                push_str(&mut r, "s }");
            },
            None => {
                push_str(&mut r, " }");
            },
        }
        r
    }
}

/// The nftables command that adds address `ip` to the block set of its family.
pub open spec fn nft_add_element(ip: Seq<char>, duration: Option<u64>) -> Seq<char> {
    let set_name = if contains_seq(ip, ":"@) { "blocked_ipv6"@ } else { "blocked_ipv4"@ };
    match duration {
        Some(d) => "add element inet aegis_filter "@ + set_name + " { "@ + ip + " timeout "@
            + decimal(d as nat) + "s }"@,
        None => "add element inet aegis_filter "@ + set_name + " { "@ + ip + " }"@,
    }
}


// ───────────────────────── SSH brute-force detector ─────────────────────────

/// The failed attempts of `ip` still inside the window: those at or after `cutoff`, in
/// order.
pub open spec fn recent(ts: Seq<Timestamp>, cutoff: Timestamp) -> Seq<Timestamp>
    decreases ts.len(),
{
    if ts.len() == 0 {
        seq![]
    } else {
        let rest = recent(ts.drop_last(), cutoff);
        if ts.last().not_before(cutoff) {
            rest.push(ts.last())
        } else {
            rest
        }
    }
}

/// The record of failed attempts for each address: its text and the times of its failures.
pub type AttemptLog = Seq<(Seq<char>, Seq<Timestamp>)>;

/// The position of the record for `ip` in `log`.
pub open spec fn log_index(log: AttemptLog, ip: Seq<char>) -> Option<int>
    decreases log.len(),
{
    if log.len() == 0 {
        None
    } else if log.last().0 == ip {
        Some(log.len() - 1)
    } else {
        log_index(log.drop_last(), ip)
    }
}

/// The failures recorded for `ip` (none when it has no record).
pub open spec fn failures_of(log: AttemptLog, ip: Seq<char>) -> Seq<Timestamp> {
    match log_index(log, ip) {
        Some(i) => log[i].1,
        None => seq![],
    }
}

/// `log` with the failures of `ip` set to `ts` (a record is added when there is none).
pub open spec fn set_failures(log: AttemptLog, ip: Seq<char>, ts: Seq<Timestamp>) -> AttemptLog {
    match log_index(log, ip) {
        Some(i) => log.update(i, (ip, ts)),
        None => log.push((ip, ts)),
    }
}

/// The records of `log` with only their failures at or after `cutoff`, records left empty
/// dropped.
pub open spec fn prune(log: AttemptLog, cutoff: Timestamp) -> AttemptLog
    decreases log.len(),
{
    if log.len() == 0 {
        seq![]
    } else {
        let rest = prune(log.drop_last(), cutoff);
        let kept = recent(log.last().1, cutoff);
        if kept.len() == 0 {
            rest
        } else {
            rest.push((log.last().0, kept))
        }
    }
}

/// No two records are for the same address.
pub open spec fn unique_log(log: AttemptLog) -> bool {
    forall|i: int, j: int|
        0 <= i < log.len() && 0 <= j < log.len() && i != j ==> (#[trigger] log[i]).0
            != (#[trigger] log[j]).0
}

proof fn lemma_log_index(log: AttemptLog, ip: Seq<char>)
    ensures
        log_index(log, ip) matches Some(i) ==> 0 <= i < log.len() && log[i].0 == ip,
        log_index(log, ip) is None ==> forall|k: int| 0 <= k < log.len() ==> (#[trigger] log[k]).0
            != ip,
    decreases log.len(),
{
    if log.len() > 0 {
        lemma_log_index(log.drop_last(), ip);
        if log.last().0 != ip {
            assert forall|k: int| 0 <= k < log.len() - 1 implies log[k] == log.drop_last()[k] by {}
        }
    }
}

proof fn lemma_set_failures_unique(log: AttemptLog, ip: Seq<char>, ts: Seq<Timestamp>)
    requires
        unique_log(log),
    ensures
        unique_log(set_failures(log, ip, ts)),
{
    lemma_log_index(log, ip);
}

proof fn lemma_prune_unique(log: AttemptLog, cutoff: Timestamp)
    requires
        unique_log(log),
    ensures
        unique_log(prune(log, cutoff)),
        forall|k: int|
            0 <= k < prune(log, cutoff).len() ==> exists|j: int|
                0 <= j < log.len() && log[j].0 == (#[trigger] prune(log, cutoff)[k]).0,
    decreases log.len(),
{
    if log.len() > 0 {
        let d = log.drop_last();
        assert(unique_log(d)) by {
            assert forall|a: int, b: int|
                0 <= a < d.len() && 0 <= b < d.len() && a != b implies (#[trigger] d[a]).0
                != (#[trigger] d[b]).0 by {
                assert(d[a] == log[a] && d[b] == log[b]);
            }
        }
        lemma_prune_unique(d, cutoff);
        let rest = prune(d, cutoff);
        assert forall|k: int| 0 <= k < rest.len() implies exists|j: int|
            0 <= j < log.len() && log[j].0 == (#[trigger] rest[k]).0 by {
            let j = choose|j: int| 0 <= j < d.len() && d[j].0 == rest[k].0;
            assert(log[j] == d[j]);
        }
        let kept = recent(log.last().1, cutoff);
        if kept.len() > 0 {
            let r = rest.push((log.last().0, kept));
            assert forall|a: int, b: int|
                0 <= a < r.len() && 0 <= b < r.len() && a != b implies (#[trigger] r[a]).0
                != (#[trigger] r[b]).0 by {
                if a < rest.len() && b < rest.len() {
                } else if a < rest.len() {
                    let j = choose|j: int| 0 <= j < d.len() && d[j].0 == rest[a].0;
                    assert(log[j] == d[j]);
                    assert(r[a] == rest[a]);
                } else {
                    let j = choose|j: int| 0 <= j < d.len() && d[j].0 == rest[b].0;
                    assert(log[j] == d[j]);
                    assert(r[b] == rest[b]);
                }
            }
            assert forall|k: int| 0 <= k < r.len() implies exists|j: int|
                0 <= j < log.len() && log[j].0 == (#[trigger] r[k]).0 by {
                if k == rest.len() {
                    assert(log[log.len() - 1].0 == r[k].0);
                } else {
                    assert(r[k] == rest[k]);
                }
            }
        }
    }
}

/// The failures of one address.
struct IpAttemptTrack {
    ip: String,
    timestamps: Vec<Timestamp>,
}

/// The failures in `ts` at or after `cutoff`.
fn recent_failures(ts: &[Timestamp], cutoff: Timestamp) -> (r: Vec<Timestamp>)
    ensures
        r@ == recent(ts@, cutoff),
{
    let mut r: Vec<Timestamp> = Vec::new();
    let mut i: usize = 0;
    assert(ts@.take(0) =~= seq![]);
    while i < ts.len()
        invariant
            i <= ts@.len(),
            r@ == recent(ts@.take(i as int), cutoff),
        decreases ts.len() - i,
    {
        assert(ts@.take(i + 1).drop_last() =~= ts@.take(i as int));
        if !cutoff.is_after(&ts[i]) {
            r.push(ts[i]);
        }
        i = i + 1;
    }
    assert(ts@.take(ts@.len() as int) =~= ts@);
    r
}

/// SSH brute-force detector: counts the failed logins of each address over a sliding window
/// and blocks an address once it reaches the threshold.
pub struct SshDetector {
    threshold: u32,
    window_seconds: u64,
    block_seconds: u64,
    tracks: Vec<IpAttemptTrack>,
}

/// What the detector decided on a failure.
pub open spec fn failure_outcome(
    log: AttemptLog,
    threshold: u32,
    window: u64,
    ip: Seq<char>,
    now: Timestamp,
) -> (AttemptLog, bool) {
    let cutoff = Timestamp { secs: (now.secs - window) as i64, nanos: now.nanos };
    let inside = recent(failures_of(log, ip), cutoff).push(now);
    if inside.len() >= threshold {
        (set_failures(log, ip, seq![]), true)
    } else {
        (set_failures(log, ip, inside), false)
    }
}

/// The window of `window` seconds can be taken from `now`.
pub open spec fn window_clock_ok(now: Timestamp, window: u64) -> bool {
    window <= MAX_SPAN_SECS && now.shift_ok(-(window as int))
}

/// The window can be taken from `now` and a block of `block_seconds` added to it.
pub open spec fn detector_clock_ok(now: Timestamp, window: u64, block_seconds: u64) -> bool {
    window_clock_ok(now, window) && duration_ok(now, Some(block_seconds))
}

/// What recording a failure of `ip` at `now` does: the failure log becomes what
/// `failure_outcome` gives; below the threshold nothing is blocked and nothing is returned;
/// at the threshold the address is blocked for `block_seconds` as the detector's block, or,
/// when it is allowlisted, the block is refused with a validation error and the block list
/// stays as it was.
pub open spec fn failure_recorded(
    log_before: AttemptLog,
    log_after: AttemptLog,
    threshold: u32,
    window: u64,
    block_seconds: u64,
    allow: Seq<CidrSpec>,
    blocks_before: Seq<BlockEntry>,
    blocks_after: Seq<BlockEntry>,
    ip: Seq<char>,
    parsed: Option<IpValue>,
    admin: Option<Seq<char>>,
    now: Timestamp,
    r: Result<Option<BlockEntry>, AegisError>,
) -> bool {
    let (log, triggered) = failure_outcome(log_before, threshold, window, ip, now);
    &&& log_after == log
    &&& !triggered ==> r == Ok::<Option<BlockEntry>, AegisError>(None) && blocks_after
        == blocks_before
    &&& triggered ==> match r {
        Ok(Some(e)) => {
            &&& !allowlisted(allow, ip, parsed, admin)
            &&& new_entry(
                ip,
                Some(block_seconds),
                "SSH authentication brute-force attempt detected"@,
                "ssh_detector"@,
                now,
                e,
            )
            &&& blocks_after == upsert(blocks_before, e)
        },
        Ok(None) => false,
        Err(e) => {
            &&& allowlisted(allow, ip, parsed, admin)
            &&& e is Validation
            &&& blocks_after == blocks_before
        },
    }
}

impl SshDetector {
    /// A detector that blocks an address for `block_seconds` once it has failed `threshold`
    /// times within `window_seconds`.
    pub fn new(threshold: u32, window_seconds: u64, block_seconds: u64) -> (r: Self)
        ensures
            r.wf(),
            r.threshold() == threshold,
            r.window_seconds() == window_seconds,
            r.block_seconds() == block_seconds,
            r.log().len() == 0,
    {
        SshDetector { threshold, window_seconds, block_seconds, tracks: Vec::new() }
    }

    pub closed spec fn threshold(&self) -> u32 {
        self.threshold
    }

    pub closed spec fn window_seconds(&self) -> u64 {
        self.window_seconds
    }

    pub closed spec fn block_seconds(&self) -> u64 {
        self.block_seconds
    }

    /// The failures recorded for each address.
    pub closed spec fn log(&self) -> AttemptLog {
        self.tracks@.map_values(|t: IpAttemptTrack| (t.ip@, t.timestamps@))
    }

    /// No two records are for the same address.
    pub closed spec fn wf(&self) -> bool {
        unique_log(self.log())
    }

    /// The position of the record for `ip`.
    fn find_track(&self, ip: &str) -> (r: Option<usize>)
        ensures
            match r {
                Some(i) => log_index(self.log(), ip@) == Some(i as int),
                None => log_index(self.log(), ip@) is None,
            },
    {
        let ghost log = self.log();
        let mut j: usize = self.tracks.len();
        assert(log.take(j as int) =~= log);
        while j > 0
            invariant
                j <= self.tracks@.len(),
                log == self.log(),
                log.len() == self.tracks@.len(),
                log_index(log, ip@) == log_index(log.take(j as int), ip@),
            decreases j,
        {
            assert(log[j - 1].0 == self.tracks@[j - 1].ip@);
            if str_eq(self.tracks[j - 1].ip.as_str(), ip) {
                return Some(j - 1);
            }
            assert(log.take(j as int).drop_last() =~= log.take(j - 1));
            j = j - 1;
        }
        None
    }

    /// Records, at time `now`, a failed SSH login from `ip` (trimmed). The failures of that
    /// address older than the window are forgotten; when the failures inside the window reach
    /// the threshold, they are cleared and the address is blocked through `block_mgr` for
    /// `block_seconds` (as actor `ssh_detector`), which fails when the address is
    /// allowlisted. `parsed` is what the trimmed address reads as an IP address, `admin_ip`
    /// the address of the administrator's SSH session.
    ///
    /// The address is not read here: `parsed` is taken on trust as the reading of the address
    /// text (the standard library's `IpAddr` parse, done by the caller), and nothing checks
    /// that the two agree.
    pub fn record_failure_at(
        &mut self,
        ip: &str,
        parsed: Option<IpValue>,
        block_mgr: &mut BlockManager,
        admin_ip: Option<&str>,
        now: Timestamp,
    ) -> (r: Result<Option<BlockEntry>, AegisError>)
        requires
            old(self).wf(),
            old(block_mgr).wf(),
            old(self).window_seconds() <= MAX_SPAN_SECS,
            now.shift_ok(-(old(self).window_seconds() as int)),
            duration_ok(now, Some(old(self).block_seconds())),
        ensures
            final(self).wf(),
            final(self).threshold() == old(self).threshold(),
            final(self).window_seconds() == old(self).window_seconds(),
            final(self).block_seconds() == old(self).block_seconds(),
            final(block_mgr).wf(),
            final(block_mgr).config_of() == old(block_mgr).config_of(),
            failure_recorded(
                old(self).log(),
                final(self).log(),
                old(self).threshold(),
                old(self).window_seconds(),
                old(self).block_seconds(),
                old(block_mgr).config_of().allowlist@,
                old(block_mgr).entries_of(),
                final(block_mgr).entries_of(),
                trim(ip@),
                parsed,
                match admin_ip {
                    Some(a) => Some(a@),
                    None => None,
                },
                now,
                r,
            ),
    {
        let cs = chars_of(ip);
        let t = trim_chars(cs.as_slice());
        let trimmed = string_of(t.as_slice());
        let cutoff = now.shifted(0i64 - self.window_seconds as i64);
        let ghost log0 = self.log();
        let ghost key = trimmed@;
        proof {
            lemma_log_index(log0, key);
        }
        let (inside, index) = match self.find_track(trimmed.as_str()) {
            Some(i) => {
                let mut v = recent_failures(self.tracks[i].timestamps.as_slice(), cutoff);
                v.push(now);
                (v, Some(i))
            },
            None => {
                let mut v: Vec<Timestamp> = Vec::new();
                assert(recent(seq![], cutoff) =~= seq![]);
                v.push(now);
                (v, None)
            },
        };
        assert(inside@ == recent(failures_of(log0, key), cutoff).push(now));
        let triggered = inside.len() >= self.threshold as usize;
        let stored: Vec<Timestamp> = if triggered { Vec::new() } else { inside };
        let ghost stored_v = stored@;
        let track = IpAttemptTrack { ip: trimmed, timestamps: stored };
        match index {
            Some(i) => {
                self.tracks.set(i, track);
            },
            None => {
                self.tracks.push(track);
            },
        }
        proof {
            assert(self.log() =~= set_failures(log0, key, stored_v));
            lemma_set_failures_unique(log0, key, stored_v);
        }
        if triggered {
            let entry = block_mgr.add_block_at(
                ip,
                parsed,
                Some(self.block_seconds),
                "SSH authentication brute-force attempt detected",
                "ssh_detector",
                admin_ip,
                now,
            );
            match entry {
                Ok(e) => Ok(Some(e)),
                Err(e) => Err(e),
            }
        } else {
            Ok(None)
        }
    }

    /// Records a failed SSH login from `ip` at the time of the clock, as `record_failure_at`
    /// does. A time the window or the block length cannot be added to is refused with a
    /// validation error and changes nothing.
    ///
    /// The address is not read here: `parsed` is taken on trust as the reading of the address
    /// text (the standard library's `IpAddr` parse, done by the caller), and nothing checks
    /// that the two agree.
    pub fn record_failure(
        &mut self,
        ip: &str,
        parsed: Option<IpValue>,
        block_mgr: &mut BlockManager,
        admin_ip: Option<&str>,
    ) -> (r: Result<Option<BlockEntry>, AegisError>)
        requires
            old(self).wf(),
            old(block_mgr).wf(),
        ensures
            final(self).wf(),
            final(block_mgr).wf(),
            final(block_mgr).config_of() == old(block_mgr).config_of(),
            final(self).threshold() == old(self).threshold(),
            final(self).window_seconds() == old(self).window_seconds(),
            final(self).block_seconds() == old(self).block_seconds(),
            exists|now: Timestamp|
                #![trigger now.wf()]
                now.wf() && now.secs >= 0 && if detector_clock_ok(
                    now,
                    old(self).window_seconds(),
                    old(self).block_seconds(),
                ) {
                    failure_recorded(
                        old(self).log(),
                        final(self).log(),
                        old(self).threshold(),
                        old(self).window_seconds(),
                        old(self).block_seconds(),
                        old(block_mgr).config_of().allowlist@,
                        old(block_mgr).entries_of(),
                        final(block_mgr).entries_of(),
                        trim(ip@),
                        parsed,
                        match admin_ip {
                            Some(a) => Some(a@),
                            None => None,
                        },
                        now,
                        r,
                    )
                } else {
                    &&& r matches Err(AegisError::Validation(m)) && m@
                        == "Detector window out of range"@
                    &&& final(self).log() == old(self).log()
                    &&& final(block_mgr).entries_of() == old(block_mgr).entries_of()
                },
    {
        let now = crate::clock::now();
        let w = self.window_seconds;
        let b = self.block_seconds;
        if w > MAX_SPAN_SECS as u64 || now.secs < crate::errors::MIN_UNIX_SECS + w as i64
            || b > MAX_SPAN_SECS as u64 || now.secs > crate::errors::MAX_UNIX_SECS - b as i64 {
            return Err(AegisError::Validation(owned("Detector window out of range")));
        }
        self.record_failure_at(ip, parsed, block_mgr, admin_ip, now)
    }

    /// Forgets, at time `now`, the failures older than the window and the addresses left
    /// with none.
    pub fn cleanup_at(&mut self, now: Timestamp)
        requires
            old(self).wf(),
            old(self).window_seconds() <= MAX_SPAN_SECS,
            now.shift_ok(-(old(self).window_seconds() as int)),
        ensures
            final(self).wf(),
            final(self).threshold() == old(self).threshold(),
            final(self).window_seconds() == old(self).window_seconds(),
            final(self).block_seconds() == old(self).block_seconds(),
            final(self).log() == prune(
                old(self).log(),
                Timestamp {
                    secs: (now.secs - old(self).window_seconds()) as i64,
                    nanos: now.nanos,
                },
            ),
    {
        let cutoff = now.shifted(0i64 - self.window_seconds as i64);
        let ghost log0 = self.log();
        let mut kept: Vec<IpAttemptTrack> = Vec::new();
        let mut i: usize = 0;
        assert(log0.take(0) =~= seq![]);
        while i < self.tracks.len()
            invariant
                i <= self.tracks@.len(),
                log0 == self.log(),
                log0.len() == self.tracks@.len(),
                kept@.map_values(|t: IpAttemptTrack| (t.ip@, t.timestamps@)) == prune(
                    log0.take(i as int),
                    cutoff,
                ),
            decreases self.tracks.len() - i,
        {
            assert(log0.take(i + 1).drop_last() =~= log0.take(i as int));
            assert(log0.take(i + 1).last() == log0[i as int]);
            let ts = recent_failures(self.tracks[i].timestamps.as_slice(), cutoff);
            if ts.len() > 0 {
                let ghost before = kept@.map_values(|t: IpAttemptTrack| (t.ip@, t.timestamps@));
                kept.push(IpAttemptTrack { ip: self.tracks[i].ip.clone(), timestamps: ts });
                assert(kept@.map_values(|t: IpAttemptTrack| (t.ip@, t.timestamps@)) =~= before.push(
                    (log0[i as int].0, recent(log0[i as int].1, cutoff)),
                ));
            }
            i = i + 1;
        }
        assert(log0.take(log0.len() as int) =~= log0);
        proof {
            lemma_prune_unique(log0, cutoff);
        }
        self.tracks = kept;
    }

    /// Forgets the failures older than the window, by the clock.
    pub fn cleanup(&mut self)
        requires
            old(self).wf(),
        ensures
            final(self).wf(),
            final(self).threshold() == old(self).threshold(),
            final(self).window_seconds() == old(self).window_seconds(),
            final(self).block_seconds() == old(self).block_seconds(),
            exists|now: Timestamp|
                #![trigger now.wf()]
                now.wf() && now.secs >= 0 && if window_clock_ok(now, old(self).window_seconds()) {
                    final(self).log() == prune(
                        old(self).log(),
                        Timestamp {
                            secs: (now.secs - old(self).window_seconds()) as i64,
                            nanos: now.nanos,
                        },
                    )
                } else {
                    final(self).log() == old(self).log()
                },
    {
        let now = crate::clock::now();
        let w = self.window_seconds;
        if w > MAX_SPAN_SECS as u64 || now.secs < crate::errors::MIN_UNIX_SECS + w as i64 {
            return;
        }
        self.cleanup_at(now);
    }
}

/// Once an address has failed as many times within the window as the threshold, the
/// detector forgets its failures and asks for a block; below the threshold it keeps the
/// failures inside the window and the new one, and asks for nothing.
pub proof fn law_sliding_window(
    log: AttemptLog,
    threshold: u32,
    window: u64,
    ip: Seq<char>,
    now: Timestamp,
)
    requires
        unique_log(log),
    ensures
        ({
            let cutoff = Timestamp { secs: (now.secs - window) as i64, nanos: now.nanos };
            let (after, triggered) = failure_outcome(log, threshold, window, ip, now);
            let n = recent(failures_of(log, ip), cutoff).len() + 1;
            &&& triggered <==> n >= threshold
            &&& triggered ==> failures_of(after, ip).len() == 0
            &&& !triggered ==> failures_of(after, ip) == recent(failures_of(log, ip), cutoff).push(
                now,
            )
        }),
{
    let cutoff = Timestamp { secs: (now.secs - window) as i64, nanos: now.nanos };
    let inside = recent(failures_of(log, ip), cutoff).push(now);
    let ts = if inside.len() >= threshold { seq![] } else { inside };
    lemma_log_index(log, ip);
    lemma_log_index(set_failures(log, ip, ts), ip);
    let after = set_failures(log, ip, ts);
    match log_index(log, ip) {
        Some(i) => {
            assert(after[i].0 == ip);
            assert forall|k: int| 0 <= k < after.len() && k != i implies (#[trigger] after[k]).0
                != ip by {
                assert(after[k] == log[k]);
            }
            lemma_log_index_unique_hit(after, ip, i);
        },
        None => {
            assert(after[log.len() as int].0 == ip);
            lemma_log_index_unique_hit(after, ip, log.len() as int);
        },
    }
}

proof fn lemma_log_index_unique_hit(log: AttemptLog, ip: Seq<char>, i: int)
    requires
        0 <= i < log.len(),
        log[i].0 == ip,
        forall|k: int| 0 <= k < log.len() && k != i ==> (#[trigger] log[k]).0 != ip,
    ensures
        log_index(log, ip) == Some(i),
    decreases log.len(),
{
    if i < log.len() - 1 {
        assert forall|k: int| 0 <= k < log.drop_last().len() && k != i implies (
        #[trigger] log.drop_last()[k]).0 != ip by {
            assert(log.drop_last()[k] == log[k]);
        }
        lemma_log_index_unique_hit(log.drop_last(), ip, i);
    }
}

} // verus!
