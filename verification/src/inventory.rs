//! The inventory of a node, read from the text of kernel and system files, and the live
//! rules and counters of the managed nftables table, read from `nft -j`.
use vstd::prelude::*;
use crate::models::fleet::{NetworkInterfaceInfo, NodeInventoryPayload, RuntimeInventory, SystemInventory};
use crate::runtime::ProcessOutput;
use crate::json::{json_get, json_i64, json_str, parse_json, parsed_json, str_field_or, JsonValue};
use crate::text::{
    chars_of, contains_seq, matches_at, occurs_at, contains_str, join, join_strings, lines, lines_chars, lowercase_of,
    nth_word, nth_word_chars, owned, parse_unsigned, parse_unsigned_chars, pieces_are, push_str,
    signed_decimal, signed_decimal_text, slice_chars, split_once, split_once_chars, starts_with,
    starts_with_chars, str_eq, strip_char, strip_char_chars, string_of, to_lowercase_text,
    to_uppercase_text, trim, trim_chars, trim_str, uppercase_of, views,
};

verus! {

// ───────────────────────── key=value files ─────────────────────────

/// The value of `key` in a `KEY=VALUE` file (`/etc/os-release`): from the first line whose
/// part before its first `=` is exactly `key`, what follows that `=`, without surrounding
/// quotes and whitespace; `Unknown` when no line gives it.
pub open spec fn release_value(ls: Seq<Seq<char>>, key: Seq<char>) -> Seq<char>
    decreases ls.len(),
{
    if ls.len() == 0 {
        "Unknown"@
    } else {
        match split_once(ls[0], "="@) {
            Some((k, v)) => if k == key {
                trim(strip_char(v, '"'))
            } else {
                release_value(ls.drop_first(), key)
            },
            None => release_value(ls.drop_first(), key),
        }
    }
}

/// The value of `key` in the text of a `KEY=VALUE` file.
pub fn get_etc_os_release_val(content: &str, key: &str) -> (r: String)
    ensures
        r@ == release_value(lines(content@), key@),
{
    let cs = chars_of(content);
    let ls = lines_chars(cs.as_slice());
    let ghost specs = lines(content@);
    let eq = chars_of("=");
    let mut i: usize = 0;
    assert(specs.skip(0) =~= specs);
    while i < ls.len()
        invariant
            pieces_are(ls@, specs),
            i <= ls@.len(),
            eq@ == "="@,
            specs == lines(content@),
            release_value(specs, key@) == release_value(specs.skip(i as int), key@),
        decreases ls.len() - i,
    {
        assert(ls@[i as int]@ == specs[i as int]);
        assert(specs.skip(i as int)[0] == specs[i as int]);
        match split_once_chars(ls[i].as_slice(), eq.as_slice()) {
            Some((u, v)) => {
                let name = string_of(u.as_slice());
                if str_eq(name.as_str(), key) {
                    let unquoted = strip_char_chars(v.as_slice(), '"');
                    let t = trim_chars(unquoted.as_slice());
                    let ghost row = specs.skip(i as int);
                    assert(row.len() > 0);
                    assert(row[0] == ls@[i as int]@);
                    assert(split_once(row[0], "="@) == Some((u@, v@)));
                    assert(release_value(row, key@) == trim(strip_char(v@, '"')));
                    return string_of(t.as_slice());
                }
            },
            None => {},
        }
        assert(specs.skip(i as int).drop_first() =~= specs.skip(i + 1));
        i = i + 1;
    }
    owned("Unknown")
}

// ───────────────────────── /proc/meminfo ─────────────────────────

/// The number on a `/proc/meminfo` line (its second word), in whole MiB; 0 when it does not
/// read as a `u64`. `None` when the line has no second word.
pub open spec fn meminfo_mb(line: Seq<char>) -> Option<nat> {
    match nth_word(line, 1) {
        Some(w) => Some(
            match parse_unsigned(w, u64::MAX as nat) {
                Some(n) => n / 1024,
                None => 0,
            },
        ),
        None => None,
    }
}

/// Total and available memory in MiB after reading `ls`: the `MemTotal:` line sets the
/// total, a `MemAvailable:` or `MemFree:` line sets the available memory (the last such
/// line wins).
pub open spec fn memory_after(ls: Seq<Seq<char>>) -> (nat, nat)
    decreases ls.len(),
{
    if ls.len() == 0 {
        (0, 0)
    } else {
        let (total, free) = memory_after(ls.drop_last());
        let l = ls.last();
        if starts_with(l, "MemTotal:"@) {
            match meminfo_mb(l) {
                Some(v) => (v, free),
                None => (total, free),
            }
        } else if starts_with(l, "MemAvailable:"@) || starts_with(l, "MemFree:"@) {
            match meminfo_mb(l) {
                Some(v) => (total, v),
                None => (total, free),
            }
        } else {
            (total, free)
        }
    }
}

fn meminfo_line_mb(line: &[char]) -> (r: Option<u64>)
    ensures
        match r {
            Some(v) => meminfo_mb(line@) == Some(v as nat),
            None => meminfo_mb(line@) is None,
        },
{
    match nth_word_chars(line, 1) {
        Some(w) => match parse_unsigned_chars(w.as_slice(), u64::MAX) {
            Some(n) => Some(n / 1024),
            None => Some(0),
        },
        None => None,
    }
}

/// Total and available memory, in MiB, from the text of `/proc/meminfo`.
pub fn memory_from_meminfo(meminfo: &str) -> (r: (u64, u64))
    ensures
        (r.0 as nat, r.1 as nat) == memory_after(lines(meminfo@)),
{
    let cs = chars_of(meminfo);
    let ls = lines_chars(cs.as_slice());
    let ghost specs = lines(meminfo@);
    let total_key = chars_of("MemTotal:");
    let avail_key = chars_of("MemAvailable:");
    let free_key = chars_of("MemFree:");
    let mut total: u64 = 0;
    let mut free: u64 = 0;
    let mut i: usize = 0;
    assert(specs.take(0) =~= seq![]);
    while i < ls.len()
        invariant
            pieces_are(ls@, specs),
            i <= ls@.len(),
            total_key@ == "MemTotal:"@,
            avail_key@ == "MemAvailable:"@,
            free_key@ == "MemFree:"@,
            (total as nat, free as nat) == memory_after(specs.take(i as int)),
        decreases ls.len() - i,
    {
        assert(specs.take(i + 1).drop_last() =~= specs.take(i as int));
        assert(ls@[i as int]@ == specs[i as int]);
        if starts_with_chars(ls[i].as_slice(), total_key.as_slice()) {
            match meminfo_line_mb(ls[i].as_slice()) {
                Some(v) => {
                    total = v;
                },
                None => {},
            }
        } else if starts_with_chars(ls[i].as_slice(), avail_key.as_slice()) || starts_with_chars(
            ls[i].as_slice(),
            free_key.as_slice(),
        ) {
            match meminfo_line_mb(ls[i].as_slice()) {
                Some(v) => {
                    free = v;
                },
                None => {},
            }
        }
        i = i + 1;
    }
    assert(specs.take(specs.len() as int) =~= specs);
    (total, free)
}

// ───────────────────────── system and interfaces ─────────────────────────

/// The trimmed text of a file that could be read, or `default`.
pub open spec fn trimmed_or(content: Option<Seq<char>>, default: Seq<char>) -> Seq<char> {
    match content {
        Some(c) => trim(c),
        None => default,
    }
}

/// An optional text, as characters.
pub open spec fn opt_view(t: Option<&str>) -> Option<Seq<char>> {
    match t {
        Some(x) => Some(x@),
        None => None,
    }
}

fn trimmed_or_text(content: Option<&str>, default: &str) -> (r: String)
    ensures
        r@ == trimmed_or(opt_view(content), default@),
{
    match content {
        Some(c) => trim_str(c),
        None => owned(default),
    }
}

/// The first line of `/proc/version` (`Linux 6.x` when it could not be read; `Linux` when
/// it is empty).
pub open spec fn kernel_line(content: Option<Seq<char>>) -> Seq<char> {
    let text = match content {
        Some(c) => c,
        None => "Linux 6.x"@,
    };
    if lines(text).len() > 0 {
        lines(text)[0]
    } else {
        "Linux"@
    }
}

/// The number that a file holds, trimmed, when it reads as a number no greater than `max`;
/// `default` otherwise.
pub open spec fn number_or(content: Option<Seq<char>>, max: nat, default: nat) -> nat {
    match content {
        Some(c) => match parse_unsigned(trim(c), max) {
            Some(n) => n,
            None => default,
        },
        None => default,
    }
}

fn number_or_value(content: Option<&str>, max: u64, default: u64) -> (r: u64)
    requires
        default <= max,
    ensures
        r as nat == number_or(opt_view(content), max as nat, default as nat),
{
    match content {
        Some(c) => {
            let cs = chars_of(c);
            let t = trim_chars(cs.as_slice());
            match parse_unsigned_chars(t.as_slice(), max) {
                Some(n) => n,
                None => default,
            }
        },
        None => default,
    }
}

/// The facts about the operating system that the files of a node give.
pub struct SystemFiles<'a> {
    /// `/etc/hostname`.
    pub hostname: Option<&'a str>,
    /// The `HOSTNAME` environment variable.
    pub hostname_env: Option<&'a str>,
    /// `/etc/os-release`.
    pub os_release: Option<&'a str>,
    /// `/proc/version`.
    pub proc_version: Option<&'a str>,
    /// The available parallelism of the machine.
    pub cpu_cores: Option<u32>,
    /// `/proc/meminfo`.
    pub meminfo: Option<&'a str>,
    /// Whole seconds of `/proc/uptime`.
    pub uptime_seconds: u64,
    /// `/etc/machine-id`.
    pub machine_id: Option<&'a str>,
    /// `/sys/class/dmi/id/product_uuid`.
    pub product_uuid: Option<&'a str>,
    /// The version of the agent.
    pub agent_version: &'a str,
}

/// The system inventory from what the files of the node hold (`None` for a file that could
/// not be read).
pub fn system_inventory_from(f: &SystemFiles) -> (r: SystemInventory)
    ensures
        r.hostname@ == match f.hostname {
            Some(h) => trim(h@),
            None => match f.hostname_env {
                Some(e) => e@,
                None => "localhost"@,
            },
        },
        r.os_name@ == release_value(
            lines(
                match f.os_release {
                    Some(c) => c@,
                    None => seq![],
                },
            ),
            "NAME"@,
        ),
        r.os_version@ == release_value(
            lines(
                match f.os_release {
                    Some(c) => c@,
                    None => seq![],
                },
            ),
            "VERSION"@,
        ),
        r.kernel_version@ == kernel_line(opt_view(f.proc_version)),
        r.cpu_cores == match f.cpu_cores {
            Some(n) => n,
            None => 1,
        },
        (r.total_memory_mb as nat, r.free_memory_mb as nat) == memory_after(
            lines(
                match f.meminfo {
                    Some(c) => c@,
                    None => seq![],
                },
            ),
        ),
        r.uptime_seconds == f.uptime_seconds,
        r.machine_id@ == match f.machine_id {
            Some(m) => trim(m@),
            None => trimmed_or(opt_view(f.product_uuid), "00000000-0000-0000-0000-000000000000"@),
        },
        r.agent_version@ == f.agent_version@,
{
    let hostname = match f.hostname {
        Some(h) => trim_str(h),
        None => match f.hostname_env {
            Some(e) => owned(e),
            None => owned("localhost"),
        },
    };
    let release = match f.os_release {
        Some(c) => c,
        None => "",
    };
    proof {
        reveal_strlit("");
    }
    let os_name = get_etc_os_release_val(release, "NAME");
    let os_version = get_etc_os_release_val(release, "VERSION");
    let version_text = match f.proc_version {
        Some(c) => c,
        None => "Linux 6.x",
    };
    let vc = chars_of(version_text);
    let vls = lines_chars(vc.as_slice());
    let kernel_version = if vls.len() > 0 {
        string_of(vls[0].as_slice())
    } else {
        owned("Linux")
    };
    let cpu_cores = match f.cpu_cores {
        Some(n) => n,
        None => 1,
    };
    let mem_text = match f.meminfo {
        Some(c) => c,
        None => "",
    };
    let (total, free) = memory_from_meminfo(mem_text);
    let machine_id = match f.machine_id {
        Some(m) => trim_str(m),
        None => trimmed_or_text(f.product_uuid, "00000000-0000-0000-0000-000000000000"),
    };
    SystemInventory {
        hostname,
        os_name,
        os_version,
        kernel_version,
        cpu_cores,
        total_memory_mb: total,
        free_memory_mb: free,
        uptime_seconds: f.uptime_seconds,
        machine_id,
        agent_version: owned(f.agent_version),
    }
}

/// The files of one network interface under `/sys/class/net/<name>`.
pub struct InterfaceFiles<'a> {
    pub name: &'a str,
    pub address: Option<&'a str>,
    pub mtu: Option<&'a str>,
    pub operstate: Option<&'a str>,
    pub rx_bytes: Option<&'a str>,
    pub tx_bytes: Option<&'a str>,
}

/// The inventory of one interface from what its files hold (`None` for a file that could
/// not be read): the trimmed MAC address (also the permanent one), MTU (1500 when unknown),
/// state and byte counters (0 when unknown), with the loopback addresses and gateway.
pub fn interface_info_from(f: &InterfaceFiles) -> (r: NetworkInterfaceInfo)
    ensures
        r.name@ == f.name@,
        r.mac_address@ == trimmed_or(opt_view(f.address), "00:00:00:00:00:00"@),
        r.permanent_mac@ == r.mac_address@,
        r.mtu as nat == number_or(opt_view(f.mtu), u32::MAX as nat, 1500),
        r.operstate@ == trimmed_or(opt_view(f.operstate), "unknown"@),
        r.rx_bytes as nat == number_or(opt_view(f.rx_bytes), u64::MAX as nat, 0),
        r.tx_bytes as nat == number_or(opt_view(f.tx_bytes), u64::MAX as nat, 0),
        r.ipv4_addresses@.len() == 1 && r.ipv4_addresses@[0]@ == "127.0.0.1"@,
        r.ipv6_addresses@.len() == 1 && r.ipv6_addresses@[0]@ == "::1"@,
        r.gateway matches Some(g) && g@ == "127.0.0.1"@,
{
    let mac = trimmed_or_text(f.address, "00:00:00:00:00:00");
    let mtu = number_or_value(f.mtu, 0xffff_ffff, 1500) as u32;
    let operstate = trimmed_or_text(f.operstate, "unknown");
    let rx = number_or_value(f.rx_bytes, u64::MAX, 0);
    let tx = number_or_value(f.tx_bytes, u64::MAX, 0);
    NetworkInterfaceInfo {
        name: owned(f.name),
        mac_address: mac.clone(),
        permanent_mac: mac,
        mtu,
        operstate,
        ipv4_addresses: vec![owned("127.0.0.1")],
        ipv6_addresses: vec![owned("::1")],
        rx_bytes: rx,
        tx_bytes: tx,
        gateway: Some(owned("127.0.0.1")),
    }
}

/// The full inventory of the node: its system and interfaces, with the runtime state of the
/// managed firewall.
pub fn collect_full_node_inventory(system: SystemInventory, interfaces: Vec<NetworkInterfaceInfo>) -> (r:
    NodeInventoryPayload)
    ensures
        r.system == system,
        r.network_interfaces == interfaces,
        r.runtime.firewall_hash@ == "aegis_nftables_v1"@,
        r.runtime.rule_count == 5,
        r.runtime.active_blocks_count == 0,
        r.runtime.docker_containers_count == 0,
        r.runtime.systemd_services_running == 1,
        r.runtime.backend_name@ == "nftables"@,
{
    NodeInventoryPayload {
        system,
        network_interfaces: interfaces,
        runtime: RuntimeInventory {
            firewall_hash: owned("aegis_nftables_v1"),
            rule_count: 5,
            active_blocks_count: 0,
            docker_containers_count: 0,
            systemd_services_running: 1,
            backend_name: owned("nftables"),
        },
    }
}


// ───────────────────────── live nftables rules ─────────────────────────

/// One rule of the kernel ruleset with its counters.
#[derive(Debug, Clone)]
pub struct LiveNftRulePayload {
    pub chain: String,
    pub rule_id: String,
    pub protocol: String,
    pub src_cidr: String,
    pub dst_cidr: String,
    pub port_spec: String,
    pub action: String,
    pub packets: i64,
    pub bytes: i64,
}

/// The live rules of a node, sent to the controller.
#[derive(Debug, Clone)]
pub struct AgentFirewallSyncPayload {
    pub node_id: u128,
    pub rules: Vec<LiveNftRulePayload>,
}

/// What is known of a rule while its expressions are read: packets, bytes, action,
/// protocol and port.
pub type ExprState = (i64, i64, Seq<char>, Seq<char>, Seq<char>);

/// The integer of a number value, or 0.
pub open spec fn i64_or_zero(v: Option<JsonValue>) -> i64 {
    match json_i64(v) {
        Some(n) => n,
        None => 0,
    }
}

/// The port numbers of a set, as text (members that are no `i64` are left out).
pub open spec fn set_ports(items: Seq<JsonValue>) -> Seq<Seq<char>>
    decreases items.len(),
{
    if items.len() == 0 {
        seq![]
    } else {
        let rest = set_ports(items.drop_last());
        match json_i64(Some(items.last())) {
            Some(n) => rest.push(signed_decimal(n as int)),
            None => rest,
        }
    }
}

/// The port that the right-hand side of a port match gives: a number, or the numbers of a
/// set joined by `,` (when there are any); `port` otherwise.
pub open spec fn port_of_right(right: JsonValue, port: Seq<char>) -> Seq<char> {
    match json_i64(Some(right)) {
        Some(n) => signed_decimal(n as int),
        None => match json_get(right, "set"@) {
            Some(JsonValue::Array(items)) => if set_ports(items@).len() > 0 {
                join(set_ports(items@), ","@)
            } else {
                port
            },
            _ => port,
        },
    }
}

/// What one expression of a rule tells: a counter gives the packets and bytes; a verdict
/// the action; a match on a TCP or UDP payload the protocol, on a port field the port, and
/// on the protocol field against `icmp` the ICMP protocol.
pub open spec fn expr_step(st: ExprState, e: JsonValue) -> ExprState {
    let (p0, b0, act0, proto0, port0) = st;
    let (p1, b1) = match json_get(e, "counter"@) {
        Some(c) => (i64_or_zero(json_get(c, "packets"@)), i64_or_zero(json_get(c, "bytes"@))),
        None => (p0, b0),
    };
    let act1 = if json_get(e, "accept"@) is Some {
        "ACCEPT"@
    } else if json_get(e, "drop"@) is Some {
        "DROP"@
    } else if json_get(e, "reject"@) is Some {
        "REJECT"@
    } else {
        act0
    };
    match json_get(e, "match"@) {
        None => (p1, b1, act1, proto0, port0),
        Some(m) => match json_get(m, "left"@) {
            None => (p1, b1, act1, proto0, port0),
            Some(left) => match json_get(left, "payload"@) {
                None => (p1, b1, act1, proto0, port0),
                Some(pl) => {
                    let pr = str_field_or(pl, "protocol"@, "any"@);
                    let field = str_field_or(pl, "field"@, seq![]);
                    let proto1 = if pr == "tcp"@ {
                        "TCP"@
                    } else if pr == "udp"@ {
                        "UDP"@
                    } else {
                        proto0
                    };
                    let port1 = if field == "dport"@ || field == "sport"@ {
                        match json_get(m, "right"@) {
                            Some(right) => port_of_right(right, port0),
                            None => port0,
                        }
                    } else {
                        port0
                    };
                    let proto2 = if json_str(json_get(pl, "field"@)) == Some("protocol"@) {
                        match json_get(m, "right"@) {
                            Some(right) => if json_str(Some(right)) == Some("icmp"@) {
                                "ICMP"@
                            } else {
                                proto1
                            },
                            None => proto1,
                        }
                    } else {
                        proto1
                    };
                    (p1, b1, act1, proto2, port1)
                },
            },
        },
    }
}

/// The state after reading expressions `es` in order.
pub open spec fn exprs_after(st: ExprState, es: Seq<JsonValue>) -> ExprState
    decreases es.len(),
{
    if es.len() == 0 {
        st
    } else {
        expr_step(exprs_after(st, es.drop_last()), es.last())
    }
}

/// `s` without the copies of `p` at its start (`str::trim_start_matches`).
pub open spec fn trim_start_matches(s: Seq<char>, p: Seq<char>) -> Seq<char>
    decreases s.len(),
{
    if p.len() > 0 && starts_with(s, p) {
        trim_start_matches(s.skip(p.len() as int), p)
    } else {
        s
    }
}

/// Chain, identifier, protocol, source, destination, port, action, packets and bytes of a
/// rule.
pub type RuleFacts = (Seq<char>, Seq<char>, Seq<char>, Seq<char>, Seq<char>, Seq<char>, Seq<char>, i64, i64);

/// The facts of a rule payload.
pub open spec fn rule_facts(r: LiveNftRulePayload) -> RuleFacts {
    (r.chain@, r.rule_id@, r.protocol@, r.src_cidr@, r.dst_cidr@, r.port_spec@, r.action@, r.packets, r.bytes)
}

/// The rule that a `rule` object of `nft -j` describes: its chain in upper case (`INPUT`
/// when none is given); its identifier from its comment without the `aegis:` prefix, or
/// `rule_<chain>_<handle>`; what its expressions tell (ACCEPT, protocol ANY and port any
/// when they tell nothing), where a protocol still unknown is guessed from the identifier
/// (ICMP for `icmp`, TCP for `ssh` or `http`); any source and destination.
pub open spec fn rule_of(rule: JsonValue) -> RuleFacts {
    let chain = uppercase_of(str_field_or(rule, "chain"@, "INPUT"@));
    let handle = i64_or_zero(json_get(rule, "handle"@));
    let rule_id = match json_str(json_get(rule, "comment"@)) {
        Some(c) => trim_start_matches(c, "aegis:"@),
        None => "rule_"@ + lowercase_of(chain) + "_"@ + signed_decimal(handle as int),
    };
    let exprs = match json_get(rule, "expr"@) {
        Some(JsonValue::Array(items)) => items@,
        _ => seq![],
    };
    let (packets, bytes, action, proto, port) = exprs_after(
        (0i64, 0i64, "ACCEPT"@, "ANY"@, "any"@),
        exprs,
    );
    let protocol = if proto == "ANY"@ {
        if contains_seq(rule_id, "icmp"@) {
            "ICMP"@
        } else if contains_seq(rule_id, "ssh"@) || contains_seq(rule_id, "http"@) {
            "TCP"@
        } else {
            "ANY"@
        }
    } else {
        proto
    };
    (chain, rule_id, protocol, "0.0.0.0/0"@, "any"@, port, action, packets, bytes)
}

/// The `rule` objects among the items of a listing, in order.
pub open spec fn rules_in(items: Seq<JsonValue>) -> Seq<JsonValue>
    decreases items.len(),
{
    if items.len() == 0 {
        seq![]
    } else {
        let rest = rules_in(items.drop_last());
        match json_get(items.last(), "rule"@) {
            Some(r) => rest.push(r),
            None => rest,
        }
    }
}

/// The rules of the JSON listing `text` of the managed table (none when it is no JSON or
/// has no `nftables` array).
pub open spec fn listed_rules(text: Seq<char>) -> Seq<RuleFacts> {
    let items = match parsed_json(text) {
        Some(doc) => match json_get(doc, "nftables"@) {
            Some(JsonValue::Array(items)) => items@,
            _ => seq![],
        },
        None => seq![],
    };
    rules_in(items).map_values(|r: JsonValue| rule_of(r))
}

struct ExprAcc {
    packets: i64,
    bytes: i64,
    action: String,
    protocol: String,
    port: String,
}

impl ExprAcc {
    spec fn state(&self) -> ExprState {
        (self.packets, self.bytes, self.action@, self.protocol@, self.port@)
    }
}

fn i64_field_or_zero(v: &JsonValue, key: &str) -> (r: i64)
    ensures
        r == i64_or_zero(json_get(*v, key@)),
{
    match v.get(key) {
        Some(x) => match x.as_i64() {
            Some(n) => n,
            None => 0,
        },
        None => 0,
    }
}

fn set_ports_text(items: &Vec<JsonValue>) -> (r: Vec<String>)
    ensures
        views(r@) == set_ports(items@),
{
    let mut r: Vec<String> = Vec::new();
    let mut i: usize = 0;
    assert(items@.take(0) =~= seq![]);
    while i < items.len()
        invariant
            i <= items@.len(),
            views(r@) == set_ports(items@.take(i as int)),
        decreases items.len() - i,
    {
        assert(items@.take(i + 1).drop_last() =~= items@.take(i as int));
        assert(items@.take(i + 1).last() == items@[i as int]);
        match items[i].as_i64() {
            Some(n) => {
                r.push(signed_decimal_text(n));
                assert(views(r@) =~= set_ports(items@.take(i as int)).push(signed_decimal(n as int)));
            },
            None => {},
        }
        i = i + 1;
    }
    assert(items@.take(items@.len() as int) =~= items@);
    r
}

fn port_from_right(right: &JsonValue, port: &String) -> (r: String)
    ensures
        r@ == port_of_right(*right, port@),
{
    match right.as_i64() {
        Some(n) => signed_decimal_text(n),
        None => match right.get("set") {
            Some(set) => match set.as_array() {
                Some(items) => {
                    let ps = set_ports_text(items);
                    if ps.len() > 0 {
                        join_strings(ps.as_slice(), ",")
                    } else {
                        port.clone()
                    }
                },
                None => port.clone(),
            },
            None => port.clone(),
        },
    }
}

fn apply_expr(acc: &mut ExprAcc, e: &JsonValue)
    ensures
        final(acc).state() == expr_step(old(acc).state(), *e),
{
    match e.get("counter") {
        Some(c) => {
            acc.packets = i64_field_or_zero(c, "packets");
            acc.bytes = i64_field_or_zero(c, "bytes");
        },
        None => {},
    }
    if e.get("accept").is_some() {
        acc.action = owned("ACCEPT");
    } else if e.get("drop").is_some() {
        acc.action = owned("DROP");
    } else if e.get("reject").is_some() {
        acc.action = owned("REJECT");
    }
    let m = match e.get("match") {
        Some(m) => m,
        None => return,
    };
    let left = match m.get("left") {
        Some(l) => l,
        None => return,
    };
    let pl = match left.get("payload") {
        Some(p) => p,
        None => return,
    };
    proof {
        reveal_strlit("");
        assert(""@ =~= seq![]);
    }
    let pr = pl.str_field_or("protocol", "any");
    let field = pl.str_field_or("field", "");
    if str_eq(pr, "tcp") {
        acc.protocol = owned("TCP");
    } else if str_eq(pr, "udp") {
        acc.protocol = owned("UDP");
    }
    let is_port_field = str_eq(field, "dport") || str_eq(field, "sport");
    if is_port_field {
        match m.get("right") {
            Some(right) => {
                let np = port_from_right(right, &acc.port);
                acc.port = np;
            },
            None => {},
        }
    }
    let is_protocol_field = match pl.get("field") {
        Some(f) => match f.as_str() {
            Some(t) => str_eq(t, "protocol"),
            None => false,
        },
        None => false,
    };
    if is_protocol_field {
        match m.get("right") {
            Some(right) => {
                let icmp = match right.as_str() {
                    Some(t) => str_eq(t, "icmp"),
                    None => false,
                };
                if icmp {
                    acc.protocol = owned("ICMP");
                }
            },
            None => {},
        }
    }
}

/// `s` without the copies of `p` at its start.
fn trim_start_matches_text(s: &str, p: &str) -> (r: String)
    ensures
        r@ == trim_start_matches(s@, p@),
{
    let cs = chars_of(s);
    let pc = chars_of(p);
    let mut i: usize = 0;
    assert(cs@.skip(0) =~= cs@);
    if pc.len() == 0 {
        return owned(s);
    }
    while matches_at(cs.as_slice(), pc.as_slice(), i)
        invariant
            i <= cs@.len(),
            pc@.len() > 0,
            pc@ == p@,
            cs@ == s@,
            trim_start_matches(s@, p@) == trim_start_matches(cs@.skip(i as int), p@),
        decreases cs.len() - i,
    {
        assert(cs@.skip(i as int).take(pc@.len() as int) =~= cs@.subrange(i as int, i + pc@.len()));
        assert(cs@.skip(i as int).skip(pc@.len() as int) =~= cs@.skip(i + pc@.len()));
        i = i + pc.len();
    }
    assert(!starts_with(cs@.skip(i as int), pc@)) by {
        if starts_with(cs@.skip(i as int), pc@) {
            assert(cs@.skip(i as int).take(pc@.len() as int) =~= cs@.subrange(i as int, i + pc@.len()));
        }
    }
    let rest = slice_chars(cs.as_slice(), i, cs.len());
    assert(rest@ =~= cs@.skip(i as int));
    string_of(rest.as_slice())
}

/// The rule that a `rule` object of `nft -j` describes (see `rule_of`).
pub fn rule_from_json(rule: &JsonValue) -> (r: LiveNftRulePayload)
    ensures
        rule_facts(r) == rule_of(*rule),
{
    let chain_raw = rule.str_field_or("chain", "INPUT");
    let chain = to_uppercase_text(chain_raw);
    let handle = i64_field_or_zero(rule, "handle");
    let comment = match rule.get("comment") {
        Some(c) => c.as_str(),
        None => None,
    };
    let rule_id = match comment {
        Some(c) => trim_start_matches_text(c, "aegis:"),
        None => {
            let mut id = owned("rule_");
            let lower = to_lowercase_text(chain.as_str());
            push_str(&mut id, lower.as_str());
            push_str(&mut id, "_");
            push_str(&mut id, signed_decimal_text(handle).as_str());
            id
        },
    };
    let mut acc = ExprAcc {
        packets: 0,
        bytes: 0,
        action: owned("ACCEPT"),
        protocol: owned("ANY"),
        port: owned("any"),
    };
    let ghost init = acc.state();
    match rule.get("expr") {
        Some(ex) => match ex.as_array() {
            Some(items) => {
                let mut i: usize = 0;
                assert(items@.take(0) =~= seq![]);
                while i < items.len()
                    invariant
                        i <= items@.len(),
                        acc.state() == exprs_after(init, items@.take(i as int)),
                    decreases items.len() - i,
                {
                    assert(items@.take(i + 1).drop_last() =~= items@.take(i as int));
                    assert(items@.take(i + 1).last() == items@[i as int]);
                    apply_expr(&mut acc, &items[i]);
                    i = i + 1;
                }
                assert(items@.take(items@.len() as int) =~= items@);
            },
            None => {},
        },
        None => {},
    }
    let protocol = if str_eq(acc.protocol.as_str(), "ANY") {
        if contains_str(rule_id.as_str(), "icmp") {
            owned("ICMP")
        } else if contains_str(rule_id.as_str(), "ssh") || contains_str(rule_id.as_str(), "http") {
            owned("TCP")
        } else {
            owned("ANY")
        }
    } else {
        acc.protocol
    };
    LiveNftRulePayload {
        chain,
        rule_id,
        protocol,
        src_cidr: owned("0.0.0.0/0"),
        dst_cidr: owned("any"),
        port_spec: acc.port,
        action: acc.action,
        packets: acc.packets,
        bytes: acc.bytes,
    }
}

/// The rules of the JSON listing of the managed table (`nft -j list table inet
/// aegis_filter`).
pub fn rules_from_listing(text: &str) -> (r: Vec<LiveNftRulePayload>)
    ensures
        r@.map_values(|x: LiveNftRulePayload| rule_facts(x)) == listed_rules(text@),
{
    let doc = parse_json(text);
    let mut r: Vec<LiveNftRulePayload> = Vec::new();
    let doc = match doc {
        Some(d) => d,
        None => {
            assert(r@.map_values(|x: LiveNftRulePayload| rule_facts(x)) =~= listed_rules(text@));
            return r;
        },
    };
    let items = match doc.get("nftables") {
        Some(v) => match v.as_array() {
            Some(items) => items,
            None => {
                assert(r@.map_values(|x: LiveNftRulePayload| rule_facts(x)) =~= listed_rules(text@));
                return r;
            },
        },
        None => {
            assert(r@.map_values(|x: LiveNftRulePayload| rule_facts(x)) =~= listed_rules(text@));
            return r;
        },
    };
    let mut i: usize = 0;
    assert(items@.take(0) =~= seq![]);
    while i < items.len()
        invariant
            i <= items@.len(),
            r@.map_values(|x: LiveNftRulePayload| rule_facts(x)) == rules_in(items@.take(i as int)).map_values(
                |x: JsonValue| rule_of(x),
            ),
        decreases items.len() - i,
    {
        assert(items@.take(i + 1).drop_last() =~= items@.take(i as int));
        assert(items@.take(i + 1).last() == items@[i as int]);
        let ghost before = rules_in(items@.take(i as int));
        match items[i].get("rule") {
            Some(rule) => {
                let p = rule_from_json(rule);
                let ghost old_map = r@.map_values(|x: LiveNftRulePayload| rule_facts(x));
                let ghost pf = rule_facts(p);
                r.push(p);
                assert(r@.map_values(|x: LiveNftRulePayload| rule_facts(x)) =~= old_map.push(pf));
                assert(before.push(*rule).map_values(|x: JsonValue| rule_of(x)) =~= before.map_values(
                    |x: JsonValue| rule_of(x),
                ).push(rule_of(*rule)));
                assert(rules_in(items@.take(i + 1)) == before.push(*rule));
                assert(r@.map_values(|x: LiveNftRulePayload| rule_facts(x)) =~= before.push(*rule).map_values(
                    |x: JsonValue| rule_of(x),
                ));
            },
            None => {},
        }
        i = i + 1;
    }
    assert(items@.take(items@.len() as int) =~= items@);
    r
}

/// The live rules of node `node_id` from the JSON listing of the managed table (`None`
/// when the listing command failed: no rules).
pub fn collect_live_nftables_rules(node_id: u128, listing: Option<&str>) -> (r: AgentFirewallSyncPayload)
    ensures
        r.node_id == node_id,
        r.rules@.map_values(|x: LiveNftRulePayload| rule_facts(x)) == match listing {
            Some(t) => listed_rules(t@),
            None => seq![],
        },
{
    let rules = match listing {
        Some(t) => rules_from_listing(t),
        None => {
            let v: Vec<LiveNftRulePayload> = Vec::new();
            assert(v@.map_values(|x: LiveNftRulePayload| rule_facts(x)) =~= seq![]);
            v
        },
    };
    AgentFirewallSyncPayload { node_id, rules }
}


// ───────────────────────── setting up the managed table ─────────────────────────

/// The managed table must be set up unless listing it (`nft -j list table inet
/// aegis_filter`, `None` when the command could not run) succeeded and shows a rule.
pub fn kernel_setup_needed(listing: Option<&ProcessOutput>) -> (r: bool)
    ensures
        r == match listing {
            Some(o) => !(o.status_code == 0 && contains_seq(o.stdout@, "\"rule\""@)),
            None => true,
        },
{
    match listing {
        Some(o) => !(o.is_success() && contains_str(o.stdout.as_str(), "\"rule\"")),
        None => true,
    }
}

/// The `nft` commands (run through `sudo`) that set up the managed table: the table, its
/// input, output and forward chains accepting by default, and counting rules for SSH,
/// web, ICMP, output and Docker traffic.
pub open spec fn setup_commands() -> Seq<Seq<Seq<char>>> {
    seq![
        seq!["nft"@, "add"@, "table"@, "inet"@, "aegis_filter"@],
        seq!["nft"@, "add"@, "chain"@, "inet"@, "aegis_filter"@, "input"@,
            "{ type filter hook input priority 0; policy accept; }"@],
        seq!["nft"@, "add"@, "chain"@, "inet"@, "aegis_filter"@, "output"@,
            "{ type filter hook output priority 0; policy accept; }"@],
        seq!["nft"@, "add"@, "chain"@, "inet"@, "aegis_filter"@, "forward"@,
            "{ type filter hook forward priority 0; policy accept; }"@],
        seq!["nft"@, "add"@, "rule"@, "inet"@, "aegis_filter"@, "input"@, "tcp"@, "dport"@, "22"@,
            "counter"@, "accept"@, "comment"@, "\"aegis:rule_input_ssh\""@],
        seq!["nft"@, "add"@, "rule"@, "inet"@, "aegis_filter"@, "input"@, "tcp"@, "dport"@,
            "{ 80, 443, 8080 }"@, "counter"@, "accept"@, "comment"@, "\"aegis:rule_input_http_https\""@],
        seq!["nft"@, "add"@, "rule"@, "inet"@, "aegis_filter"@, "input"@, "ip"@, "protocol"@,
            "icmp"@, "counter"@, "accept"@, "comment"@, "\"aegis:rule_input_icmp\""@],
        seq!["nft"@, "add"@, "rule"@, "inet"@, "aegis_filter"@, "output"@, "counter"@, "accept"@,
            "comment"@, "\"aegis:rule_output_all\""@],
        seq!["nft"@, "add"@, "rule"@, "inet"@, "aegis_filter"@, "forward"@, "ip"@, "saddr"@,
            "172.17.0.0/16"@, "counter"@, "accept"@, "comment"@, "\"aegis:rule_forward_docker\""@],
    ]
}

fn words_of(ws: &[&str]) -> (r: Vec<String>)
    ensures
        r@.len() == ws@.len(),
        forall|i: int| 0 <= i < ws@.len() ==> (#[trigger] r@[i])@ == ws@[i]@,
{
    let mut r: Vec<String> = Vec::new();
    let mut i: usize = 0;
    while i < ws.len()
        invariant
            i <= ws@.len(),
            r@.len() == i,
            forall|k: int| 0 <= k < i ==> (#[trigger] r@[k])@ == ws@[k]@,
        decreases ws.len() - i,
    {
        r.push(owned(ws[i]));
        i = i + 1;
    }
    r
}

/// The arguments of the set-up commands, in order.
pub fn kernel_setup_commands() -> (r: Vec<Vec<String>>)
    ensures
        r@.len() == setup_commands().len(),
        forall|i: int| 0 <= i < r@.len() ==> views((#[trigger] r@[i])@) == setup_commands()[i],
{
    let lists: [&[&str]; 9] = [
        &["nft", "add", "table", "inet", "aegis_filter"],
        &["nft", "add", "chain", "inet", "aegis_filter", "input",
            "{ type filter hook input priority 0; policy accept; }"],
        &["nft", "add", "chain", "inet", "aegis_filter", "output",
            "{ type filter hook output priority 0; policy accept; }"],
        &["nft", "add", "chain", "inet", "aegis_filter", "forward",
            "{ type filter hook forward priority 0; policy accept; }"],
        &["nft", "add", "rule", "inet", "aegis_filter", "input", "tcp", "dport", "22", "counter",
            "accept", "comment", "\"aegis:rule_input_ssh\""],
        &["nft", "add", "rule", "inet", "aegis_filter", "input", "tcp", "dport", "{ 80, 443, 8080 }",
            "counter", "accept", "comment", "\"aegis:rule_input_http_https\""],
        &["nft", "add", "rule", "inet", "aegis_filter", "input", "ip", "protocol", "icmp", "counter",
            "accept", "comment", "\"aegis:rule_input_icmp\""],
        &["nft", "add", "rule", "inet", "aegis_filter", "output", "counter", "accept", "comment",
            "\"aegis:rule_output_all\""],
        &["nft", "add", "rule", "inet", "aegis_filter", "forward", "ip", "saddr", "172.17.0.0/16",
            "counter", "accept", "comment", "\"aegis:rule_forward_docker\""],
    ];
    let mut r: Vec<Vec<String>> = Vec::new();
    let mut i: usize = 0;
    while i < 9
        invariant
            i <= 9,
            r@.len() == i,
            lists@.len() == 9,
            forall|k: int| 0 <= k < 9 ==> (#[trigger] lists@[k])@.map_values(|w: &str| w@) == setup_commands()[k],
            forall|k: int| 0 <= k < i ==> views((#[trigger] r@[k])@) == setup_commands()[k],
        decreases 9 - i,
    {
        let w = words_of(lists[i]);
        assert(views(w@) =~= lists@[i as int]@.map_values(|w: &str| w@));
        r.push(w);
        i = i + 1;
    }
    r
}

} // verus!
