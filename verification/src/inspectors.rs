//! Container inventory and public-exposure analysis from the output of `docker ps` and
//! `docker stats`, and the router-mode settings of the kernel.
use vstd::prelude::*;
use std::collections::HashMap;
use crate::digest::{utf8, utf8_char};
use crate::json::{json_get, json_str, parse_json, parsed_json, str_field_or, JsonValue};
use crate::models::fleet::{ContainerLabelPolicy, DockerContainer, PublishedPort};
use crate::models::firewall::TransportProtocol;
use crate::text::{
    chars_of, contains_chars, contains_seq, decimal, decimal_text, lines, lines_chars, owned,
    parse_unsigned, parse_unsigned_chars, pieces_are, push_str, rsplit_once, rsplit_once_char,
    slice_chars, split_char, split_on, split_once, split_once_chars, str_eq, string_of, trim,
    trim_chars, lowercase_of, to_lowercase_text,
};

verus! {

/// A container port published on every address of the host.
#[derive(Debug, Clone, PartialEq, Eq)]
pub struct ExposureWarning {
    pub container_id: String,
    pub container_name: String,
    pub published_port: PublishedPort,
    pub is_database: bool,
    pub warning_message: String,
}

/// Containers of the host and the ports they expose publicly.
#[derive(Debug, Clone, PartialEq, Eq)]
pub struct DockerExposureReport {
    pub docker_available: bool,
    pub containers: Vec<DockerContainer>,
    pub public_exposures: Vec<ExposureWarning>,
    pub label_policies: Vec<ContainerLabelPolicy>,
}

// ───────────────────────── specifications ─────────────────────────

/// Host address, host port, container port and protocol of a published port.
pub type PortFacts = (Seq<char>, nat, nat, TransportProtocol);

/// The facts of a published port.
pub open spec fn port_facts(p: PublishedPort) -> PortFacts {
    (p.host_ip@, p.host_port as nat, p.container_port as nat, p.protocol)
}

/// The port that one entry of the `Ports` column (`0.0.0.0:80->80/tcp`) publishes on the
/// host: the entry maps a host address and port (the address is `0.0.0.0` when none is
/// written) to a container port and protocol (`tcp` when none is written; `udp` in any
/// case is UDP, anything else TCP). A port that does not read as a `u16` counts as 0, and
/// an entry whose host port is 0 publishes nothing.
pub open spec fn published_facts(entry: Seq<char>) -> Option<PortFacts> {
    let e = trim(entry);
    match split_once(e, "->"@) {
        None => None,
        Some((host_part, container_part)) => {
            let hip = trim(host_part);
            let ip = match rsplit_once(hip, ':') {
                Some((a, _)) => a,
                None => "0.0.0.0"@,
            };
            let port_text = match rsplit_once(hip, ':') {
                Some((_, b)) => b,
                None => hip,
            };
            let ct = trim(container_part);
            let cport_text = match split_once(ct, "/"@) {
                Some((a, _)) => a,
                None => ct,
            };
            let proto = match split_once(ct, "/"@) {
                Some((_, b)) => b,
                None => "tcp"@,
            };
            let h = match parse_unsigned(port_text, 65535) {
                Some(n) => n,
                None => 0,
            };
            let c = match parse_unsigned(cport_text, 65535) {
                Some(n) => n,
                None => 0,
            };
            if h > 0 {
                Some(
                    (
                        ip,
                        h,
                        c,
                        if lowercase_of(proto) == "udp"@ {
                            TransportProtocol::Udp
                        } else {
                            TransportProtocol::Tcp
                        },
                    ),
                )
            } else {
                None
            }
        },
    }
}

/// The ports that the entries publish, in order.
pub open spec fn published_list(entries: Seq<Seq<char>>) -> Seq<PortFacts>
    decreases entries.len(),
{
    if entries.len() == 0 {
        seq![]
    } else {
        let rest = published_list(entries.drop_last());
        match published_facts(entries.last()) {
            Some(f) => rest.push(f),
            None => rest,
        }
    }
}

/// An address that reaches every interface of the host.
pub open spec fn public_ip(ip: Seq<char>) -> bool {
    ip == "0.0.0.0"@ || ip == "::"@
}

/// A host port of a well-known database server (PostgreSQL, MySQL, Redis, MongoDB,
/// Elasticsearch, SQL Server).
pub open spec fn is_database_port(h: nat) -> bool {
    h == 5432 || h == 3306 || h == 6379 || h == 27017 || h == 9200 || h == 1433
}

/// The text of an exposure warning.
pub open spec fn exposure_message(db: bool, image: Seq<char>, name: Seq<char>, h: nat) -> Seq<
    char,
> {
    if db {
        "Cơ sở dữ liệu "@ + image + " (Port "@ + decimal(h) + ") phơi nhiễm công khai ra ngoài 0.0.0.0 WAN!"@
    } else {
        "Cổng "@ + decimal(h) + " của container "@ + name + " đang phơi nhiễm công khai trên 0.0.0.0 WAN."@
    }
}

/// Container id, container name, port, database flag and message of a warning.
pub type WarningFacts = (Seq<char>, Seq<char>, PortFacts, bool, Seq<char>);

/// The facts of a warning.
pub open spec fn warning_facts(w: ExposureWarning) -> WarningFacts {
    (
        w.container_id@,
        w.container_name@,
        port_facts(w.published_port),
        w.is_database,
        w.warning_message@,
    )
}

/// The warnings for the ports of a container that are published on every address.
pub open spec fn warnings_for(
    id: Seq<char>,
    name: Seq<char>,
    image: Seq<char>,
    ports: Seq<PortFacts>,
) -> Seq<WarningFacts>
    decreases ports.len(),
{
    if ports.len() == 0 {
        seq![]
    } else {
        let rest = warnings_for(id, name, image, ports.drop_last());
        let p = ports.last();
        if public_ip(p.0) {
            let db = is_database_port(p.1);
            rest.push((id, name, p, db, exposure_message(db, image, name, p.1)))
        } else {
            rest
        }
    }
}

/// Each exposure warning of a container is for one of its ports published on every address
/// (`0.0.0.0` or `::`), and it flags a database exactly when the host port is that of
/// PostgreSQL (5432), MySQL (3306), Redis (6379), MongoDB (27017), Elasticsearch (9200) or SQL
/// Server (1433); a database warning names the image, any other names the container.
pub proof fn law_exposure_warnings(
    id: Seq<char>,
    name: Seq<char>,
    image: Seq<char>,
    ports: Seq<PortFacts>,
    k: int,
)
    requires
        0 <= k < warnings_for(id, name, image, ports).len(),
    ensures
        ({
            let w = warnings_for(id, name, image, ports)[k];
            let h = w.2.1;
            let db = h == 5432 || h == 3306 || h == 6379 || h == 27017 || h == 9200 || h == 1433;
            &&& ports.contains(w.2)
            &&& (w.2.0 == "0.0.0.0"@ || w.2.0 == "::"@)
            &&& w.0 == id
            &&& w.1 == name
            &&& w.3 == db
            &&& w.4 == if db {
                "Cơ sở dữ liệu "@ + image + " (Port "@ + decimal(h)
                    + ") phơi nhiễm công khai ra ngoài 0.0.0.0 WAN!"@
            } else {
                "Cổng "@ + decimal(h) + " của container "@ + name
                    + " đang phơi nhiễm công khai trên 0.0.0.0 WAN."@
            }
        }),
    decreases ports.len(),
{
    let rest = warnings_for(id, name, image, ports.drop_last());
    let p = ports.last();
    if public_ip(p.0) && k == rest.len() {
        assert(ports[ports.len() - 1] == p);
    } else {
        law_exposure_warnings(id, name, image, ports.drop_last(), k);
        let w = rest[k];
        let j = choose|j: int| 0 <= j < ports.drop_last().len() && ports.drop_last()[j] == w.2;
        assert(ports[j] == w.2);
    }
}

/// The ports that a line of `docker ps` publishes.
pub open spec fn ports_of(j: JsonValue) -> Seq<PortFacts> {
    published_list(split_on(str_field_or(j, "Ports"@, seq![]), ','))
}

/// The warnings of a line of `docker ps`.
pub open spec fn warnings_of(j: JsonValue) -> Seq<WarningFacts> {
    warnings_for(
        str_field_or(j, "ID"@, "unknown"@),
        str_field_or(j, "Names"@, "unnamed"@),
        str_field_or(j, "Image"@, "unknown"@),
        ports_of(j),
    )
}

/// `c` is the container that a line of `docker ps` describes, before its usage is known.
pub open spec fn container_of(c: DockerContainer, j: JsonValue) -> bool {
    &&& c.id@ == str_field_or(j, "ID"@, "unknown"@)
    &&& c.name@ == str_field_or(j, "Names"@, "unnamed"@)
    &&& c.image@ == str_field_or(j, "Image"@, "unknown"@)
    &&& c.state@ == str_field_or(j, "State"@, "running"@)
    &&& c.cpu_perc is None
    &&& c.mem_usage is None
    &&& c.networks@.len() == 1
    &&& c.networks@[0]@ == str_field_or(j, "Networks"@, "bridge"@)
    &&& c.published_ports@.map_values(|p: PublishedPort| port_facts(p)) == ports_of(j)
    &&& c.labels@ == Map::<String, String>::empty()
}

/// The JSON documents of the non-blank lines of some output that read as JSON.
pub open spec fn json_lines(ls: Seq<Seq<char>>) -> Seq<JsonValue>
    decreases ls.len(),
{
    if ls.len() == 0 {
        seq![]
    } else {
        let rest = json_lines(ls.drop_last());
        let t = trim(ls.last());
        if t.len() > 0 {
            match parsed_json(t) {
                Some(j) => rest.push(j),
                None => rest,
            }
        } else {
            rest
        }
    }
}

/// The warnings of all lines, in order.
pub open spec fn all_warnings(js: Seq<JsonValue>) -> Seq<WarningFacts>
    decreases js.len(),
{
    if js.len() == 0 {
        seq![]
    } else {
        all_warnings(js.drop_last()) + warnings_of(js.last())
    }
}

// ───────────────────────── implementation ─────────────────────────

fn copy_port(p: &PublishedPort) -> (r: PublishedPort)
    ensures
        r == *p,
{
    PublishedPort {
        host_ip: p.host_ip.clone(),
        host_port: p.host_port,
        container_port: p.container_port,
        protocol: p.protocol,
    }
}

/// The port that one entry of the `Ports` column publishes.
fn parse_published_port(entry: &[char]) -> (r: Option<PublishedPort>)
    ensures
        match r {
            Some(p) => published_facts(entry@) == Some(port_facts(p)),
            None => published_facts(entry@) is None,
        },
{
    let e = trim_chars(entry);
    let arrow = chars_of("->");
    let (host_part, container_part) = match split_once_chars(e.as_slice(), arrow.as_slice()) {
        Some(pair) => pair,
        None => return None,
    };
    let hip = trim_chars(host_part.as_slice());
    let (ip, port_text) = match rsplit_once_char(hip.as_slice(), ':') {
        Some((a, b)) => (a, b),
        None => (chars_of("0.0.0.0"), hip),
    };
    let ct = trim_chars(container_part.as_slice());
    let slash = chars_of("/");
    let (cport_text, proto) = match split_once_chars(ct.as_slice(), slash.as_slice()) {
        Some((a, b)) => (a, b),
        None => (ct, chars_of("tcp")),
    };
    let h = match parse_unsigned_chars(port_text.as_slice(), 65535) {
        Some(n) => n,
        None => 0,
    };
    let c = match parse_unsigned_chars(cport_text.as_slice(), 65535) {
        Some(n) => n,
        None => 0,
    };
    if h == 0 {
        return None;
    }
    let proto_text = string_of(proto.as_slice());
    let lower = to_lowercase_text(proto_text.as_str());
    let protocol = if str_eq(lower.as_str(), "udp") {
        TransportProtocol::Udp
    } else {
        TransportProtocol::Tcp
    };
    Some(
        PublishedPort {
            host_ip: string_of(ip.as_slice()),
            host_port: h as u16,
            container_port: c as u16,
            protocol,
        },
    )
}

/// The warning text for a port.
fn exposure_text(db: bool, image: &str, name: &str, h: u16) -> (r: String)
    ensures
        r@ == exposure_message(db, image@, name@, h as nat),
{
    let hp = decimal_text(h as u64);
    if db {
        let mut m = owned("Cơ sở dữ liệu ");
        push_str(&mut m, image);
        push_str(&mut m, " (Port ");
        push_str(&mut m, hp.as_str());
        push_str(&mut m, ") phơi nhiễm công khai ra ngoài 0.0.0.0 WAN!");
        m
    } else {
        let mut m = owned("Cổng ");
        push_str(&mut m, hp.as_str());
        push_str(&mut m, " của container ");
        push_str(&mut m, name);
        push_str(&mut m, " đang phơi nhiễm công khai trên 0.0.0.0 WAN.");
        m
    }
}

/// The container described by one line of `docker ps`, and the warnings for the ports it
/// publishes on every address.
pub fn container_from_json(j: &JsonValue) -> (r: (DockerContainer, Vec<ExposureWarning>))
    ensures
        container_of(r.0, *j),
        r.1@.map_values(|w: ExposureWarning| warning_facts(w)) == warnings_of(*j),
{
    let id = j.str_field_or("ID", "unknown");
    let name = j.str_field_or("Names", "unnamed");
    let image = j.str_field_or("Image", "unknown");
    let state = j.str_field_or("State", "running");
    let ports_raw = j.str_field_or("Ports", "");
    let networks_raw = j.str_field_or("Networks", "bridge");
    proof {
        reveal_strlit("");
    }
    assert(ports_raw@ == str_field_or(*j, "Ports"@, seq![]));
    let raw = chars_of(ports_raw);
    let entries = split_char(raw.as_slice(), ',');
    let ghost specs = split_on(ports_raw@, ',');
    let mut ports: Vec<PublishedPort> = Vec::new();
    let mut warnings: Vec<ExposureWarning> = Vec::new();
    let mut i: usize = 0;
    assert(specs.take(0) =~= seq![]);
    while i < entries.len()
        invariant
            pieces_are(entries@, specs),
            i <= entries@.len(),
            ports@.map_values(|p: PublishedPort| port_facts(p)) == published_list(
                specs.take(i as int),
            ),
            warnings@.map_values(|w: ExposureWarning| warning_facts(w)) == warnings_for(
                id@,
                name@,
                image@,
                published_list(specs.take(i as int)),
            ),
        decreases entries.len() - i,
    {
        assert(specs.take(i + 1).drop_last() =~= specs.take(i as int));
        assert(entries@[i as int]@ == specs[i as int]);
        let ghost before_p = ports@.map_values(|p: PublishedPort| port_facts(p));
        let ghost before_w = warnings@.map_values(|w: ExposureWarning| warning_facts(w));
        let ghost prev_list = published_list(specs.take(i as int));
        match parse_published_port(entries[i].as_slice()) {
            Some(pp) => {
                assert(published_list(specs.take(i + 1)) == prev_list.push(port_facts(pp)));
                assert(prev_list.push(port_facts(pp)).drop_last() =~= prev_list);
                let public = str_eq(pp.host_ip.as_str(), "0.0.0.0") || str_eq(
                    pp.host_ip.as_str(),
                    "::",
                );
                if public {
                    let h = pp.host_port;
                    let db = h == 5432 || h == 3306 || h == 6379 || h == 27017 || h == 9200 || h
                        == 1433;
                    let msg = exposure_text(db, image, name, h);
                    warnings.push(
                        ExposureWarning {
                            container_id: owned(id),
                            container_name: owned(name),
                            published_port: copy_port(&pp),
                            is_database: db,
                            warning_message: msg,
                        },
                    );
                    assert(warnings@.map_values(|w: ExposureWarning| warning_facts(w))
                        =~= before_w.push(warning_facts(warnings@.last())));
                }
                ports.push(pp);
                assert(ports@.map_values(|p: PublishedPort| port_facts(p)) =~= before_p.push(
                    port_facts(ports@.last()),
                ));
            },
            None => {},
        }
        i = i + 1;
    }
    assert(specs.take(specs.len() as int) =~= specs);
    let mut networks: Vec<String> = Vec::new();
    networks.push(owned(networks_raw));
    let c = DockerContainer {
        id: owned(id),
        name: owned(name),
        image: owned(image),
        state: owned(state),
        cpu_perc: None,
        mem_usage: None,
        networks,
        published_ports: ports,
        labels: HashMap::new(),
    };
    (c, warnings)
}


/// The containers and warnings of the output of `docker ps --format '{{json .}}'`: one
/// container per non-blank line that reads as JSON, in order.
pub fn parse_ps_output(stdout: &str) -> (r: (Vec<DockerContainer>, Vec<ExposureWarning>))
    ensures
        r.0@.len() == json_lines(lines(stdout@)).len(),
        forall|i: int|
            0 <= i < r.0@.len() ==> container_of(#[trigger] r.0@[i], json_lines(lines(stdout@))[i]),
        r.1@.map_values(|w: ExposureWarning| warning_facts(w)) == all_warnings(
            json_lines(lines(stdout@)),
        ),
{
    let cs = chars_of(stdout);
    let ls = lines_chars(cs.as_slice());
    let ghost specs = lines(stdout@);
    let mut containers: Vec<DockerContainer> = Vec::new();
    let mut warnings: Vec<ExposureWarning> = Vec::new();
    let mut i: usize = 0;
    assert(specs.take(0) =~= seq![]);
    while i < ls.len()
        invariant
            pieces_are(ls@, specs),
            i <= ls@.len(),
            containers@.len() == json_lines(specs.take(i as int)).len(),
            forall|k: int|
                0 <= k < containers@.len() ==> container_of(
                    #[trigger] containers@[k],
                    json_lines(specs.take(i as int))[k],
                ),
            warnings@.map_values(|w: ExposureWarning| warning_facts(w)) == all_warnings(
                json_lines(specs.take(i as int)),
            ),
        decreases ls.len() - i,
    {
        assert(specs.take(i + 1).drop_last() =~= specs.take(i as int));
        assert(ls@[i as int]@ == specs[i as int]);
        let ghost prev = json_lines(specs.take(i as int));
        let t = trim_chars(ls[i].as_slice());
        if t.len() > 0 {
            let line = string_of(t.as_slice());
            match parse_json(line.as_str()) {
                Some(j) => {
                    let (c, ws) = container_from_json(&j);
                    assert(json_lines(specs.take(i + 1)) == prev.push(j));
                    assert(prev.push(j).drop_last() =~= prev);
                    let ghost before_w = warnings@.map_values(|w: ExposureWarning| warning_facts(w));
                    let ghost ws_facts = ws@.map_values(|w: ExposureWarning| warning_facts(w));
                    containers.push(c);
                    let mut ws = ws;
                    let ghost ws0 = ws@;
                    warnings.append(&mut ws);
                    assert(warnings@.map_values(|w: ExposureWarning| warning_facts(w)) =~= before_w
                        + ws_facts);
                },
                None => {},
            }
        }
        i = i + 1;
    }
    assert(specs.take(specs.len() as int) =~= specs);
    (containers, warnings)
}

/// The identifier that a line of `docker stats` gives: its `ID` member (its `Container`
/// member when it has none), when that is a string; empty otherwise.
pub open spec fn stats_id(j: JsonValue) -> Seq<char> {
    let v = match json_get(j, "ID"@) {
        Some(x) => Some(x),
        None => json_get(j, "Container"@),
    };
    match json_str(v) {
        Some(s) => s,
        None => seq![],
    }
}

/// CPU share and memory use (`usage / limit (share)`) that a line of `docker stats` gives.
pub open spec fn stats_usage(j: JsonValue) -> (Seq<char>, Seq<char>) {
    (
        str_field_or(j, "CPUPerc"@, "0.00%"@),
        str_field_or(j, "MemUsage"@, "0B / 0B"@) + " ("@ + str_field_or(j, "MemPerc"@, "0.00%"@)
            + ")"@,
    )
}

/// The usage recorded under each key (a container's identifier, then its name), in the
/// order of the lines; a key recorded again replaces what it had.
pub open spec fn stats_entries(js: Seq<JsonValue>) -> Seq<(Seq<char>, (Seq<char>, Seq<char>))>
    decreases js.len(),
{
    if js.len() == 0 {
        seq![]
    } else {
        let j = js.last();
        let rest = stats_entries(js.drop_last());
        let with_id = if stats_id(j).len() > 0 {
            rest.push((stats_id(j), stats_usage(j)))
        } else {
            rest
        };
        let name = str_field_or(j, "Name"@, seq![]);
        if name.len() > 0 {
            with_id.push((name, stats_usage(j)))
        } else {
            with_id
        }
    }
}

/// The usage last recorded under `key`.
pub open spec fn stats_lookup(es: Seq<(Seq<char>, (Seq<char>, Seq<char>))>, key: Seq<char>) -> Option<
    (Seq<char>, Seq<char>),
>
    decreases es.len(),
{
    if es.len() == 0 {
        None
    } else if es.last().0 == key {
        Some(es.last().1)
    } else {
        stats_lookup(es.drop_last(), key)
    }
}

/// The characters at the start of `s` whose UTF-8 encoding fits in `budget` bytes.
pub open spec fn byte_prefix(s: Seq<char>, budget: int) -> Seq<char>
    decreases s.len(),
{
    if s.len() == 0 {
        s
    } else if utf8_char(s[0]).len() <= budget {
        seq![s[0]] + byte_prefix(s.drop_first(), budget - utf8_char(s[0]).len())
    } else {
        seq![]
    }
}

/// The short form of a container identifier: its first 12 bytes (all of it when it is
/// shorter). Where byte 12 falls inside a character, which no Docker identifier does, it is
/// the characters that fit in those 12 bytes.
pub open spec fn short_id(id: Seq<char>) -> Seq<char> {
    byte_prefix(id, 12)
}

proof fn lemma_utf8_concat(a: Seq<char>, b: Seq<char>)
    ensures
        utf8(a + b) == utf8(a) + utf8(b),
    decreases b.len(),
{
    if b.len() == 0 {
        assert(a + b =~= a);
        assert(utf8(a) + utf8(b) =~= utf8(a));
    } else {
        lemma_utf8_concat(a, b.drop_last());
        assert((a + b).drop_last() =~= a + b.drop_last());
        assert((a + b).last() == b.last());
        assert(utf8(a) + utf8(b) =~= utf8(a) + utf8(b.drop_last()) + utf8_char(b.last()));
    }
}

proof fn lemma_utf8_one(c: char)
    ensures
        utf8(seq![c]) == utf8_char(c),
{
    let one = seq![c];
    assert(one.len() == 1);
    assert(one.last() == c);
    assert(one.drop_last() =~= Seq::<char>::empty());
    assert(utf8(one.drop_last()) == Seq::<u8>::empty());
    assert(utf8(one) == utf8(one.drop_last()) + utf8_char(one.last()));
    assert(Seq::<u8>::empty() + utf8_char(c) =~= utf8_char(c));
}

proof fn lemma_byte_prefix_at(s: Seq<char>, k: int)
    requires
        0 <= k <= s.len(),
    ensures
        byte_prefix(s, utf8(s.take(k)).len() as int) == s.take(k),
    decreases s.len(),
{
    let b = utf8(s.take(k)).len() as int;
    if k == 0 {
        assert(s.take(0) =~= seq![]);
        if s.len() > 0 {
            assert(utf8_char(s[0]).len() >= 1);
        }
    } else {
        let rest = s.drop_first();
        assert(s.take(k) =~= seq![s[0]] + rest.take(k - 1));
        lemma_utf8_concat(seq![s[0]], rest.take(k - 1));
        lemma_utf8_one(s[0]);
        lemma_byte_prefix_at(rest, k - 1);
    }
}

proof fn lemma_byte_prefix_all(s: Seq<char>, budget: int)
    requires
        utf8(s).len() <= budget,
    ensures
        byte_prefix(s, budget) == s,
    decreases s.len(),
{
    if s.len() > 0 {
        let rest = s.drop_first();
        assert(s =~= seq![s[0]] + rest);
        lemma_utf8_concat(seq![s[0]], rest);
        lemma_utf8_one(s[0]);
        lemma_byte_prefix_all(rest, budget - utf8_char(s[0]).len());
    }
}

/// The short identifier is the first 12 bytes of the identifier: the whole identifier when
/// it has fewer, and otherwise the characters whose UTF-8 encoding makes up those 12 bytes
/// (when byte 12 ends a character).
pub proof fn law_short_id_is_first_bytes(id: Seq<char>, k: int)
    requires
        0 <= k <= id.len(),
    ensures
        utf8(id).len() <= 12 ==> short_id(id) == id,
        utf8(id.take(k)).len() == 12 ==> short_id(id) == id.take(k) && utf8(short_id(id))
            == utf8(id).take(12),
{
    if utf8(id).len() <= 12 {
        lemma_byte_prefix_all(id, 12);
    }
    if utf8(id.take(k)).len() == 12 {
        lemma_byte_prefix_at(id, k);
        assert(id =~= id.take(k) + id.skip(k));
        lemma_utf8_concat(id.take(k), id.skip(k));
        assert(utf8(id).take(12) =~= utf8(id.take(k)));
    }
}

/// The number of bytes of a character in UTF-8.
fn utf8_width(c: char) -> (r: usize)
    ensures
        r == utf8_char(c).len(),
{
    let v = c as u32;
    if v < 0x80 {
        1
    } else if v < 0x800 {
        2
    } else if v < 0x10000 {
        3
    } else {
        4
    }
}

/// The short form of a container identifier (see `short_id`).
fn short_id_chars(id: &[char]) -> (r: Vec<char>)
    ensures
        r@ == short_id(id@),
{
    let mut budget: usize = 12;
    let mut i: usize = 0;
    assert(id@.take(0) + id@.skip(0) =~= id@);
    while i < id.len() && utf8_width(id[i]) <= budget
        invariant
            i <= id@.len(),
            budget <= 12,
            short_id(id@) == id@.take(i as int) + byte_prefix(id@.skip(i as int), budget as int),
        decreases id.len() - i,
    {
        let w = utf8_width(id[i]);
        proof {
            let rest = id@.skip(i as int);
            assert(rest[0] == id@[i as int]);
            assert(rest.drop_first() =~= id@.skip(i + 1));
            assert(id@.take(i as int) + seq![id@[i as int]] =~= id@.take(i + 1));
            assert(id@.take(i as int) + (seq![id@[i as int]] + byte_prefix(id@.skip(i + 1), budget - w))
                =~= id@.take(i + 1) + byte_prefix(id@.skip(i + 1), budget - w));
        }
        budget = budget - w;
        i = i + 1;
    }
    proof {
        if i < id.len() {
            assert(id@.skip(i as int)[0] == id@[i as int]);
        } else {
            assert(id@.skip(i as int) =~= seq![]);
        }
        assert(short_id(id@) =~= id@.take(i as int));
    }
    slice_chars(id, 0, i)
}

/// The usage of a container: found by its identifier, else its name, else its short
/// identifier.
pub open spec fn usage_of(es: Seq<(Seq<char>, (Seq<char>, Seq<char>))>, c: DockerContainer) -> Option<
    (Seq<char>, Seq<char>),
> {
    match stats_lookup(es, c.id@) {
        Some(u) => Some(u),
        None => match stats_lookup(es, c.name@) {
            Some(u) => Some(u),
            None => stats_lookup(es, short_id(c.id@)),
        },
    }
}

/// `new` is `old` with its CPU share and memory use set from the usage found for it, or
/// to zero usage.
pub open spec fn with_usage(
    new: DockerContainer,
    old: DockerContainer,
    es: Seq<(Seq<char>, (Seq<char>, Seq<char>))>,
) -> bool {
    let (cpu, mem) = match usage_of(es, old) {
        Some(u) => u,
        None => ("0.00%"@, "0.00 B / 0.00 B (0.00%)"@),
    };
    &&& new == DockerContainer { cpu_perc: new.cpu_perc, mem_usage: new.mem_usage, ..old }
    &&& new.cpu_perc matches Some(x) && x@ == cpu
    &&& new.mem_usage matches Some(x) && x@ == mem
}

/// The usage recorded by the output of `docker stats --no-stream --format '{{json .}}'`.
fn stats_table(stdout: &str) -> (r: Vec<(String, String, String)>)
    ensures
        r@.map_values(|e: (String, String, String)| (e.0@, (e.1@, e.2@))) == stats_entries(
            json_lines(lines(stdout@)),
        ),
{
    let cs = chars_of(stdout);
    let ls = lines_chars(cs.as_slice());
    let ghost specs = lines(stdout@);
    let mut r: Vec<(String, String, String)> = Vec::new();
    let mut i: usize = 0;
    assert(specs.take(0) =~= seq![]);
    while i < ls.len()
        invariant
            pieces_are(ls@, specs),
            i <= ls@.len(),
            r@.map_values(|e: (String, String, String)| (e.0@, (e.1@, e.2@))) == stats_entries(
                json_lines(specs.take(i as int)),
            ),
        decreases ls.len() - i,
    {
        assert(specs.take(i + 1).drop_last() =~= specs.take(i as int));
        assert(ls@[i as int]@ == specs[i as int]);
        let ghost prev = json_lines(specs.take(i as int));
        let t = trim_chars(ls[i].as_slice());
        if t.len() > 0 {
            let line = string_of(t.as_slice());
            match parse_json(line.as_str()) {
                Some(j) => {
                    assert(json_lines(specs.take(i + 1)) == prev.push(j));
                    assert(prev.push(j).drop_last() =~= prev);
                    let ghost before = r@.map_values(|e: (String, String, String)| (e.0@, (e.1@, e.2@)));
                    proof {
                        reveal_strlit("");
                    }
                    let idv = match j.get("ID") {
                        Some(x) => Some(x),
                        None => j.get("Container"),
                    };
                    let cid: &str = match idv {
                        Some(x) => match x.as_str() {
                            Some(s) => s,
                            None => "",
                        },
                        None => "",
                    };
                    assert(cid@ == stats_id(j));
                    let cname = j.str_field_or("Name", "");
                    let cpu = j.str_field_or("CPUPerc", "0.00%");
                    let mem_u = j.str_field_or("MemUsage", "0B / 0B");
                    let mem_p = j.str_field_or("MemPerc", "0.00%");
                    let mut mem = owned(mem_u);
                    push_str(&mut mem, " (");
                    push_str(&mut mem, mem_p);
                    push_str(&mut mem, ")");
                    assert((cpu@, mem@) == stats_usage(j));
                    if cid.unicode_len() > 0 {
                        r.push((owned(cid), owned(cpu), mem.clone()));
                    }
                    let ghost mid = r@.map_values(|e: (String, String, String)| (e.0@, (e.1@, e.2@)));
                    assert(mid =~= if stats_id(j).len() > 0 {
                        before.push((stats_id(j), stats_usage(j)))
                    } else {
                        before
                    });
                    if cname.unicode_len() > 0 {
                        r.push((owned(cname), owned(cpu), mem));
                    }
                    assert(r@.map_values(|e: (String, String, String)| (e.0@, (e.1@, e.2@))) =~= if cname@.len() > 0 {
                        mid.push((cname@, stats_usage(j)))
                    } else {
                        mid
                    });
                },
                None => {},
            }
        }
        i = i + 1;
    }
    assert(specs.take(specs.len() as int) =~= specs);
    r
}

/// The usage last recorded under `key`, as (CPU share, memory use).
fn lookup_usage(table: &Vec<(String, String, String)>, key: &str) -> (r: Option<(String, String)>)
    ensures
        match r {
            Some((a, b)) => stats_lookup(
                table@.map_values(|e: (String, String, String)| (e.0@, (e.1@, e.2@))),
                key@,
            ) == Some((a@, b@)),
            None => stats_lookup(
                table@.map_values(|e: (String, String, String)| (e.0@, (e.1@, e.2@))),
                key@,
            ) is None,
        },
{
    let ghost es = table@.map_values(|e: (String, String, String)| (e.0@, (e.1@, e.2@)));
    let mut j: usize = table.len();
    assert(es.take(j as int) =~= es);
    while j > 0
        invariant
            j <= table@.len(),
            es == table@.map_values(|e: (String, String, String)| (e.0@, (e.1@, e.2@))),
            stats_lookup(es, key@) == stats_lookup(es.take(j as int), key@),
        decreases j,
    {
        if str_eq(table[j - 1].0.as_str(), key) {
            assert(es.take(j as int).last() == es[j - 1]);
            return Some((table[j - 1].1.clone(), table[j - 1].2.clone()));
        }
        assert(es.take(j as int).drop_last() =~= es.take(j - 1));
        j = j - 1;
    }
    None
}

/// The containers with the CPU share and memory use that `docker stats` printed for each
/// (found by identifier, name or short identifier), or zero usage.
pub fn merge_stats(containers: Vec<DockerContainer>, stats_stdout: &str) -> (r: Vec<DockerContainer>)
    ensures
        r@.len() == containers@.len(),
        forall|i: int|
            0 <= i < r@.len() ==> with_usage(
                #[trigger] r@[i],
                containers@[i],
                stats_entries(json_lines(lines(stats_stdout@))),
            ),
{
    let table = stats_table(stats_stdout);
    let ghost es = stats_entries(json_lines(lines(stats_stdout@)));
    let ghost orig = containers@;
    let mut rest = containers;
    let mut out: Vec<DockerContainer> = Vec::new();
    while rest.len() > 0
        invariant
            out@.len() + rest@.len() == orig.len(),
            rest@ == orig.skip(out@.len() as int),
            es == table@.map_values(|e: (String, String, String)| (e.0@, (e.1@, e.2@))),
            forall|k: int| 0 <= k < out@.len() ==> with_usage(#[trigger] out@[k], orig[k], es),
        decreases rest.len(),
    {
        let ghost k = out@.len() as int;
        let mut c = rest.remove(0);
        assert(c == orig[k]);
        let found = match lookup_usage(&table, c.id.as_str()) {
            Some(u) => Some(u),
            None => match lookup_usage(&table, c.name.as_str()) {
                Some(u) => Some(u),
                None => {
                    let idc = chars_of(c.id.as_str());
                    let short = short_id_chars(idc.as_slice());
                    let st = string_of(short.as_slice());
                    assert(st@ == short_id(c.id@));
                    lookup_usage(&table, st.as_str())
                },
            },
        };
        match found {
            Some((cpu, mem)) => {
                c.cpu_perc = Some(cpu);
                c.mem_usage = Some(mem);
            },
            None => {
                c.cpu_perc = Some(owned("0.00%"));
                c.mem_usage = Some(owned("0.00 B / 0.00 B (0.00%)"));
            },
        }
        out.push(c);
        assert(rest@ =~= orig.skip(out@.len() as int));
    }
    out
}

/// Analyses the host's containers: nothing when Docker is not running; otherwise the
/// containers and warnings of the `docker ps` output (if the command succeeded), with the
/// usage from the `docker stats` output (if there are containers and that command
/// succeeded).
pub fn exposure_report(
    docker_active: bool,
    ps_stdout: Option<&str>,
    stats_stdout: Option<&str>,
) -> (r: DockerExposureReport)
    ensures
        r.docker_available == docker_active,
        r.label_policies@.len() == 0,
        !docker_active ==> r.containers@.len() == 0 && r.public_exposures@.len() == 0,
        docker_active ==> match ps_stdout {
            None => r.containers@.len() == 0 && r.public_exposures@.len() == 0,
            Some(out) => {
                let js = json_lines(lines(out@));
                &&& r.containers@.len() == js.len()
                &&& r.public_exposures@.map_values(|w: ExposureWarning| warning_facts(w))
                    == all_warnings(js)
                &&& forall|i: int|
                    0 <= i < r.containers@.len() ==> match stats_stdout {
                        Some(st) => with_usage(
                            #[trigger] r.containers@[i],
                            DockerContainer {
                                cpu_perc: None,
                                mem_usage: None,
                                ..r.containers@[i]
                            },
                            stats_entries(json_lines(lines(st@))),
                        ) && container_of(
                            DockerContainer { cpu_perc: None, mem_usage: None, ..r.containers@[i] },
                            js[i],
                        ),
                        None => container_of(#[trigger] r.containers@[i], js[i]),
                    }
            },
        },
{
    if !docker_active {
        return DockerExposureReport {
            docker_available: false,
            containers: Vec::new(),
            public_exposures: Vec::new(),
            label_policies: Vec::new(),
        };
    }
    match ps_stdout {
        Some(out) => {
            let (cs, ws) = parse_ps_output(out);
            let ghost js = json_lines(lines(out@));
            let ghost orig = cs@;
            match stats_stdout {
                Some(st) => {
                    if cs.len() > 0 {
                        let merged = merge_stats(cs, st);
                        let ghost es = stats_entries(json_lines(lines(st@)));
                        let r = DockerExposureReport {
                            docker_available: true,
                            containers: merged,
                            public_exposures: ws,
                            label_policies: Vec::new(),
                        };
                        assert forall|i: int| 0 <= i < r.containers@.len() implies with_usage(
                            #[trigger] r.containers@[i],
                            DockerContainer { cpu_perc: None, mem_usage: None, ..r.containers@[i] },
                            es,
                        ) && container_of(
                            DockerContainer { cpu_perc: None, mem_usage: None, ..r.containers@[i] },
                            js[i],
                        ) by {
                            assert(container_of(orig[i], js[i]));
                            assert(with_usage(r.containers@[i], orig[i], es));
                            assert(DockerContainer { cpu_perc: None, mem_usage: None, ..r.containers@[i] } == orig[i]);
                        }
                        r
                    } else {
                        DockerExposureReport {
                            docker_available: true,
                            containers: cs,
                            public_exposures: ws,
                            label_policies: Vec::new(),
                        }
                    }
                },
                None => DockerExposureReport {
                    docker_available: true,
                    containers: cs,
                    public_exposures: ws,
                    label_policies: Vec::new(),
                },
            }
        },
        None => DockerExposureReport {
            docker_available: true,
            containers: Vec::new(),
            public_exposures: Vec::new(),
            label_policies: Vec::new(),
        },
    }
}


/// Inspector of the containers of the host, through the Docker socket or command line.
pub struct DockerInspector {
    socket_path: String,
}

impl DockerInspector {
    pub closed spec fn socket(&self) -> Seq<char> {
        self.socket_path@
    }

    /// An inspector that looks for the Docker daemon at `socket_path`.
    pub fn new(socket_path: &str) -> (r: Self)
        ensures
            r.socket() == socket_path@,
    {
        DockerInspector { socket_path: owned(socket_path) }
    }

    /// The inspector for the standard socket, `/var/run/docker.sock`.
    pub fn default_prod() -> (r: Self)
        ensures
            r.socket() == "/var/run/docker.sock"@,
    {
        Self::new("/var/run/docker.sock")
    }

    /// Where the Docker daemon is looked for.
    pub fn socket_path(&self) -> (r: &str)
        ensures
            r@ == self.socket(),
    {
        self.socket_path.as_str()
    }
}

/// The IP forwarding settings of the kernel before router mode was switched.
#[derive(Debug, Clone, PartialEq, Eq)]
pub struct SysctlSnapshot {
    pub old_ipv4_forward: String,
    pub old_ipv6_forward: String,
}

/// The value of a forwarding setting read from `/proc/sys`: the trimmed content, or `0` when
/// the file could not be read.
pub open spec fn sysctl_value(content: Option<Seq<char>>) -> Seq<char> {
    match content {
        Some(c) => trim(c),
        None => "0"@,
    }
}

/// Router mode: the kernel's IP forwarding settings.
pub struct RouterManager;

impl RouterManager {
    pub fn new() -> (r: Self) {
        RouterManager
    }

    /// The value a forwarding setting holds, from what its file read (`None` when it could
    /// not be read).
    pub fn sysctl_value(content: Option<&str>) -> (r: String)
        ensures
            r@ == sysctl_value(
                match content {
                    Some(c) => Some(c@),
                    None => None,
                },
            ),
    {
        match content {
            Some(c) => crate::text::trim_str(c),
            None => owned("0"),
        }
    }

    /// The snapshot of the two forwarding settings (IPv4, then IPv6) from what their files
    /// read.
    pub fn snapshot_from(v4: Option<&str>, v6: Option<&str>) -> (r: SysctlSnapshot)
        ensures
            r.old_ipv4_forward@ == sysctl_value(
                match v4 {
                    Some(c) => Some(c@),
                    None => None,
                },
            ),
            r.old_ipv6_forward@ == sysctl_value(
                match v6 {
                    Some(c) => Some(c@),
                    None => None,
                },
            ),
    {
        SysctlSnapshot { old_ipv4_forward: Self::sysctl_value(v4), old_ipv6_forward: Self::sysctl_value(v6) }
    }

    /// The value written to switch forwarding on (`1`) or off (`0`).
    pub fn forwarding_value(enable: bool) -> (r: &'static str)
        ensures
            r@ == if enable {
                "1"@
            } else {
                "0"@
            },
    {
        if enable {
            "1"
        } else {
            "0"
        }
    }
}

impl Default for RouterManager {
    fn default() -> (r: Self) {
        RouterManager
    }
}

} // verus!

