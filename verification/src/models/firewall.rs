//! Firewall policies: rules, actions, protocols, port and address specifications.
use vstd::prelude::*;
use std::collections::HashMap;
use crate::errors::{AegisError, PolicyId, RuleId, Timestamp};
use crate::net::IpValue;
use crate::text::{
    chars_of, concat3, decimal, decimal_text, is_digit, lemma_decimal_reads_back, lemma_parse_digits,
    lemma_parse_non_digit, lemma_split_two, lemma_trim_digits, owned, parse_unsigned, push_str,
    parse_unsigned_chars, split_char, split_on, str_eq, string_of, trim, trim_chars,
};

verus! {

/// The only API version of firewall policies that is supported.
pub const SUPPORTED_API_VERSION: &'static str = "aegisnode.io/v1";

/// The only kind of firewall document that is supported.
pub const SUPPORTED_FIREWALL_KIND: &'static str = "FirewallPolicy";

/// A firewall policy as loaded from a YAML or JSON document.
#[derive(Debug, Clone, PartialEq, Eq)]
pub struct FirewallPolicy {
    pub api_version: String,
    pub kind: String,
    pub metadata: PolicyMetadata,
    pub defaults: FirewallDefaults,
    pub rules: Vec<FirewallRule>,
}

impl FirewallPolicy {
    /// Accepts only the supported API version and kind, checked in that order.
    pub fn validate_schema_version(&self) -> (r: Result<(), AegisError>)
        ensures
            r is Ok <==> (self.api_version@ == SUPPORTED_API_VERSION@ && self.kind@
                == SUPPORTED_FIREWALL_KIND@),
            r matches Err(e) ==> e is Validation,
    {
        if !str_eq(self.api_version.as_str(), SUPPORTED_API_VERSION) {
            let m = concat3("Unsupported apiVersion: '", self.api_version.as_str(), "'. Expected: 'aegisnode.io/v1'");
            return Err(AegisError::Validation(m));
        }
        if !str_eq(self.kind.as_str(), SUPPORTED_FIREWALL_KIND) {
            let m = concat3("Unsupported kind: '", self.kind.as_str(), "'. Expected: 'FirewallPolicy'");
            return Err(AegisError::Validation(m));
        }
        Ok(())
    }
}

/// Name, identifier, version and labels of a policy.
#[derive(Debug, Clone, PartialEq, Eq)]
pub struct PolicyMetadata {
    pub name: String,
    pub id: PolicyId,
    pub version: u64,
    pub labels: HashMap<String, String>,
    pub created_at: Timestamp,
}

/// Default action of the input, output and forward chains.
#[derive(Debug, Clone, Copy, PartialEq, Eq, Structural)]
pub struct FirewallDefaults {
    pub input: FirewallAction,
    pub output: FirewallAction,
    pub forward: FirewallAction,
}

/// Direction in which a packet travels.
#[derive(Debug, Clone, Copy, PartialEq, Eq, Hash, Structural)]
pub enum FirewallDirection {
    Input,
    Output,
    Forward,
}

/// What happens to a packet that a rule matches.
#[derive(Debug, Clone, Copy, PartialEq, Eq, Hash, Structural)]
pub enum FirewallAction {
    Accept,
    Drop,
    Reject,
}

/// Transport protocol of a packet.
#[derive(Debug, Clone, Copy, PartialEq, Eq, Hash, Structural)]
pub enum TransportProtocol {
    Tcp,
    Udp,
    Icmp,
    Icmpv6,
}

/// Connection-tracking state of a packet.
#[derive(Debug, Clone, Copy, PartialEq, Eq, Hash, Structural)]
pub enum ConnectionState {
    New,
    Established,
    Related,
    Invalid,
}

/// Role of a network interface in a firewall rule.
#[derive(Debug, Clone, Copy, PartialEq, Eq, Hash, Structural)]
pub enum InterfaceRole {
    Wan,
    Lan,
    Management,
}

/// An interface chosen by its role or by its name.
#[derive(Debug, Clone, PartialEq, Eq, Hash)]
pub enum InterfaceSelector {
    Role(InterfaceRole),
    Name(String),
}

/// One filtering rule.
#[derive(Debug, Clone, PartialEq, Eq)]
pub struct FirewallRule {
    pub id: RuleId,
    pub direction: FirewallDirection,
    pub action: FirewallAction,
    pub protocol: Option<TransportProtocol>,
    pub connection_states: Vec<ConnectionState>,
    pub source_cidrs: Vec<CidrSpec>,
    pub destination_cidrs: Vec<CidrSpec>,
    pub source_ports: Vec<PortSpec>,
    pub destination_ports: Vec<PortSpec>,
    pub interfaces: Vec<InterfaceSelector>,
    pub rate_limit: Option<RateLimit>,
    pub log_options: Option<LogOptions>,
}

/// A single port (`80`) or an inclusive range of ports (`8000-8080`).
#[derive(Debug, Clone, Copy, PartialEq, Eq, Hash, Structural)]
pub enum PortSpec {
    Single(u16),
    Range(u16, u16),
}

/// A port specification is valid: no port 0, and a range does not run backwards.
pub open spec fn port_spec_valid(p: PortSpec) -> bool {
    match p {
        PortSpec::Single(n) => n != 0,
        PortSpec::Range(a, b) => a != 0 && b != 0 && a <= b,
    }
}

/// A port number in `1..=65535`.
pub open spec fn port_number(n: nat) -> bool {
    1 <= n <= 65535
}

/// The port specification that a text denotes in a policy document: a port number, or two
/// port numbers (each possibly padded with whitespace) joined by `-` with the first not
/// above the second; numbers are read as `u32`.
pub open spec fn port_of_text(s: Seq<char>) -> Option<PortSpec> {
    match parse_unsigned(s, u32::MAX as nat) {
        Some(p) => if port_number(p) {
            Some(PortSpec::Single(p as u16))
        } else {
            None
        },
        None => {
            let parts = split_on(s, '-');
            if parts.len() == 2 {
                match (
                    parse_unsigned(trim(parts[0]), u32::MAX as nat),
                    parse_unsigned(trim(parts[1]), u32::MAX as nat),
                ) {
                    (Some(a), Some(b)) => if port_number(a) && port_number(b) && a <= b {
                        Some(PortSpec::Range(a as u16, b as u16))
                    } else {
                        None
                    },
                    _ => None,
                }
            } else {
                None
            }
        },
    }
}

/// The message for a port number outside `1..=65535`.
pub open spec fn port_out_of_range_message(p: nat) -> Seq<char> {
    "Port number "@ + decimal(p) + " out of range 1..65535"@
}

/// The message for a port number outside `1..=65535`.
fn port_out_of_range_text(p: u32) -> (r: String)
    ensures
        r@ == port_out_of_range_message(p as nat),
{
    concat3("Port number ", decimal_text(p as u64).as_str(), " out of range 1..65535")
}

impl PortSpec {
    /// Checks that every port lies in `1..=65535` and that a range does not run backwards.
    pub fn validate(&self) -> (r: Result<(), AegisError>)
        ensures
            r is Ok <==> port_spec_valid(*self),
            r matches Err(e) ==> e is Validation,
    {
        match *self {
            PortSpec::Single(p) => {
                if p == 0 {
                    return Err(
                        AegisError::Validation(
                            owned("Port 0 is invalid. Port must be between 1 and 65535"),
                        ),
                    );
                }
            },
            PortSpec::Range(start, end) => {
                if start == 0 || end == 0 {
                    return Err(
                        AegisError::Validation(
                            owned("Port 0 is invalid. Port must be between 1 and 65535"),
                        ),
                    );
                }
                if start > end {
                    let mut m = owned("Invalid port range: ");
                    push_str(&mut m, decimal_text(start as u64).as_str());
                    push_str(&mut m, "-");
                    push_str(&mut m, decimal_text(end as u64).as_str());
                    push_str(&mut m, ". Start port must be <= end port");
                    return Err(AegisError::Validation(m));
                }
            },
        }
        Ok(())
    }

    /// The port that a number in a policy document denotes.
    pub fn from_number(p: u32) -> (r: Result<PortSpec, AegisError>)
        ensures
            r is Ok <==> port_number(p as nat),
            r matches Ok(s) ==> s == PortSpec::Single(p as u16),
            r matches Err(e) ==> e is Validation,
            r matches Err(AegisError::Validation(m)) ==> m@ == port_out_of_range_message(p as nat),
    {
        if !(1 <= p && p <= 65535) {
            return Err(AegisError::Validation(port_out_of_range_text(p)));
        }
        Ok(PortSpec::Single(p as u16))
    }

    /// The port specification that a text in a policy document denotes.
    pub fn from_text(s: &str) -> (r: Result<PortSpec, AegisError>)
        ensures
            match r {
                Ok(p) => port_of_text(s@) == Some(p),
                Err(e) => port_of_text(s@) is None && e is Validation,
            },
    {
        let cs = chars_of(s);
        match parse_unsigned_chars(cs.as_slice(), 0xffff_ffff) {
            Some(p) => {
                if !(1 <= p && p <= 65535) {
                    return Err(AegisError::Validation(port_out_of_range_text(p as u32)));
                }
                return Ok(PortSpec::Single(p as u16));
            },
            None => {},
        }
        let parts = split_char(cs.as_slice(), '-');
        if parts.len() == 2 {
            let a = trim_chars(parts[0].as_slice());
            let b = trim_chars(parts[1].as_slice());
            let start = parse_unsigned_chars(a.as_slice(), 0xffff_ffff);
            let end = parse_unsigned_chars(b.as_slice(), 0xffff_ffff);
            match (start, end) {
                (Some(x), Some(y)) => {
                    if !(1 <= x && x <= 65535) || !(1 <= y && y <= 65535) {
                        return Err(
                            AegisError::Validation(owned("Port in range out of range 1..65535")),
                        );
                    }
                    if x > y {
                        let mut m = owned("Invalid range start ");
                        push_str(&mut m, decimal_text(x as u64).as_str());
                        push_str(&mut m, " > end ");
                        push_str(&mut m, decimal_text(y as u64).as_str());
                        return Err(AegisError::Validation(m));
                    }
                    return Ok(PortSpec::Range(x as u16, y as u16));
                },
                _ => {
                    return Err(AegisError::Validation(owned("Invalid port number in range")));
                },
            }
        }
        Err(AegisError::Validation(concat3("Invalid port spec: '", s, "'")))
    }
}

/// An address range in CIDR notation (`192.168.1.0/24`, `10.0.0.1/32`, `2001:db8::/32`).
#[derive(Debug, Clone, PartialEq, Eq, Hash)]
pub struct CidrSpec(pub String);

/// The address text and the prefix text of a CIDR string: the trimmed string split at `/`
/// into exactly two pieces.
pub open spec fn cidr_parts(s: Seq<char>) -> Option<(Seq<char>, Seq<char>)> {
    let parts = split_on(trim(s), '/');
    if parts.len() == 2 {
        Some((parts[0], parts[1]))
    } else {
        None
    }
}

/// A CIDR string is valid given what its address text reads as: it has two pieces, the
/// address reads as an address, the prefix reads as a `u8` and fits the address family.
pub open spec fn cidr_valid(s: Seq<char>, ip: Option<IpValue>) -> bool {
    match cidr_parts(s) {
        None => false,
        Some((_, prefix)) => match (ip, parse_unsigned(prefix, 255)) {
            (Some(IpValue::V4(_)), Some(n)) => n <= 32,
            (Some(IpValue::V6(_)), Some(n)) => n <= 128,
            _ => false,
        },
    }
}

impl CidrSpec {
    /// The address text and the prefix text of the specification.
    pub fn parts(&self) -> (r: Result<(String, String), AegisError>)
        ensures
            match r {
                Ok((a, p)) => cidr_parts(self.0@) == Some((a@, p@)),
                Err(e) => cidr_parts(self.0@) is None && e is Validation,
            },
    {
        let cs = chars_of(self.0.as_str());
        let t = trim_chars(cs.as_slice());
        let parts = split_char(t.as_slice(), '/');
        if parts.len() != 2 {
            return Err(
                AegisError::Validation(
                    concat3("Invalid CIDR string: '", self.0.as_str(), "'. Must be in IP/prefix format"),
                ),
            );
        }
        let a = string_of(parts[0].as_slice());
        let p = string_of(parts[1].as_slice());
        Ok((a, p))
    }

    /// Checks the specification, given what its address text reads as (`ip`, `None` when it
    /// is no IP address): two pieces, an address, and a prefix that fits its family.
    ///
    /// The address is not read here: `ip` is taken on trust as the reading of the address
    /// part (the standard library's `IpAddr` parse, done by the caller), and nothing checks
    /// that the two agree.
    pub fn validate_with_ip(&self, ip: Option<IpValue>) -> (r: Result<(), AegisError>)
        ensures
            r is Ok <==> cidr_valid(self.0@, ip),
            r matches Err(e) ==> e is Validation,
    {
        let (addr, prefix_text) = match self.parts() {
            Ok(p) => p,
            Err(e) => return Err(e),
        };
        let v = match ip {
            Some(v) => v,
            None => {
                return Err(
                    AegisError::Validation(
                        concat3("Invalid IP address in CIDR: '", addr.as_str(), "'"),
                    ),
                );
            },
        };
        let pc = chars_of(prefix_text.as_str());
        let prefix = match parse_unsigned_chars(pc.as_slice(), 255) {
            Some(n) => n,
            None => {
                return Err(
                    AegisError::Validation(
                        concat3("Invalid CIDR prefix length: '", prefix_text.as_str(), "'"),
                    ),
                );
            },
        };
        match v {
            IpValue::V4(_) => {
                if prefix > 32 {
                    let t = decimal_text(prefix as u64);
                    return Err(
                        AegisError::Validation(
                            concat3("IPv4 CIDR prefix /", t.as_str(), " out of range (0..32)"),
                        ),
                    );
                }
            },
            IpValue::V6(_) => {
                if prefix > 128 {
                    let t = decimal_text(prefix as u64);
                    return Err(
                        AegisError::Validation(
                            concat3("IPv6 CIDR prefix /", t.as_str(), " out of range (0..128)"),
                        ),
                    );
                }
            },
        }
        Ok(())
    }
}

/// A packet rate limit.
#[derive(Debug, Clone, Copy, PartialEq, Eq, Structural)]
pub struct RateLimit {
    pub packets_per_second: u32,
    pub burst: u32,
}

/// Logging of the packets that a rule matches.
#[derive(Debug, Clone, PartialEq, Eq)]
pub struct LogOptions {
    pub enabled: bool,
    pub prefix: String,
    pub level: String,
    pub rate_limit: Option<RateLimit>,
}

/// The log level used when a policy names none: `info`.
pub fn default_log_level() -> (r: String)
    ensures
        r@ == "info"@,
{
    owned("info")
}


/// How a port specification is written in a policy document: a single port as its number,
/// a range as its two numbers joined by `-`.
pub open spec fn port_text(p: PortSpec) -> Seq<char> {
    match p {
        PortSpec::Single(n) => decimal(n as nat),
        PortSpec::Range(a, b) => decimal(a as nat) + "-"@ + decimal(b as nat),
    }
}

/// Every port specification read from a policy document is valid.
pub proof fn law_read_ports_are_valid(s: Seq<char>)
    ensures
        port_of_text(s) matches Some(p) ==> port_spec_valid(p),
{
}

/// A valid port specification, written as in a policy document, reads back as itself.
pub proof fn law_port_text_round_trip(p: PortSpec)
    requires
        port_spec_valid(p),
    ensures
        port_of_text(port_text(p)) == Some(p),
{
    match p {
        PortSpec::Single(n) => {
            lemma_decimal_reads_back(n as nat);
            lemma_parse_digits(decimal(n as nat), u32::MAX as nat);
        },
        PortSpec::Range(a, b) => {
            let da = decimal(a as nat);
            let db = decimal(b as nat);
            lemma_decimal_reads_back(a as nat);
            lemma_decimal_reads_back(b as nat);
            reveal_strlit("-");
            assert("-"@ =~= seq!['-']);
            let t = da + seq!['-'] + db;
            assert(t == port_text(p));
            assert(t[da.len() as int] == '-');
            lemma_parse_non_digit(t, da.len() as int, u32::MAX as nat);
            assert forall|i: int| 0 <= i < da.len() implies da[i] != '-' by {
                assert(is_digit(da[i]));
            }
            assert forall|i: int| 0 <= i < db.len() implies db[i] != '-' by {
                assert(is_digit(db[i]));
            }
            lemma_split_two(da, '-', db);
            lemma_trim_digits(da);
            lemma_trim_digits(db);
            lemma_parse_digits(da, u32::MAX as nat);
            lemma_parse_digits(db, u32::MAX as nat);
        },
    }
}

} // verus!
