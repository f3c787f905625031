//! IP addresses and networks: reading networks (through `ipnet`), loopback and containment.
use vstd::prelude::*;

verus! {

/// An IP address as its numeric value.
#[derive(Debug, Clone, Copy, PartialEq, Eq, Structural)]
pub enum IpValue {
    V4(u32),
    V6(u128),
}

/// An IP network: an address and a prefix length.
#[derive(Debug, Clone, Copy, PartialEq, Eq, Structural)]
pub enum NetValue {
    V4 { addr: u32, prefix: u8 },
    V6 { addr: u128, prefix: u8 },
}

/// The network that `ipnet::IpNet::from_str` reads from a text, if it reads one.
pub uninterp spec fn parsed_net(s: Seq<char>) -> Option<NetValue>;

/// A network's prefix length lies in its family's range.
pub open spec fn net_wf(n: NetValue) -> bool {
    match n {
        NetValue::V4 { prefix, .. } => prefix <= 32,
        NetValue::V6 { prefix, .. } => prefix <= 128,
    }
}

/// Whether `ip` lies in network `n`: same family, and the same leading `prefix` bits as the
/// network's address (what `ipnet::IpNet::contains` decides); a network with prefix length 0
/// holds every address of its family.
pub open spec fn net_contains(n: NetValue, ip: IpValue) -> bool {
    match (n, ip) {
        (NetValue::V4 { addr, prefix }, IpValue::V4(a)) => (addr as u64) >> (32 - prefix) as u64
            == (a as u64) >> (32 - prefix) as u64,
        (NetValue::V6 { addr, prefix }, IpValue::V6(a)) => prefix == 0 || addr >> (128
            - prefix) as u128 == a >> (128 - prefix) as u128,
        _ => false,
    }
}

/// Whether `ip` is a loopback address: `127.0.0.0/8` or `::1` (what
/// `std::net::IpAddr::is_loopback` decides).
pub open spec fn loopback(ip: IpValue) -> bool {
    match ip {
        IpValue::V4(a) => a >> 24u32 == 127,
        IpValue::V6(a) => a == 1,
    }
}

/// Reads an IP network in `address/prefix` form (`ipnet::IpNet::from_str`); `None` where it
/// reports an error. The parser only accepts prefix lengths of the address's family.
#[verifier::external_body]
pub(crate) fn parse_net(s: &str) -> (r: Option<NetValue>)
    ensures
        r == parsed_net(s@),
        r matches Some(n) ==> net_wf(n),
{
    match s.parse::<ipnet::IpNet>() {
        Ok(ipnet::IpNet::V4(n)) => Some(NetValue::V4 { addr: u32::from(n.addr()), prefix: n.prefix_len() }),
        Ok(ipnet::IpNet::V6(n)) => Some(NetValue::V6 { addr: u128::from(n.addr()), prefix: n.prefix_len() }),
        Err(_) => None,
    }
}

/// Whether `ip` is a loopback address.
pub fn is_loopback(ip: IpValue) -> (r: bool)
    ensures
        r == loopback(ip),
{
    match ip {
        IpValue::V4(a) => a >> 24u32 == 127,
        IpValue::V6(a) => a == 1,
    }
}

/// Whether network `n` contains address `ip`.
pub fn contains_ip(n: NetValue, ip: IpValue) -> (r: bool)
    requires
        net_wf(n),
    ensures
        r == net_contains(n, ip),
{
    match (n, ip) {
        (NetValue::V4 { addr, prefix }, IpValue::V4(a)) => {
            let k: u64 = (32 - prefix) as u64;
            (addr as u64) >> k == (a as u64) >> k
        },
        (NetValue::V6 { addr, prefix }, IpValue::V6(a)) => {
            if prefix == 0 {
                true
            } else {
                let k: u128 = (128 - prefix) as u128;
                addr >> k == a >> k
            }
        },
        _ => false,
    }
}

} // verus!
