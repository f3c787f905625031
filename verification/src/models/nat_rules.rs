//! NAT policies: masquerade, source NAT, destination NAT and port forwarding.
use vstd::prelude::*;
use crate::errors::{PolicyId, RuleId, Timestamp};
use crate::models::firewall::{CidrSpec, PortSpec, TransportProtocol};

verus! {

/// A NAT policy.
#[derive(Debug, Clone, PartialEq, Eq)]
pub struct NatPolicy {
    pub api_version: String,
    pub kind: String,
    pub metadata: NatMetadata,
    pub masquerade_rules: Vec<MasqueradeRule>,
    pub snat_rules: Vec<SnatRule>,
    pub dnat_rules: Vec<DnatRule>,
    pub port_forward_rules: Vec<PortForwardRule>,
}

/// Name, identifier and creation time of a NAT policy.
#[derive(Debug, Clone, PartialEq, Eq)]
pub struct NatMetadata {
    pub name: String,
    pub id: PolicyId,
    pub created_at: Timestamp,
}

/// Hides the addresses of a network behind the changing address of an interface.
#[derive(Debug, Clone, PartialEq, Eq)]
pub struct MasqueradeRule {
    pub id: RuleId,
    pub out_interface: String,
    pub source_cidr: Option<CidrSpec>,
}

/// Rewrites source addresses to a fixed address.
#[derive(Debug, Clone, PartialEq, Eq)]
pub struct SnatRule {
    pub id: RuleId,
    pub out_interface: String,
    pub to_source: String,
    pub source_cidr: Option<CidrSpec>,
}

/// Redirects a destination address and port.
#[derive(Debug, Clone, PartialEq, Eq)]
pub struct DnatRule {
    pub id: RuleId,
    pub in_interface: String,
    pub protocol: TransportProtocol,
    pub external_port: PortSpec,
    pub to_destination: String,
    pub destination_port: Option<u16>,
}

/// Forwards a port to an internal machine or container.
#[derive(Debug, Clone, PartialEq, Eq)]
pub struct PortForwardRule {
    pub id: RuleId,
    pub in_interface: String,
    pub protocol: TransportProtocol,
    pub external_port: PortSpec,
    pub destination_address: String,
    pub destination_port: u16,
    pub source_cidr: Option<CidrSpec>,
}

} // verus!
