//! Nodes of the fleet: containers, inventory, network profiles and systemd services.
use vstd::prelude::*;
use std::collections::HashMap;
use crate::identity::new_uuid;
use crate::models::firewall::{CidrSpec, TransportProtocol};
use crate::text::owned;

verus! {

// ───────────────────────── containers ─────────────────────────

/// A container found on the host.
#[derive(Debug, Clone, PartialEq, Eq)]
pub struct DockerContainer {
    pub id: String,
    pub name: String,
    pub image: String,
    pub state: String,
    /// CPU share reported by `docker stats`.
    pub cpu_perc: Option<String>,
    /// Memory use (usage / limit) reported by `docker stats`.
    pub mem_usage: Option<String>,
    pub networks: Vec<String>,
    pub published_ports: Vec<PublishedPort>,
    pub labels: HashMap<String, String>,
}

/// A container network.
#[derive(Debug, Clone, PartialEq, Eq)]
pub struct DockerNetwork {
    pub id: String,
    pub name: String,
    pub driver: String,
    pub subnet: Option<String>,
}

/// A container port published on the host.
#[derive(Debug, Clone, PartialEq, Eq)]
pub struct PublishedPort {
    pub host_ip: String,
    pub host_port: u16,
    pub container_port: u16,
    pub protocol: TransportProtocol,
}

/// How far a container is exposed beyond the host.
#[derive(Debug, Clone, PartialEq, Eq)]
pub enum ContainerExposure {
    Private,
    PublicUnrestricted,
    PublicRestricted(Vec<CidrSpec>),
}

/// Exposure policy read from a container's labels.
#[derive(Debug, Clone, PartialEq, Eq)]
pub struct ContainerLabelPolicy {
    pub exposure: ContainerExposure,
    pub allowed_cidrs: Vec<CidrSpec>,
}

// ───────────────────────── inventory ─────────────────────────

/// Hardware and operating system of a node.
#[derive(Debug, Clone, PartialEq, Eq, Default)]
pub struct SystemInventory {
    pub hostname: String,
    pub os_name: String,
    pub os_version: String,
    pub kernel_version: String,
    pub cpu_cores: u32,
    pub total_memory_mb: u64,
    pub free_memory_mb: u64,
    pub uptime_seconds: u64,
    pub machine_id: String,
    pub agent_version: String,
}

/// One network interface of a node.
#[derive(Debug, Clone, PartialEq, Eq, Default)]
pub struct NetworkInterfaceInfo {
    pub name: String,
    pub mac_address: String,
    pub permanent_mac: String,
    pub mtu: u32,
    pub operstate: String,
    pub ipv4_addresses: Vec<String>,
    pub ipv6_addresses: Vec<String>,
    pub rx_bytes: u64,
    pub tx_bytes: u64,
    pub gateway: Option<String>,
}

/// Firewall, container and service state of a node.
#[derive(Debug, Clone, PartialEq, Eq, Default)]
pub struct RuntimeInventory {
    pub firewall_hash: String,
    pub rule_count: u32,
    pub active_blocks_count: u32,
    pub docker_containers_count: u32,
    pub systemd_services_running: u32,
    pub backend_name: String,
}

/// Everything a node reports about itself to the controller.
#[derive(Debug, Clone, PartialEq, Eq, Default)]
pub struct NodeInventoryPayload {
    pub system: SystemInventory,
    pub network_interfaces: Vec<NetworkInterfaceInfo>,
    pub runtime: RuntimeInventory,
}

// ───────────────────────── network profiles ─────────────────────────

/// Role of an interface in a network profile.
#[derive(Debug, Clone, Copy, PartialEq, Eq, Structural, Default)]
pub enum InterfaceRole {
    /// Public Internet.
    Wan,
    /// Internal network.
    Lan,
    /// Management channel to the controller.
    Management,
    /// Storage and replication traffic.
    Storage,
    /// No role assigned.
    #[default]
    Unspecified,
}

/// Addressing of an interface: DHCP or static addresses.
#[derive(Debug, Clone, PartialEq, Eq, Default)]
pub struct AddressConfig {
    pub dhcp: bool,
    pub ipv4_cidr: Option<String>,
    pub ipv6_cidr: Option<String>,
}

/// A static route.
#[derive(Debug, Clone, PartialEq, Eq, Default)]
pub struct RouteConfig {
    pub destination_cidr: String,
    pub gateway: String,
    pub metric: u32,
}

/// Name resolution settings.
#[derive(Debug, Clone, PartialEq, Eq, Default)]
pub struct DnsConfig {
    pub nameservers: Vec<String>,
    pub search_domains: Vec<String>,
}

/// Settings of one interface.
#[derive(Debug, Clone, PartialEq, Eq, Default)]
pub struct InterfaceProfile {
    pub name: String,
    pub role: InterfaceRole,
    pub address: AddressConfig,
    pub routes: Vec<RouteConfig>,
    pub mtu: u32,
}

/// Network settings of a node.
#[derive(Debug, Clone, PartialEq, Eq)]
pub struct NetworkProfile {
    pub id: u128,
    pub name: String,
    pub description: String,
    pub interfaces: Vec<InterfaceProfile>,
    pub dns: DnsConfig,
}

impl Default for NetworkProfile {
    /// A fresh identifier, named `default_profile`, no interfaces and no DNS settings.
    fn default() -> (r: Self)
        ensures
            r.name@ == "default_profile"@,
            r.description@ == "Default Network Profile"@,
            r.interfaces@.len() == 0,
            r.dns.nameservers@.len() == 0,
            r.dns.search_domains@.len() == 0,
    {
        NetworkProfile {
            id: new_uuid(),
            name: owned("default_profile"),
            description: owned("Default Network Profile"),
            interfaces: Vec::new(),
            dns: DnsConfig { nameservers: Vec::new(), search_domains: Vec::new() },
        }
    }
}

// ───────────────────────── systemd ─────────────────────────

/// Operations on a systemd unit.
#[derive(Debug, Clone, Copy, PartialEq, Eq, Structural)]
pub enum ServiceOperation {
    Start,
    Stop,
    Restart,
    Reload,
    Enable,
    Disable,
}

/// State of a systemd unit.
#[derive(Debug, Clone, PartialEq, Eq, Default)]
pub struct ServiceUnitStatus {
    pub name: String,
    pub load_state: String,
    pub active_state: String,
    pub sub_state: String,
    pub description: String,
}

/// A request to operate on a unit.
#[derive(Debug, Clone, PartialEq, Eq)]
pub struct ServiceOpRequest {
    pub unit_name: String,
    pub operation: ServiceOperation,
    pub reason: Option<String>,
}

/// The outcome of an operation on a unit.
#[derive(Debug, Clone, PartialEq, Eq)]
pub struct ServiceOpResult {
    pub success: bool,
    pub unit_name: String,
    pub operation: ServiceOperation,
    pub message: String,
    pub execution_time_ms: u64,
}

/// One journal record.
#[derive(Debug, Clone, PartialEq, Eq, Default)]
pub struct JournalLogEntry {
    pub timestamp: String,
    pub priority: String,
    pub unit: String,
    pub message: String,
}

} // verus!
