//! Bonding, VRF and SYN-flood protection settings.
use vstd::prelude::*;

verus! {

/// Supported interface bonding modes.
#[derive(Debug, Clone, Copy, PartialEq, Eq, Structural)]
pub enum BondMode {
    /// Active-backup (mode 1): one slave carries traffic, the others stand by.
    ActiveBackup,
    /// IEEE 802.3ad link aggregation (mode 4).
    Lacp8023ad,
}

/// An interface bond.
#[derive(Debug, Clone)]
pub struct BondingProfile {
    /// Name of the bond interface (`bond0`).
    pub bond_name: String,
    pub mode: BondMode,
    /// Member interfaces.
    pub slaves: Vec<String>,
    /// MII link monitoring interval in milliseconds.
    pub miimon_ms: u32,
    /// Preferred slave in active-backup mode.
    pub primary_slave: Option<String>,
}

/// A virtual routing and forwarding domain.
#[derive(Debug, Clone)]
pub struct VrfProfile {
    /// Name of the VRF interface (`vrf-prod`).
    pub vrf_name: String,
    /// Routing table dedicated to the VRF.
    pub table_id: u32,
    /// Interfaces enslaved to the VRF.
    pub interfaces: Vec<String>,
}

/// SYN-flood protection settings.
#[derive(Debug, Clone, Copy, PartialEq, Eq, Structural)]
pub struct SynProxyConfig {
    /// Maximum segment size.
    pub mss: u16,
    /// Window scale factor.
    pub wscale: u8,
    /// SYN requests allowed per second.
    pub syn_rate_limit: u32,
}

} // verus!
