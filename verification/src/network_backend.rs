//! Which network manager runs on the node, with a read-only fallback.
use vstd::prelude::*;
use crate::text::owned;

verus! {

/// The network manager found on the node.
#[derive(Debug, Clone, Copy, PartialEq, Eq, Structural, Default)]
pub enum NetworkBackendType {
    /// NetworkManager (`nmcli`, D-Bus).
    NetworkManager,
    /// systemd-networkd (`/etc/systemd/network/*.network`).
    SystemdNetworkd,
    /// Nothing known: the network is only read, never changed.
    #[default]
    ReadOnly,
}

/// What the detector found.
#[derive(Debug, Clone)]
pub struct NetworkBackendReport {
    pub backend_type: NetworkBackendType,
    pub is_writable: bool,
    pub detected_unit: String,
}

/// Which of the marker files of the network managers exist on the node.
#[derive(Debug, Clone, Copy)]
pub struct NetworkMarkers {
    /// `/run/NetworkManager/NetworkManager.pid`.
    pub nm_pid: bool,
    /// `/usr/bin/nmcli`.
    pub nmcli: bool,
    /// `/run/systemd/netif/state`.
    pub networkd_state: bool,
    /// `/etc/systemd/network`.
    pub networkd_config: bool,
}

/// The manager that the marker files show: NetworkManager first, then systemd-networkd,
/// else read-only.
pub open spec fn backend_of(m: NetworkMarkers) -> NetworkBackendType {
    if m.nm_pid || m.nmcli {
        NetworkBackendType::NetworkManager
    } else if m.networkd_state || m.networkd_config {
        NetworkBackendType::SystemdNetworkd
    } else {
        NetworkBackendType::ReadOnly
    }
}

/// Detector of the network manager of the node.
#[derive(Debug, Clone, Default)]
pub struct NetworkBackendDetector;

impl NetworkBackendDetector {
    pub fn new() -> (r: Self) {
        NetworkBackendDetector
    }

    /// The report for the marker files found: the manager, whether the network may be
    /// changed (not in read-only mode) and the unit that runs the manager.
    pub fn detect(&self, markers: NetworkMarkers) -> (r: NetworkBackendReport)
        ensures
            r.backend_type == backend_of(markers),
            r.is_writable == (backend_of(markers) != NetworkBackendType::ReadOnly),
            r.detected_unit@ == match backend_of(markers) {
                NetworkBackendType::NetworkManager => "NetworkManager.service"@,
                NetworkBackendType::SystemdNetworkd => "systemd-networkd.service"@,
                NetworkBackendType::ReadOnly => "none (read-only mode)"@,
            },
    {
        if markers.nm_pid || markers.nmcli {
            return NetworkBackendReport {
                backend_type: NetworkBackendType::NetworkManager,
                is_writable: true,
                detected_unit: owned("NetworkManager.service"),
            };
        }
        if markers.networkd_state || markers.networkd_config {
            return NetworkBackendReport {
                backend_type: NetworkBackendType::SystemdNetworkd,
                is_writable: true,
                detected_unit: owned("systemd-networkd.service"),
            };
        }
        NetworkBackendReport {
            backend_type: NetworkBackendType::ReadOnly,
            is_writable: false,
            detected_unit: owned("none (read-only mode)"),
        }
    }
}

} // verus!
