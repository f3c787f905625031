//! Access control (roles and permissions), block-list records and signed policy bundles.
use vstd::prelude::*;
use std::collections::HashMap;
use crate::errors::Timestamp;
use crate::models::firewall::{CidrSpec, FirewallPolicy};
use crate::models::fleet::NetworkProfile;
use crate::digest::{hex_of_bytes, hex_text, sha256, sha256_of, utf8, utf8_bytes};
use crate::text::{decimal, decimal_text, push_str};

verus! {

// ───────────────────────── roles and permissions ─────────────────────────

/// The roles of the access-control model.
#[derive(Debug, Clone, Copy, PartialEq, Eq, Hash, Structural)]
pub enum Role {
    /// Reads everything, changes nothing.
    Viewer,
    /// Runs day-to-day operations.
    Operator,
    /// Administers security.
    SecurityAdmin,
    /// Administers the platform and its infrastructure.
    PlatformAdmin,
    /// Follows and audits.
    Auditor,
}

/// The permissions of the access-control model.
#[derive(Debug, Clone, Copy, PartialEq, Eq, Hash, Structural)]
pub enum Permission {
    NodesRead,
    FirewallRead,
    FirewallWrite,
    FirewallApply,
    NetworkRead,
    NetworkWrite,
    ServiceRead,
    ServiceRestart,
    ChangePlanApprove,
    RolloutManage,
    AuditRead,
    AdminManage,
}

/// The permissions that each role holds by default, in this order.
pub open spec fn role_permissions(role: Role) -> Seq<Permission> {
    match role {
        Role::Viewer => seq![
            Permission::NodesRead,
            Permission::FirewallRead,
            Permission::NetworkRead,
            Permission::ServiceRead,
            Permission::AuditRead,
        ],
        Role::Operator => seq![
            Permission::NodesRead,
            Permission::FirewallRead,
            Permission::FirewallWrite,
            Permission::NetworkRead,
            Permission::NetworkWrite,
            Permission::ServiceRead,
            Permission::ServiceRestart,
            Permission::AuditRead,
        ],
        Role::SecurityAdmin => seq![
            Permission::NodesRead,
            Permission::FirewallRead,
            Permission::FirewallWrite,
            Permission::FirewallApply,
            Permission::ChangePlanApprove,
            Permission::AuditRead,
        ],
        Role::PlatformAdmin => seq![
            Permission::NodesRead,
            Permission::FirewallRead,
            Permission::FirewallWrite,
            Permission::FirewallApply,
            Permission::NetworkRead,
            Permission::NetworkWrite,
            Permission::ServiceRead,
            Permission::ServiceRestart,
            Permission::ChangePlanApprove,
            Permission::RolloutManage,
            Permission::AuditRead,
            Permission::AdminManage,
        ],
        Role::Auditor => seq![
            Permission::NodesRead,
            Permission::FirewallRead,
            Permission::NetworkRead,
            Permission::ServiceRead,
            Permission::AuditRead,
        ],
    }
}

/// A permission that changes the system (anything but reading).
pub open spec fn is_write_permission(p: Permission) -> bool {
    !(p == Permission::NodesRead || p == Permission::FirewallRead || p == Permission::NetworkRead
        || p == Permission::ServiceRead || p == Permission::AuditRead)
}

impl Role {
    /// The permissions that the role holds by default.
    pub fn default_permissions(&self) -> (r: Vec<Permission>)
        ensures
            r@ == role_permissions(*self),
    {
        match self {
            Role::Viewer => vec![
                Permission::NodesRead,
                Permission::FirewallRead,
                Permission::NetworkRead,
                Permission::ServiceRead,
                Permission::AuditRead,
            ],
            Role::Operator => vec![
                Permission::NodesRead,
                Permission::FirewallRead,
                Permission::FirewallWrite,
                Permission::NetworkRead,
                Permission::NetworkWrite,
                Permission::ServiceRead,
                Permission::ServiceRestart,
                Permission::AuditRead,
            ],
            Role::SecurityAdmin => vec![
                Permission::NodesRead,
                Permission::FirewallRead,
                Permission::FirewallWrite,
                Permission::FirewallApply,
                Permission::ChangePlanApprove,
                Permission::AuditRead,
            ],
            Role::PlatformAdmin => vec![
                Permission::NodesRead,
                Permission::FirewallRead,
                Permission::FirewallWrite,
                Permission::FirewallApply,
                Permission::NetworkRead,
                Permission::NetworkWrite,
                Permission::ServiceRead,
                Permission::ServiceRestart,
                Permission::ChangePlanApprove,
                Permission::RolloutManage,
                Permission::AuditRead,
                Permission::AdminManage,
            ],
            Role::Auditor => vec![
                Permission::NodesRead,
                Permission::FirewallRead,
                Permission::NetworkRead,
                Permission::ServiceRead,
                Permission::AuditRead,
            ],
        }
    }
}

/// The default permissions of each role, as sets:
/// - viewers and auditors read nodes, firewall, network, services and the audit trail;
/// - operators also write firewall rules and network settings and restart services, but do
///   not apply firewall policies;
/// - security administrators read nodes and the audit trail, read, write and apply firewall
///   policies and approve change plans;
/// - platform administrators hold every permission.
///
/// No role holds a permission twice.
pub proof fn law_role_permission_sets(role: Role, p: Permission)
    ensures
        role_permissions(role).contains(p) <==> match role {
            Role::Viewer | Role::Auditor => p == Permission::NodesRead || p
                == Permission::FirewallRead || p == Permission::NetworkRead || p
                == Permission::ServiceRead || p == Permission::AuditRead,
            Role::Operator => p == Permission::NodesRead || p == Permission::FirewallRead || p
                == Permission::FirewallWrite || p == Permission::NetworkRead || p
                == Permission::NetworkWrite || p == Permission::ServiceRead || p
                == Permission::ServiceRestart || p == Permission::AuditRead,
            Role::SecurityAdmin => p == Permission::NodesRead || p == Permission::FirewallRead
                || p == Permission::FirewallWrite || p == Permission::FirewallApply || p
                == Permission::ChangePlanApprove || p == Permission::AuditRead,
            Role::PlatformAdmin => true,
        },
        role_permissions(role).no_duplicates(),
        role_permissions(role).contains(Permission::FirewallApply) <==> (role
            == Role::SecurityAdmin || role == Role::PlatformAdmin),
        role == Role::Operator ==> role_permissions(role).contains(Permission::ServiceRestart),
{
    let s = role_permissions(role);
    match role {
        Role::Viewer | Role::Auditor => {
            assert(s[0] == Permission::NodesRead);
            assert(s[1] == Permission::FirewallRead);
            assert(s[2] == Permission::NetworkRead);
            assert(s[3] == Permission::ServiceRead);
            assert(s[4] == Permission::AuditRead);
        },
        Role::Operator => {
            assert(s[0] == Permission::NodesRead);
            assert(s[1] == Permission::FirewallRead);
            assert(s[2] == Permission::FirewallWrite);
            assert(s[3] == Permission::NetworkRead);
            assert(s[4] == Permission::NetworkWrite);
            assert(s[5] == Permission::ServiceRead);
            assert(s[6] == Permission::ServiceRestart);
            assert(s[7] == Permission::AuditRead);
        },
        Role::SecurityAdmin => {
            assert(s[0] == Permission::NodesRead);
            assert(s[1] == Permission::FirewallRead);
            assert(s[2] == Permission::FirewallWrite);
            assert(s[3] == Permission::FirewallApply);
            assert(s[4] == Permission::ChangePlanApprove);
            assert(s[5] == Permission::AuditRead);
        },
        Role::PlatformAdmin => {
            assert(s[0] == Permission::NodesRead);
            assert(s[1] == Permission::FirewallRead);
            assert(s[2] == Permission::FirewallWrite);
            assert(s[3] == Permission::FirewallApply);
            assert(s[4] == Permission::NetworkRead);
            assert(s[5] == Permission::NetworkWrite);
            assert(s[6] == Permission::ServiceRead);
            assert(s[7] == Permission::ServiceRestart);
            assert(s[8] == Permission::ChangePlanApprove);
            assert(s[9] == Permission::RolloutManage);
            assert(s[10] == Permission::AuditRead);
            assert(s[11] == Permission::AdminManage);
        },
    }
}

/// Every role may read the nodes and the audit trail.
pub proof fn law_every_role_reads_nodes_and_audit(role: Role)
    ensures
        role_permissions(role).contains(Permission::NodesRead),
        role_permissions(role).contains(Permission::AuditRead),
{
    assert(role_permissions(role)[0] == Permission::NodesRead);
    let s = role_permissions(role);
    assert(s[s.len() - 1] == Permission::AuditRead || s[s.len() - 2] == Permission::AuditRead);
}

/// Only the platform administrator may administer the platform.
pub proof fn law_only_platform_admin_manages(role: Role)
    ensures
        role_permissions(role).contains(Permission::AdminManage) <==> role
            == Role::PlatformAdmin,
{
    if role == Role::PlatformAdmin {
        assert(role_permissions(role)[11] == Permission::AdminManage);
    }
}

/// Viewers and auditors only read.
pub proof fn law_read_only_roles(role: Role, p: Permission)
    requires
        role == Role::Viewer || role == Role::Auditor,
        role_permissions(role).contains(p),
    ensures
        !is_write_permission(p),
{
}

/// The platform administrator holds every permission that any role holds.
pub proof fn law_platform_admin_holds_all(role: Role, p: Permission)
    requires
        role_permissions(role).contains(p),
    ensures
        role_permissions(Role::PlatformAdmin).contains(p),
{
    let s = role_permissions(Role::PlatformAdmin);
    match p {
        Permission::NodesRead => assert(s[0] == p),
        Permission::FirewallRead => assert(s[1] == p),
        Permission::FirewallWrite => assert(s[2] == p),
        Permission::FirewallApply => assert(s[3] == p),
        Permission::NetworkRead => assert(s[4] == p),
        Permission::NetworkWrite => assert(s[5] == p),
        Permission::ServiceRead => assert(s[6] == p),
        Permission::ServiceRestart => assert(s[7] == p),
        Permission::ChangePlanApprove => assert(s[8] == p),
        Permission::RolloutManage => assert(s[9] == p),
        Permission::AuditRead => assert(s[10] == p),
        Permission::AdminManage => assert(s[11] == p),
    }
}

/// Risk tier of a change plan, for approvals.
#[derive(Debug, Clone, Copy, PartialEq, Eq, PartialOrd, Ord, Structural)]
pub enum RiskLevel {
    /// No approval needed.
    Low,
    /// One operator approves.
    Medium,
    /// One security administrator approves.
    High,
    /// Two distinct administrators approve.
    Critical,
}

/// An authenticated user.
#[derive(Debug, Clone)]
pub struct UserSubject {
    pub id: String,
    pub username: String,
    pub roles: Vec<Role>,
}

/// Where a permission applies.
#[derive(Debug, Clone, PartialEq, Eq)]
pub enum AccessScope {
    Global,
    Group(String),
    NodeId(String),
    Labels(HashMap<String, String>),
}

/// An approval of a change plan.
#[derive(Debug, Clone)]
pub struct ApprovalRecord {
    pub approver_id: String,
    pub approver_username: String,
    /// When the approval was given (ISO 8601 text).
    pub approved_at: String,
    pub risk_level: RiskLevel,
    pub comments: Option<String>,
}

// ───────────────────────── block list ─────────────────────────

/// One blocked address.
#[derive(Debug, Clone, PartialEq, Eq)]
pub struct BlockEntry {
    /// The blocked address.
    pub ip: String,
    pub reason: String,
    /// Who asked for the block (`api`, `ssh_detector`, ...).
    pub actor: String,
    /// Length of the block in seconds (`None`: permanent).
    pub duration_seconds: Option<u64>,
    pub created_at: Timestamp,
    pub expires_at: Option<Timestamp>,
}

impl BlockEntry {
    /// The entry has an expiry and `now` is past it.
    pub open spec fn expired_at(self, now: Timestamp) -> bool {
        match self.expires_at {
            Some(exp) => now.later_than(exp),
            None => false,
        }
    }

    /// Whether the entry has expired at time `now`.
    pub fn is_expired_at(&self, now: Timestamp) -> (r: bool)
        ensures
            r == self.expired_at(now),
    {
        match self.expires_at {
            Some(exp) => now.is_after(&exp),
            None => false,
        }
    }

    /// Whether the entry has expired by the clock (`chrono::Utc::now`).
    pub fn is_expired(&self) -> (r: bool)
        ensures
            exists|now: Timestamp| now.wf() && r == self.expired_at(now),
    {
        let now = crate::clock::now();
        let r = self.is_expired_at(now);
        assert(now.wf() && r == self.expired_at(now));
        r
    }
}

/// Settings of the block list and of the SSH brute-force detector.
#[derive(Debug, Clone, PartialEq, Eq)]
pub struct BlockerConfig {
    /// Whether the SSH brute-force detector runs.
    pub ssh_enabled: bool,
    /// Failed logins that trigger a block.
    pub threshold: u32,
    /// Window, in seconds, over which failures are counted.
    pub window_seconds: u64,
    /// Length of an automatic block, in seconds.
    pub block_seconds: u64,
    /// Networks that are never blocked.
    pub allowlist: Vec<CidrSpec>,
}

impl Default for BlockerConfig {
    /// Detector on, 10 failures in 60 seconds block for 1800 seconds; only the loopback
    /// networks `127.0.0.0/8` and `::1/128` are allowed.
    fn default() -> (r: Self)
        ensures
            r.ssh_enabled,
            r.threshold == 10,
            r.window_seconds == 60,
            r.block_seconds == 1800,
            r.allowlist@.len() == 2,
            r.allowlist@[0].0@ == "127.0.0.0/8"@,
            r.allowlist@[1].0@ == "::1/128"@,
    {
        BlockerConfig {
            ssh_enabled: true,
            threshold: 10,
            window_seconds: 60,
            block_seconds: 1800,
            allowlist: vec![
                CidrSpec(crate::text::owned("127.0.0.0/8")),
                CidrSpec(crate::text::owned("::1/128")),
            ],
        }
    }
}

/// Where a block request came from.
#[derive(Debug, Clone, Copy, PartialEq, Eq, Hash, Structural)]
pub enum BlockSource {
    Manual,
    SshDetector,
    NginxDetector,
    Api,
}

/// Why an address is blocked.
#[derive(Debug, Clone, PartialEq, Eq, Hash)]
pub enum BlockReason {
    BruteForce,
    ManualAdmin,
    MaliciousActivity,
    Other(String),
}

/// How long a block lasts.
#[derive(Debug, Clone, Copy, PartialEq, Eq, Hash, Structural)]
pub enum BlockDuration {
    /// For the given number of seconds.
    Temporary(u64),
    Permanent,
}

/// State of a block record.
#[derive(Debug, Clone, Copy, PartialEq, Eq, Hash, Structural)]
pub enum BlockStatus {
    Active,
    Expired,
    Revoked,
}

// ───────────────────────── signed bundles ─────────────────────────

/// A policy bundle signed by the controller.
#[derive(Debug, Clone)]
pub struct SignedPolicyBundle {
    pub bundle_id: String,
    /// The only node allowed to apply the bundle.
    pub target_node_id: String,
    pub policy_version: String,
    /// Strictly increasing sequence number (against replays).
    pub sequence_number: u64,
    /// When the bundle was issued (ISO 8601 text).
    pub issued_at: String,
    /// When the bundle expires (ISO 8601 text).
    pub expires_at: String,
    pub controller_id: String,
    /// SHA-256 checksum of the payload, in hexadecimal.
    pub payload_checksum: String,
    pub firewall_policy: Option<FirewallPolicy>,
    pub network_profile: Option<NetworkProfile>,
    /// Hexadecimal Ed25519 signature.
    pub signature_hex: String,
}


/// The UTF-8 bytes of an optional text (none when absent).
pub open spec fn opt_utf8(t: Option<Seq<char>>) -> Seq<u8> {
    match t {
        Some(x) => utf8(x),
        None => seq![],
    }
}

/// The text that a bundle's signature covers: its identifier, target node, policy version,
/// sequence number, issue and expiry times and payload checksum, joined by `:`.
pub open spec fn signing_text(b: SignedPolicyBundle) -> Seq<char> {
    b.bundle_id@ + ":"@ + b.target_node_id@ + ":"@ + b.policy_version@ + ":"@ + decimal(
        b.sequence_number as nat,
    ) + ":"@ + b.issued_at@ + ":"@ + b.expires_at@ + ":"@ + b.payload_checksum@
}

impl SignedPolicyBundle {
    /// The payload checksum: the lower-case hexadecimal SHA-256 digest of the JSON text of
    /// the firewall policy followed by that of the network profile (each left out when the
    /// bundle has none).
    pub fn compute_payload_checksum(firewall_json: Option<&str>, network_json: Option<&str>) -> (r: String)
        ensures
            r@ == hex_of_bytes(
                sha256_of(
                    opt_utf8(
                        match firewall_json {
                            Some(t) => Some(t@),
                            None => None,
                        },
                    ) + opt_utf8(
                        match network_json {
                            Some(t) => Some(t@),
                            None => None,
                        },
                    ),
                ),
            ),
    {
        let mut data: Vec<u8> = match firewall_json {
            Some(t) => utf8_bytes(t),
            None => Vec::new(),
        };
        let mut more: Vec<u8> = match network_json {
            Some(t) => utf8_bytes(t),
            None => Vec::new(),
        };
        data.append(&mut more);
        let d = sha256(data.as_slice());
        hex_text(d.as_slice())
    }

    /// The bytes that the signature covers: the UTF-8 bytes of `signing_text`.
    pub fn signing_bytes(&self) -> (r: Vec<u8>)
        ensures
            r@ == utf8(signing_text(*self)),
    {
        let mut t = self.bundle_id.clone();
        push_str(&mut t, ":");
        push_str(&mut t, self.target_node_id.as_str());
        push_str(&mut t, ":");
        push_str(&mut t, self.policy_version.as_str());
        push_str(&mut t, ":");
        push_str(&mut t, decimal_text(self.sequence_number).as_str());
        push_str(&mut t, ":");
        push_str(&mut t, self.issued_at.as_str());
        push_str(&mut t, ":");
        push_str(&mut t, self.expires_at.as_str());
        push_str(&mut t, ":");
        push_str(&mut t, self.payload_checksum.as_str());
        utf8_bytes(t.as_str())
    }
}

} // verus!
