//! The output of compiling a firewall policy into an nftables script.
use vstd::prelude::*;
use crate::errors::{AegisError, Timestamp};
use crate::models::firewall::FirewallPolicy;

verus! {

/// A policy compiled into an nftables script.
#[derive(Debug, Clone, PartialEq, Eq)]
pub struct CompiledFirewallPolicy {
    /// The complete script, ready to apply.
    pub nft_script: String,
    /// SHA-256 hash of the policy.
    pub policy_hash: String,
    /// When the policy was compiled.
    pub generated_at: Timestamp,
    /// The nftables tables that AegisNode manages.
    pub managed_tables: Vec<String>,
    /// Rules added on its own (loopback and established traffic allowed).
    pub auto_generated_rules: Vec<String>,
}

/// A compiler of firewall policies.
pub trait FirewallCompiler {
    /// Compiles a validated policy.
    fn compile(&self, policy: &FirewallPolicy) -> Result<CompiledFirewallPolicy, AegisError>;
}

} // verus!
