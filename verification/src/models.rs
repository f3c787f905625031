//! Domain objects of the engine: rollout plans, firewall policies, fleet inventory and security.
pub mod rollout;
pub mod firewall;
pub mod advanced;
pub mod fleet;
pub mod security;
pub mod nat_rules;
