//! Verified core of the AegisNode firewall and node-management engine.
pub mod advanced_network;
pub mod blocker;
pub mod change_planner;
pub mod clock;
pub mod compiler;
pub mod digest;
pub mod errors;
pub mod executor_client;
pub mod identity;
pub mod inspectors;
pub mod inventory;
pub mod json;
pub mod models;
pub mod net;
pub mod network_backend;
pub mod rollout;
pub mod runtime;
pub mod snapshot;
pub mod systemd;
pub mod text;
pub mod transaction;
