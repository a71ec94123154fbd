//! Memory accounting for cognitive workloads: a categorized allocation
//! ledger with a hard capacity ceiling and an idle-time eviction policy,
//! together with the security-level and configuration value types that the
//! surrounding system hands in.

pub mod config;
pub mod memory;
pub mod security;
mod text;
