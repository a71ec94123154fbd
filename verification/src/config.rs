//! Configuration values handed in at construction time.  Loading them from
//! a file is the owner's concern; the library only fixes their shape.

use vstd::prelude::*;

verus! {

/// Top-level system configuration.
#[derive(Debug, Clone)]
pub struct Config {
    /// System configuration.
    pub system: SystemConfig,
    /// Memory configuration.
    pub memory: MemoryConfig,
    /// Tools configuration.
    pub tools: ToolsConfig,
    /// Security configuration.
    pub security: SecurityConfig,
}

/// General system settings.
#[derive(Debug, Clone)]
pub struct SystemConfig {
    /// System name.
    pub name: String,
    /// System version.
    pub version: String,
    /// Log level.
    pub log_level: String,
    /// Data directory.
    pub data_dir: String,
}

/// Settings for the memory manager.
#[derive(Debug, Clone)]
pub struct MemoryConfig {
    /// Maximum memory allocation, in megabytes.
    pub max_allocation: usize,
    /// Memory optimization strategy name.
    pub optimization_strategy: String,
}

/// Settings for tool discovery.
#[derive(Debug, Clone)]
pub struct ToolsConfig {
    /// Whether tool discovery is enabled.
    pub discovery_enabled: bool,
    /// Directories searched for tools.
    pub tool_dirs: Vec<String>,
}

/// Settings for the security layer.
#[derive(Debug, Clone)]
pub struct SecurityConfig {
    /// Security level name.
    pub security_level: String,
    /// Allowed operations.
    pub allowed_operations: Vec<String>,
}

} // verus!
