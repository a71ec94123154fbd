use royaos::config::{Config, MemoryConfig, SecurityConfig, SystemConfig, ToolsConfig};
use royaos::memory::{MemoryCategory, MemoryManager};
use royaos::security::SecurityLevel;

#[test]
fn test_config_drives_manager_construction() {
    let config = Config {
        system: SystemConfig {
            name: String::from("royaos"),
            version: String::from("0.1.0"),
            log_level: String::from("info"),
            data_dir: String::from("./data"),
        },
        memory: MemoryConfig {
            max_allocation: 100,
            optimization_strategy: String::from("balanced"),
        },
        tools: ToolsConfig {
            discovery_enabled: false,
            tool_dirs: vec![String::from("./tools")],
        },
        security: SecurityConfig {
            security_level: String::from("standard"),
            allowed_operations: vec![String::from("file_read")],
        },
    };

    let mut manager = MemoryManager::new(
        config.memory.max_allocation,
        &config.memory.optimization_strategy,
    );
    assert_eq!(manager.max_allocation(), 100 * 1024 * 1024);

    let handle = manager.allocate(4096, "From configured manager", MemoryCategory::Working).unwrap();
    assert_eq!(manager.current_usage(), 4096);
    assert!(manager.deallocate(handle).is_ok());
}

#[test]
fn test_subsystem_init_failure() {
    // A subsystem whose configured security level does not parse cannot
    // come up: the parse reports the failure instead of guessing a level.
    let security = SecurityConfig {
        security_level: String::from("broken"),
        allowed_operations: Vec::new(),
    };
    assert!(SecurityLevel::from_str(&security.security_level).is_err());
}
