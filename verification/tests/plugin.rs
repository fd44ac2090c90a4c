use fos::plugin::config::Config;
use fos::plugin::error::Error;
use fos::plugin::lifecycle::{LifecycleEvent, PluginLifecycleManager};
use fos::plugin::loader::{validate_metadata, PluginLoader};
use fos::plugin::plugin::{PluginMetadata, PluginState, PluginStats, PluginStatus, PluginType};
use fos::plugin::sandbox::{
    PluginPermissions, ResourceLimits, Sandbox, SandboxConfig, SandboxManager,
};
use std::collections::HashMap;

fn message(e: Error) -> String {
    match e {
        Error::Plugin(m) => m,
    }
}

#[test]
fn test_plugin_metadata_creation() {
    let metadata = PluginMetadata {
        id: "test-plugin".to_string(),
        name: "Test Plugin".to_string(),
        version: "1.0.0".to_string(),
        description: "A test plugin".to_string(),
        author: Some("Test Author".to_string()),
        plugin_type: PluginType::Custom,
        min_fos_version: Some("1.0.0".to_string()),
        dependencies: vec![],
        custom_config: HashMap::new(),
    };

    assert_eq!(metadata.id, "test-plugin");
    assert_eq!(metadata.plugin_type, PluginType::Custom);
}

#[test]
fn test_plugin_state_transitions() {
    let mut status = PluginStatus::new("test-plugin".to_string());
    assert_eq!(status.state, PluginState::Unloaded);

    status.update_state(PluginState::Loaded);
    assert_eq!(status.state, PluginState::Loaded);

    status.update_state(PluginState::Initialized);
    assert_eq!(status.state, PluginState::Initialized);

    status.update_state(PluginState::Running);
    assert_eq!(status.state, PluginState::Running);
}

#[test]
fn test_plugin_error_handling() {
    let mut status = PluginStatus::new("test-plugin".to_string());
    status.update_state(PluginState::Running);

    status.record_error("Test error".to_string());
    assert_eq!(status.state, PluginState::Error);
    assert_eq!(status.error_message, Some("Test error".to_string()));
    assert_eq!(status.stats.error_count, 1);
}

#[test]
fn test_plugin_execution_stats() {
    let mut status = PluginStatus::new("test-plugin".to_string());
    status.stats.execution_count = 0;

    status.record_execution();
    assert_eq!(status.stats.execution_count, 1);
    assert!(status.stats.last_execution_time.is_some());
}

#[test]
fn test_plugin_stats_default() {
    let stats = PluginStats::default();
    assert_eq!(stats.load_time_ms, 0);
    assert_eq!(stats.init_time_ms, 0);
    assert_eq!(stats.execution_count, 0);
    assert!(stats.last_execution_time.is_none());
    assert_eq!(stats.error_count, 0);
}

#[test]
fn test_plugin_metadata_with_dependencies() {
    let metadata = PluginMetadata {
        id: "plugin-a".to_string(),
        name: "Plugin A".to_string(),
        version: "1.0.0".to_string(),
        description: "Plugin with dependencies".to_string(),
        author: None,
        plugin_type: PluginType::Storage,
        min_fos_version: None,
        dependencies: vec!["plugin-b".to_string(), "plugin-c".to_string()],
        custom_config: HashMap::new(),
    };

    assert_eq!(metadata.dependencies.len(), 2);
    assert!(metadata.dependencies.contains(&"plugin-b".to_string()));
}

#[test]
fn test_plugin_metadata_with_custom_config() {
    let mut custom_config = HashMap::new();
    custom_config.insert("timeout".to_string(), "30".to_string());
    custom_config.insert("retry".to_string(), "3".to_string());

    let metadata = PluginMetadata {
        id: "test-plugin".to_string(),
        name: "Test Plugin".to_string(),
        version: "1.0.0".to_string(),
        description: "Plugin with custom config".to_string(),
        author: None,
        plugin_type: PluginType::Monitor,
        min_fos_version: None,
        dependencies: vec![],
        custom_config,
    };

    assert_eq!(metadata.custom_config.len(), 2);
    assert_eq!(metadata.custom_config.get("timeout"), Some(&"30".to_string()));
}

#[test]
fn test_multiple_errors_accumulate() {
    let mut status = PluginStatus::new("test-plugin".to_string());

    status.record_error("Error 1".to_string());
    assert_eq!(status.stats.error_count, 1);

    status.update_state(PluginState::Running);
    status.record_error("Error 2".to_string());
    assert_eq!(status.stats.error_count, 2);
    assert_eq!(status.error_message, Some("Error 2".to_string()));
}

#[test]
fn test_multiple_executions() {
    let mut status = PluginStatus::new("test-plugin".to_string());

    for i in 0..5 {
        status.record_execution();
        assert_eq!(status.stats.execution_count, i + 1);
    }

    assert_eq!(status.stats.execution_count, 5);
}

#[test]
fn test_resource_limits_default() {
    let limits = ResourceLimits::default();
    assert!(limits.max_cpu_time_sec.is_some());
    assert!(limits.max_memory_bytes.is_some());
}

#[test]
fn test_plugin_permissions_default() {
    let perms = PluginPermissions::default();
    assert!(perms.allow_file_read);
    assert!(!perms.allow_file_write);
    assert!(!perms.allow_network);
}

#[test]
fn test_plugin_permissions_allow_all() {
    let perms = PluginPermissions::allow_all();
    assert!(perms.allow_file_read);
    assert!(perms.allow_file_write);
    assert!(perms.allow_network);
}

#[test]
fn test_plugin_permissions_readonly() {
    let perms = PluginPermissions::readonly();
    assert!(perms.allow_file_read);
    assert!(!perms.allow_file_write);
    assert!(!perms.allow_network);
}

#[test]
fn test_permission_checks() {
    let perms = PluginPermissions::readonly();

    assert!(perms.check_file_read().is_ok());
    assert!(perms.check_file_write().is_err());
    assert!(perms.check_network().is_err());
    assert!(perms.check_process_spawn().is_err());
}

#[test]
fn test_sandbox_creation() {
    let config = SandboxConfig::default();
    let sandbox = Sandbox::new("test-plugin".to_string(), config);

    assert_eq!(sandbox.get_plugin_id(), "test-plugin");
    assert!(sandbox.is_active());
}

#[test]
fn test_sandbox_deactivate() {
    let mut sandbox = Sandbox::new("test-plugin".to_string(), SandboxConfig::default());

    sandbox.deactivate();
    assert!(!sandbox.is_active());
}

#[test]
fn test_resource_usage_tracking() {
    let mut sandbox = Sandbox::new("test-plugin".to_string(), SandboxConfig::default());

    sandbox.record_cpu_time(1_000_000_000);
    sandbox.record_memory(1024 * 1024);
    sandbox.record_disk_write(512 * 1024);

    let usage = sandbox.get_usage();
    assert_eq!(usage.cpu_time_ns, 1_000_000_000);
    assert_eq!(usage.memory_bytes, 1024 * 1024);
    assert_eq!(usage.disk_write_bytes, 512 * 1024);
}

#[test]
fn test_resource_limit_check() {
    let config = SandboxConfig {
        resource_limits: ResourceLimits {
            max_cpu_time_sec: Some(30),
            max_memory_bytes: Some(1024 * 1024),
            ..Default::default()
        },
        ..Default::default()
    };

    let mut sandbox = Sandbox::new("test-plugin".to_string(), config);

    sandbox.record_cpu_time(10 * 1_000_000_000);
    sandbox.record_memory(512 * 1024);
    assert!(sandbox.check_resource_limits().is_ok());

    sandbox.record_cpu_time(25 * 1_000_000_000);
    assert!(sandbox.check_resource_limits().is_err());
}

#[test]
fn resource_limit_messages_name_the_first_limit_broken() {
    let config = SandboxConfig {
        resource_limits: ResourceLimits {
            max_cpu_time_sec: Some(30),
            max_memory_bytes: Some(1024),
            ..Default::default()
        },
        ..Default::default()
    };
    let mut sandbox = Sandbox::new("p".to_string(), config);
    sandbox.record_memory(2048);
    assert_eq!(
        message(sandbox.check_resource_limits().unwrap_err()),
        "Memory limit exceeded: 2048 bytes > 1024 bytes"
    );
    sandbox.record_cpu_time(35 * 1_000_000_000);
    assert_eq!(message(sandbox.check_resource_limits().unwrap_err()), "CPU time limit exceeded: 35s > 30s");
    sandbox.reset_usage();
    sandbox.record_file_descriptor(101);
    assert_eq!(
        message(sandbox.check_resource_limits().unwrap_err()),
        "File descriptor limit exceeded: 101 > 100"
    );
}

#[test]
fn test_file_access_permission() {
    let config = SandboxConfig {
        allowed_paths: vec!["/tmp/".to_string()],
        blocked_paths: vec!["/etc/".to_string()],
        ..Default::default()
    };

    let sandbox = Sandbox::new("test-plugin".to_string(), config);

    assert!(sandbox.check_file_access("/tmp/test.txt", false).is_ok());
    assert!(sandbox.check_file_access("/var/log/test.txt", false).is_err());
    assert!(sandbox.check_file_access("/etc/passwd", false).is_err());
    assert_eq!(
        message(sandbox.check_file_access("/etc/passwd", false).unwrap_err()),
        "Access to path blocked: /etc/passwd"
    );
    assert_eq!(
        message(sandbox.check_file_access("/var/log/test.txt", false).unwrap_err()),
        "Access to path not allowed: /var/log/test.txt"
    );
}

#[test]
fn test_file_write_permission() {
    let config = SandboxConfig { permissions: PluginPermissions::readonly(), ..Default::default() };

    let sandbox = Sandbox::new("test-plugin".to_string(), config);

    assert!(sandbox.check_file_access("/tmp/test.txt", true).is_err());
    assert_eq!(
        message(sandbox.check_file_access("/tmp/test.txt", true).unwrap_err()),
        "File write permission denied"
    );
}

#[test]
fn test_network_connection_tracking() {
    let mut sandbox = Sandbox::new("test-plugin".to_string(), SandboxConfig::default());

    sandbox.record_network_connection();
    assert_eq!(sandbox.get_usage().network_connections, 1);

    sandbox.record_network_connection();
    assert_eq!(sandbox.get_usage().network_connections, 2);

    sandbox.release_network_connection();
    assert_eq!(sandbox.get_usage().network_connections, 1);

    sandbox.release_network_connection();
    sandbox.release_network_connection();
    assert_eq!(sandbox.get_usage().network_connections, 0);
}

#[test]
fn test_usage_reset() {
    let mut sandbox = Sandbox::new("test-plugin".to_string(), SandboxConfig::default());

    sandbox.record_cpu_time(1_000_000_000);
    sandbox.record_memory(1024 * 1024);

    sandbox.reset_usage();

    let usage = sandbox.get_usage();
    assert_eq!(usage.cpu_time_ns, 0);
    assert_eq!(usage.memory_bytes, 0);
}

#[test]
fn test_sandbox_manager_creation() {
    let manager = SandboxManager::new_with_default();
    let sandboxes = manager.list_sandboxes();
    assert!(sandboxes.is_empty());
}

#[test]
fn test_sandbox_manager_create_and_remove() {
    let mut manager = SandboxManager::new_with_default();

    manager.create_sandbox("test-plugin".to_string(), None).unwrap();

    let sandboxes = manager.list_sandboxes();
    assert_eq!(sandboxes.len(), 1);
    assert!(sandboxes.contains(&"test-plugin".to_string()));

    manager.remove_sandbox("test-plugin").unwrap();

    let sandboxes = manager.list_sandboxes();
    assert!(sandboxes.is_empty());
}

#[test]
fn test_sandbox_manager_get_sandbox() {
    let mut manager = SandboxManager::new_with_default();
    manager.create_sandbox("test-plugin".to_string(), None).unwrap();

    let retrieved = manager.get_sandbox("test-plugin").unwrap();
    assert_eq!(retrieved.get_plugin_id(), "test-plugin");
}

#[test]
fn test_sandbox_manager_get_nonexistent() {
    let manager = SandboxManager::new_with_default();
    let result = manager.get_sandbox("nonexistent");
    assert!(result.is_err());
    assert_eq!(message(result.unwrap_err()), "Sandbox not found: nonexistent");
}

#[test]
fn test_create_config_for_plugin_type() {
    let storage_config = SandboxManager::create_config_for_plugin_type(&PluginType::Storage);
    assert!(storage_config.permissions.allow_file_write);

    let monitor_config = SandboxManager::create_config_for_plugin_type(&PluginType::Monitor);
    assert!(monitor_config.permissions.allow_network);

    let notifier_config = SandboxManager::create_config_for_plugin_type(&PluginType::Notifier);
    assert!(notifier_config.permissions.allow_network);

    let custom_config = SandboxManager::create_config_for_plugin_type(&PluginType::Custom);
    assert!(!custom_config.permissions.allow_file_write);
}

#[test]
fn plugin_type_profiles_set_memory_limits() {
    let storage = SandboxManager::create_config_for_plugin_type(&PluginType::Storage);
    assert_eq!(storage.resource_limits.max_memory_bytes, Some(1024 * 1024 * 1024));
    let monitor = SandboxManager::create_config_for_plugin_type(&PluginType::Monitor);
    assert_eq!(monitor.resource_limits.max_memory_bytes, Some(256 * 1024 * 1024));
    let notifier = SandboxManager::create_config_for_plugin_type(&PluginType::Notifier);
    assert_eq!(notifier.resource_limits.max_memory_bytes, Some(128 * 1024 * 1024));
    assert!(!notifier.permissions.allow_file_read);
    let custom = SandboxManager::create_config_for_plugin_type(&PluginType::Custom);
    assert_eq!(custom.resource_limits.max_memory_bytes, Some(512 * 1024 * 1024));
}

#[test]
fn test_multiple_sandboxes() {
    let mut manager = SandboxManager::new_with_default();

    for i in 1..=3 {
        manager.create_sandbox(format!("plugin-{}", i), None).unwrap();
    }

    let sandboxes = manager.list_sandboxes();
    assert_eq!(sandboxes.len(), 3);

    for id in 1..=3 {
        let sandbox = manager.get_sandbox(&format!("plugin-{}", id)).unwrap();
        assert!(sandbox.is_active());
    }
    assert_eq!(manager.cleanup_inactive(), 0);
}

fn status_of(manager: &PluginLifecycleManager, id: &str) -> PluginState {
    manager.get_status(id).unwrap().state
}

fn loaded(id: &str) -> PluginStatus {
    let mut status = PluginStatus::new(id.to_string());
    status.update_state(PluginState::Loaded);
    status
}

#[test]
fn test_lifecycle_manager_creation() {
    let manager = PluginLifecycleManager::new();
    assert!(manager.get_all_statuses().is_empty());
}

#[test]
fn test_add_and_remove_plugin() {
    let mut manager = PluginLifecycleManager::new();
    manager.add_plugin(loaded("test-plugin"));
    assert_eq!(manager.get_all_statuses().len(), 1);
    manager.remove_plugin("test-plugin").unwrap();
    assert!(manager.get_all_statuses().is_empty());
}

#[test]
fn test_initialize_plugin() {
    let mut manager = PluginLifecycleManager::new();
    manager.add_plugin(loaded("test-plugin"));
    manager.initialize("test-plugin").unwrap();
    let status = manager.get_status("test-plugin").unwrap();
    assert_eq!(status.state, PluginState::Initialized);
    assert!(status.stats.init_time_ms > 0);
}

#[test]
fn test_initialize_already_initialized() {
    let mut manager = PluginLifecycleManager::new();
    manager.add_plugin(loaded("test-plugin"));
    manager.initialize("test-plugin").unwrap();
    let result = manager.initialize("test-plugin");
    assert!(result.is_err());
    assert_eq!(message(result.unwrap_err()), "Plugin test-plugin is already initialized");
}

#[test]
fn test_full_lifecycle() {
    let mut manager = PluginLifecycleManager::new();
    manager.add_plugin(loaded("test-plugin"));
    manager.initialize("test-plugin").unwrap();
    assert_eq!(status_of(&manager, "test-plugin"), PluginState::Initialized);
    manager.start("test-plugin").unwrap();
    assert_eq!(status_of(&manager, "test-plugin"), PluginState::Running);
    manager.pause("test-plugin").unwrap();
    assert_eq!(status_of(&manager, "test-plugin"), PluginState::Paused);
    manager.resume("test-plugin").unwrap();
    assert_eq!(status_of(&manager, "test-plugin"), PluginState::Running);
    manager.stop("test-plugin").unwrap();
    assert_eq!(status_of(&manager, "test-plugin"), PluginState::Initialized);
}

#[test]
fn test_record_execution() {
    let mut manager = PluginLifecycleManager::new();
    manager.add_plugin(loaded("test-plugin"));
    manager.record_execution("test-plugin").unwrap();
    manager.record_execution("test-plugin").unwrap();
    assert_eq!(manager.get_status("test-plugin").unwrap().stats.execution_count, 2);
}

#[test]
fn test_record_error() {
    let mut manager = PluginLifecycleManager::new();
    manager.add_plugin(loaded("test-plugin"));
    manager.record_error("test-plugin", "Test error".to_string());
    let status = manager.get_status("test-plugin").unwrap();
    assert_eq!(status.state, PluginState::Error);
    assert_eq!(status.error_message, Some("Test error".to_string()));
    assert_eq!(status.stats.error_count, 1);
}

#[test]
fn test_event_listener() {
    let mut manager = PluginLifecycleManager::new();
    manager.add_plugin(loaded("test-plugin"));
    let events = manager.take_events();
    assert_eq!(events.len(), 1);
    match &events[0] {
        LifecycleEvent::Loaded { plugin_id } => assert_eq!(plugin_id, "test-plugin"),
        _ => panic!("Expected Loaded event"),
    }
    assert!(manager.take_events().is_empty());
}

#[test]
fn test_start_multiple_plugins() {
    let mut manager = PluginLifecycleManager::new();
    let ids = vec!["a".to_string(), "b".to_string()];
    for id in &ids {
        manager.add_plugin(loaded(id));
        manager.initialize(id).unwrap();
    }
    manager.start_multiple(&ids).unwrap();
    for id in &ids {
        assert_eq!(status_of(&manager, id), PluginState::Running);
    }
}

#[test]
fn test_stop_multiple_plugins() {
    let mut manager = PluginLifecycleManager::new();
    let ids = vec!["a".to_string(), "b".to_string()];
    for id in &ids {
        manager.add_plugin(loaded(id));
        manager.initialize(id).unwrap();
        manager.start(id).unwrap();
    }
    manager.stop_multiple(&ids).unwrap();
    for id in &ids {
        assert_eq!(status_of(&manager, id), PluginState::Initialized);
    }
}

#[test]
fn start_multiple_reports_how_many_failed() {
    let mut manager = PluginLifecycleManager::new();
    manager.add_plugin(loaded("a"));
    manager.initialize("a").unwrap();
    let ids = vec!["a".to_string(), "missing".to_string(), "a".to_string()];
    let err = message(manager.start_multiple(&ids).unwrap_err());
    assert!(err.starts_with("Failed to start 2 plugins: "));
    assert!(err.contains("[(\"missing\", Plugin(\"Plugin missing not found\")), (\"a\", Plugin("));
    assert_eq!(status_of(&manager, "a"), PluginState::Running);
}

#[test]
fn test_reset_error_plugin() {
    let mut manager = PluginLifecycleManager::new();
    manager.add_plugin(loaded("test-plugin"));
    manager.record_error("test-plugin", "boom".to_string());
    manager.reset("test-plugin").unwrap();
    let status = manager.get_status("test-plugin").unwrap();
    assert_eq!(status.state, PluginState::Loaded);
    assert!(status.error_message.is_none());
}

#[test]
fn test_reset_non_error_plugin() {
    let mut manager = PluginLifecycleManager::new();
    manager.add_plugin(loaded("test-plugin"));
    let result = manager.reset("test-plugin");
    assert!(result.is_err());
    assert_eq!(message(result.unwrap_err()), "Cannot reset plugin in state Loaded");
}

#[test]
fn test_invalid_state_transitions() {
    let mut manager = PluginLifecycleManager::new();
    manager.add_plugin(loaded("test-plugin"));
    let result = manager.start("test-plugin");
    assert!(result.is_err());
    assert_eq!(message(result.unwrap_err()), "Plugin test-plugin is in state Loaded, cannot start");
    let result = manager.pause("test-plugin");
    assert!(result.is_err());
    assert_eq!(message(manager.stop("test-plugin").unwrap_err()), "Plugin test-plugin is not running");
    assert_eq!(message(manager.start("nope").unwrap_err()), "Plugin nope not found");
}

#[test]
fn test_multiple_error_records() {
    let mut manager = PluginLifecycleManager::new();
    manager.add_plugin(loaded("test-plugin"));
    manager.record_error("test-plugin", "e1".to_string());
    manager.record_error("test-plugin", "e2".to_string());
    assert_eq!(manager.get_status("test-plugin").unwrap().stats.error_count, 2);
}

fn metadata(id: &str, version: &str, deps: Vec<String>) -> PluginMetadata {
    PluginMetadata {
        id: id.to_string(),
        name: format!("Plugin {}", id),
        version: version.to_string(),
        description: "test".to_string(),
        author: None,
        plugin_type: PluginType::Custom,
        min_fos_version: None,
        dependencies: deps,
        custom_config: HashMap::new(),
    }
}

#[test]
fn test_plugin_loader_creation() {
    let loader = PluginLoader::new(Config::default());
    assert_eq!(loader.plugin_dir(), "plugins");
    assert!(loader.list_plugins().is_empty());
}

#[test]
fn test_load_plugin() {
    let mut loader = PluginLoader::new(Config::default());
    loader.load_plugin(metadata("p1", "1.0.0", vec![])).unwrap();
    let status = loader.get_plugin_status("p1").unwrap();
    assert_eq!(status.state, PluginState::Loaded);
    assert!(status.stats.load_time_ms > 0);
}

#[test]
fn test_load_duplicate_plugin() {
    let mut loader = PluginLoader::new(Config::default());
    loader.load_plugin(metadata("p1", "1.0.0", vec![])).unwrap();
    let err = loader.load_plugin(metadata("p1", "1.0.0", vec![])).unwrap_err();
    assert_eq!(message(err), "Plugin p1 is already loaded");
}

#[test]
fn test_unload_plugin() {
    let mut loader = PluginLoader::new(Config::default());
    loader.load_plugin(metadata("p1", "1.0.0", vec![])).unwrap();
    loader.unload_plugin("p1").unwrap();
    assert!(loader.get_plugin_metadata("p1").is_err());
}

#[test]
fn test_unload_nonexistent_plugin() {
    let mut loader = PluginLoader::new(Config::default());
    assert_eq!(message(loader.unload_plugin("ghost").unwrap_err()), "Plugin ghost is not loaded");
}

#[test]
fn test_check_dependencies_with_deps() {
    let mut loader = PluginLoader::new(Config::default());
    loader.load_plugin(metadata("b", "1.0.0", vec![])).unwrap();
    loader.load_plugin(metadata("a", "1.0.0", vec!["b".to_string()])).unwrap();
    assert!(loader.check_dependencies("a").unwrap().is_empty());
    loader.load_plugin(metadata("c", "1.0.0", vec!["x".to_string()])).unwrap();
    let err = message(loader.check_dependencies("c").unwrap_err());
    assert_eq!(err, "Plugin c has missing dependencies: [\"x\"]");
}

#[test]
fn test_hot_reload() {
    let mut loader = PluginLoader::new(Config::default());
    loader.load_plugin(metadata("a", "1.0.0", vec![])).unwrap();
    let found = vec![metadata("a", "1.0.0", vec![]), metadata("b", "2.1.0", vec![]), metadata("c", "bad", vec![])];
    let reloaded = loader.hot_reload(found).unwrap();
    assert_eq!(reloaded, vec!["b".to_string()]);
    assert_eq!(loader.list_plugins().len(), 2);
}

#[test]
fn hot_reload_loads_each_new_identifier_once_in_order() {
    let mut loader = PluginLoader::new(Config::default());
    let found = vec![
        metadata("d", "1.0.0", vec![]),
        metadata("e", "1.0.0", vec![]),
        metadata("d", "2.0.0", vec![]),
    ];
    let reloaded = loader.hot_reload(found).unwrap();
    assert_eq!(reloaded, vec!["d".to_string(), "e".to_string()]);
    let ids: Vec<String> = loader.list_plugins().iter().map(|m| m.id.clone()).collect();
    assert_eq!(ids, vec!["d".to_string(), "e".to_string()]);
    assert_eq!(loader.list_plugins()[0].version, "1.0.0");
}

#[test]
fn test_metadata_validation_empty_id() {
    let err = validate_metadata(&metadata("", "1.0.0", vec![])).unwrap_err();
    assert_eq!(message(err), "Plugin ID cannot be empty");
}

#[test]
fn test_metadata_validation_empty_name() {
    let mut m = metadata("p", "1.0.0", vec![]);
    m.name = String::new();
    assert_eq!(message(validate_metadata(&m).unwrap_err()), "Plugin name cannot be empty");
}

#[test]
fn test_metadata_validation_invalid_version() {
    let err = validate_metadata(&metadata("p", "1.0", vec![])).unwrap_err();
    assert_eq!(message(err), "Invalid version format: 1.0");
    assert!(validate_metadata(&metadata("p", "1.2.3-beta.1", vec![])).is_ok());
}

fn in_state(id: &str, state: PluginState) -> PluginStatus {
    let mut status = PluginStatus::new(id.to_string());
    status.update_state(state);
    status
}

#[test]
fn test_start_plugin() {
    let mut manager = PluginLifecycleManager::new();
    manager.add_plugin(in_state("test-plugin", PluginState::Initialized));
    manager.start("test-plugin").unwrap();
    assert_eq!(status_of(&manager, "test-plugin"), PluginState::Running);
}

#[test]
fn test_stop_plugin() {
    let mut manager = PluginLifecycleManager::new();
    manager.add_plugin(in_state("test-plugin", PluginState::Running));
    manager.stop("test-plugin").unwrap();
    assert_eq!(status_of(&manager, "test-plugin"), PluginState::Initialized);
}

#[test]
fn test_pause_plugin() {
    let mut manager = PluginLifecycleManager::new();
    manager.add_plugin(in_state("test-plugin", PluginState::Running));
    manager.pause("test-plugin").unwrap();
    assert_eq!(status_of(&manager, "test-plugin"), PluginState::Paused);
}

#[test]
fn test_resume_plugin() {
    let mut manager = PluginLifecycleManager::new();
    manager.add_plugin(in_state("test-plugin", PluginState::Paused));
    manager.resume("test-plugin").unwrap();
    assert_eq!(status_of(&manager, "test-plugin"), PluginState::Running);
}

#[test]
fn test_get_plugin_metadata() {
    let mut loader = PluginLoader::new(Config::default());
    let m = metadata("test-plugin", "1.0.0", vec![]);
    let name = m.name.clone();
    loader.load_plugin(m).unwrap();
    let retrieved = loader.get_plugin_metadata("test-plugin").unwrap();
    assert_eq!(retrieved.id, "test-plugin");
    assert_eq!(retrieved.name, name);
}

#[test]
fn test_get_plugin_status() {
    let mut loader = PluginLoader::new(Config::default());
    loader.load_plugin(metadata("test-plugin", "1.0.0", vec![])).unwrap();
    let status = loader.get_plugin_status("test-plugin").unwrap();
    assert_eq!(status.plugin_id, "test-plugin");
    assert_eq!(status.state, PluginState::Loaded);
    assert!(status.stats.load_time_ms > 0);
}

#[test]
fn test_check_dependencies_no_deps() {
    let mut loader = PluginLoader::new(Config::default());
    loader.load_plugin(metadata("test-plugin", "1.0.0", vec![])).unwrap();
    let missing = loader.check_dependencies("test-plugin").unwrap();
    assert!(missing.is_empty());
}

#[test]
fn test_check_dependencies_missing() {
    let mut loader = PluginLoader::new(Config::default());
    loader.load_plugin(metadata("test-plugin", "1.0.0", vec!["missing-plugin".to_string()])).unwrap();
    let result = loader.check_dependencies("test-plugin");
    assert!(result.is_err());
    assert_eq!(
        message(result.unwrap_err()),
        "Plugin test-plugin has missing dependencies: [\"missing-plugin\"]"
    );
}

#[test]
fn test_get_all_plugin_statuses() {
    let mut loader = PluginLoader::new(Config::default());
    loader.load_plugin(metadata("test-plugin", "1.0.0", vec![])).unwrap();
    let statuses = loader.get_all_plugin_statuses();
    assert_eq!(statuses.len(), 1);
    assert_eq!(statuses[0].plugin_id, "test-plugin");
}
