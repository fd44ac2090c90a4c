use fos::sandbox::config::{IsolationLevel, SandboxConfig, SandboxStatus};
use fos::sandbox::error::SandboxError;
use fos::sandbox::instance::{Sandbox, SandboxExecutor};
use fos::sandbox::isolation::{
    FilesystemIsolation, FilesystemIsolationStatus, IsolationConfig, IsolationManager,
    NetworkAccess, NetworkIsolation, PathAccess, ProcessIsolation, ProcessIsolationStatus,
};
use fos::sandbox::report::{CheckResult, ValidationResult};
use fos::sandbox::snapshot::{SandboxSnapshot, SnapshotManager, SnapshotStatus, SnapshotType};
use fos::sandbox::validator::{EnvironmentValidator, IsolationValidator, StatusValidator};

#[test]
fn test_sandbox_config_default() {
    let config = SandboxConfig::default();
    assert_eq!(config.timeout_secs, 300);
    assert_eq!(config.isolation_level, IsolationLevel::Full);
    assert_eq!(config.id.len(), 36);
}

#[test]
fn test_validation_result_new() {
    let result = ValidationResult::new();
    assert!(result.passed);
    assert!(result.errors.is_empty());
    assert!(result.warnings.is_empty());
}

#[test]
fn test_validation_result_add_error() {
    let mut result = ValidationResult::new();
    result.add_error("test", "error message".to_string());

    assert!(!result.passed);
    assert_eq!(result.errors.len(), 1);
    assert!(result.details.contains_key("test"));
}

#[test]
fn test_validation_result_add_warning() {
    let mut result = ValidationResult::new();
    result.add_warning("test", "warning message".to_string());

    assert!(result.passed);
    assert_eq!(result.warnings.len(), 1);
}

#[test]
fn details_keep_one_check_per_name() {
    let mut result = ValidationResult::new();
    result.add_pass("x");
    result.add_error("x", "bad".to_string());
    assert_eq!(result.details.len(), 1);
    let c: &CheckResult = result.details.get("x").unwrap();
    assert!(!c.passed);
    assert_eq!(c.message, Some("bad".to_string()));
    let mut other = ValidationResult::new();
    other.add_warning("y", "careful".to_string());
    result.merge(other);
    assert!(!result.passed);
    assert_eq!(result.details.len(), 2);
    assert_eq!(result.warnings, vec!["careful".to_string()]);
}

#[test]
fn test_environment_validator_config() {
    let config = SandboxConfig::default();
    let validator = EnvironmentValidator::new(config);

    let result = validator.validate_config();
    assert!(result.passed);
}

#[test]
fn test_environment_validator_invalid_timeout() {
    let mut config = SandboxConfig::default();
    config.timeout_secs = 0;

    let validator = EnvironmentValidator::new(config);
    let result = validator.validate_config();

    assert!(!result.passed);
    assert!(result.errors.iter().any(|e| e.contains("超时")));
}

#[test]
fn test_environment_validator_invalid_cpu() {
    let mut config = SandboxConfig::default();
    config.cpu_limit_percent = 150;

    let validator = EnvironmentValidator::new(config);
    let result = validator.validate_config();

    assert!(!result.passed);
    assert!(result.errors.iter().any(|e| e.contains("CPU")));
}

#[test]
fn resource_and_path_checks() {
    let mut config = SandboxConfig::default();
    config.memory_limit_mb = 9000;
    config.allowed_paths = vec!["relative/dir".to_string(), "/abs".to_string()];
    let validator = EnvironmentValidator::new(config);
    let r = validator.validate_resources();
    assert_eq!(r.errors, vec!["请求的内存 9000MB 超过可用内存 8192MB".to_string()]);
    let p = validator.validate_paths();
    assert_eq!(p.errors, vec!["路径 relative/dir 不是绝对路径".to_string()]);
    assert!(!p.details.contains_key("path_check"));
    let all = validator.validate_all();
    assert!(!all.passed);
    assert!(all.warnings.iter().any(|w| w.contains("内存限制超过4GB")));
}

#[test]
fn test_isolation_validator() {
    let config = IsolationConfig::default();
    let validator = IsolationValidator::new(config);

    let result = validator.validate_all();
    assert!(result.passed);
}

#[test]
fn test_isolation_validator_path_conflict() {
    let mut config = IsolationConfig::default();
    config.denied_paths.push("/denied".to_string());
    config.readonly_paths.push("/denied/file".to_string());

    let validator = IsolationValidator::new(config);
    let result = validator.validate_filesystem();

    assert!(!result.passed);
    assert_eq!(result.errors, vec!["只读路径 \"/denied/file\" 在禁止路径 \"/denied\" 下".to_string()]);
}

#[test]
fn duplicate_paths_and_network_conflicts_warn() {
    let mut config = IsolationConfig::default();
    config.readonly_paths.push("/a".to_string());
    config.readwrite_paths.push("/a/".to_string());
    config.allowed_networks.push("10.0".to_string());
    config.denied_networks.push("10.0.0".to_string());
    let validator = IsolationValidator::new(config);
    let fs = validator.validate_filesystem();
    assert!(fs.passed);
    assert_eq!(fs.warnings, vec!["路径 \"/a\" 重复定义".to_string()]);
    let net = validator.validate_network();
    assert!(net.passed);
    assert_eq!(net.warnings, vec!["允许网络 10.0 和禁止网络 10.0.0 可能冲突".to_string()]);
}

#[test]
fn test_status_validator_valid_transition() {
    let result = StatusValidator::validate_status_transition(SandboxStatus::Idle, SandboxStatus::Running);
    assert!(result.passed);
}

#[test]
fn test_status_validator_invalid_transition() {
    let result =
        StatusValidator::validate_status_transition(SandboxStatus::Success, SandboxStatus::Running);
    assert!(!result.passed);
    assert_eq!(result.errors, vec!["无效的状态转换: Success -> Running".to_string()]);
}

#[test]
fn test_validate_all() {
    let config = SandboxConfig::default();
    let validator = EnvironmentValidator::new(config);

    let result = validator.validate_all();
    assert!(result.passed);
}

#[test]
fn test_filesystem_isolation_lifecycle() {
    let config = IsolationConfig::default();
    let mut isolation = FilesystemIsolation::new(config);
    assert_eq!(isolation.status(), FilesystemIsolationStatus::Inactive);
    isolation.activate().unwrap();
    assert_eq!(isolation.status(), FilesystemIsolationStatus::Active);
    isolation.destroy().unwrap();
    assert_eq!(isolation.status(), FilesystemIsolationStatus::Destroyed);
}

#[test]
fn test_path_access_check() {
    let mut config = IsolationConfig::default();
    config.readonly_paths.push("/readonly".to_string());
    config.readwrite_paths.push("/readwrite".to_string());
    config.denied_paths.push("/denied".to_string());

    let mut isolation = FilesystemIsolation::new(config);
    assert_eq!(isolation.check_path_access("/readonly/file").unwrap(), PathAccess::Denied);
    isolation.activate().unwrap();

    assert_eq!(isolation.check_path_access("/readonly/file").unwrap(), PathAccess::ReadOnly);
    assert_eq!(isolation.check_path_access("/readwrite/file").unwrap(), PathAccess::ReadWrite);
    assert_eq!(isolation.check_path_access("/denied/file").unwrap(), PathAccess::Denied);
    assert_eq!(isolation.check_path_access("/other/file").unwrap(), PathAccess::Denied);
    assert_eq!(isolation.check_path_access("/readonlyx").unwrap(), PathAccess::Denied);
}

#[test]
fn test_network_isolation() {
    let mut config = IsolationConfig::default();
    config.allowed_networks.push("192.168.1".to_string());
    config.denied_networks.push("10.0.0".to_string());

    let mut isolation = NetworkIsolation::new(config);
    isolation.activate().unwrap();

    assert_eq!(isolation.check_network_access("192.168.1.100").unwrap(), NetworkAccess::Allowed);
    assert_eq!(isolation.check_network_access("10.0.0.1").unwrap(), NetworkAccess::Denied);
    assert_eq!(isolation.check_network_access("8.8.8.8").unwrap(), NetworkAccess::Denied);
}

#[test]
fn test_process_isolation() {
    let config = IsolationConfig::default();
    let mut isolation = ProcessIsolation::new(config);

    isolation.activate().unwrap();
    assert_eq!(isolation.status(), ProcessIsolationStatus::Active);

    isolation.register_child(1234).unwrap();
    isolation.register_child(5678).unwrap();

    let pids = isolation.get_child_pids();
    assert_eq!(pids.len(), 2);

    let count = isolation.terminate_all_children().unwrap();
    assert_eq!(count, 2);

    isolation.destroy().unwrap();
    assert_eq!(isolation.status(), ProcessIsolationStatus::Destroyed);
}

#[test]
fn test_isolation_manager() {
    let config = IsolationConfig::default();
    let mut manager = IsolationManager::new(config);

    manager.activate_all().unwrap();
    assert!(manager.is_all_active());

    manager.destroy_all().unwrap();
    assert!(!manager.is_all_active());
}

#[test]
fn test_sandbox_lifecycle() {
    let mut sandbox = Sandbox::new(SandboxConfig::default());

    sandbox.start().unwrap();
    assert_eq!(sandbox.status(), SandboxStatus::Running);

    let result = sandbox.execute("test command").unwrap();
    assert!(result.contains("成功"));
    assert_eq!(result, "沙箱执行成功: test command");

    sandbox.stop().unwrap();
    assert_eq!(sandbox.status(), SandboxStatus::Success);
}

#[test]
fn executor_runs_each_step() {
    let mut executor = SandboxExecutor::new(Sandbox::new(SandboxConfig::default()));
    let out = executor.execute(vec!["a".to_string(), "b".to_string()]).unwrap();
    assert_eq!(out, vec!["沙箱执行成功: a".to_string(), "沙箱执行成功: b".to_string()]);
}

#[test]
fn sandbox_error_messages() {
    assert_eq!(SandboxError::Timeout("5s".to_string()).message(), "沙箱超时: 5s");
}

fn snapshot_json(text: &str) -> serde_json::Value {
    serde_json::from_str(text).unwrap()
}

fn snapshot_message(e: SandboxError) -> String {
    match e {
        SandboxError::Snapshot(m) => m,
        _ => panic!("expected a snapshot error"),
    }
}

#[test]
fn sandbox_snapshot_test_create_snapshot() {
    let mut manager = SnapshotManager::new();
    let snapshot = SandboxSnapshot::new("sandbox-1".to_string(), SnapshotType::Full);
    let id = manager.create(snapshot).unwrap();
    assert!(!id.is_empty());
    assert_eq!(manager.count(), 1);
}

#[test]
fn test_get_snapshot() {
    let mut manager = SnapshotManager::new();
    let snapshot = SandboxSnapshot::new("sandbox-1".to_string(), SnapshotType::Full);
    let id = manager.create(snapshot).unwrap();
    let retrieved = manager.get(&id).unwrap();
    assert_eq!(retrieved.id, id);
    assert_eq!(retrieved.sandbox_id, "sandbox-1");
    assert_eq!(snapshot_message(manager.get("nope").unwrap_err()), "快照 nope 不存在");
}

#[test]
fn test_get_sandbox_snapshots() {
    let mut manager = SnapshotManager::new();
    manager.create(SandboxSnapshot::new("sandbox-1".to_string(), SnapshotType::Full)).unwrap();
    manager.create(SandboxSnapshot::new("sandbox-1".to_string(), SnapshotType::Incremental)).unwrap();
    let snapshots = manager.get_sandbox_snapshots("sandbox-1").unwrap();
    assert_eq!(snapshots.len(), 2);
    assert_eq!(snapshots[0].snapshot_type, SnapshotType::Full);
    assert!(manager.get_sandbox_snapshots("other").unwrap().is_empty());
}

#[test]
fn sandbox_snapshot_test_get_latest_snapshot() {
    let mut manager = SnapshotManager::new();
    let s1 = SandboxSnapshot::new_at("sandbox-1".to_string(), SnapshotType::Full, 1_000);
    let s2 = SandboxSnapshot::new_at("sandbox-1".to_string(), SnapshotType::Checkpoint, 1_010);
    manager.create(s1).unwrap();
    manager.create(s2).unwrap();
    let latest = manager.get_latest("sandbox-1").unwrap();
    assert_eq!(latest.snapshot_type, SnapshotType::Checkpoint);
    assert_eq!(snapshot_message(manager.get_latest("sandbox-9").unwrap_err()), "沙箱 sandbox-9 没有快照");
}

#[test]
fn latest_snapshot_ties_go_to_the_later_one() {
    let mut manager = SnapshotManager::new();
    let s1 = SandboxSnapshot::new_at("sb".to_string(), SnapshotType::Full, 5);
    let s2 = SandboxSnapshot::new_at("sb".to_string(), SnapshotType::Incremental, 5);
    let s3 = SandboxSnapshot::new_at("sb".to_string(), SnapshotType::Checkpoint, 4);
    manager.create(s1).unwrap();
    manager.create(s2).unwrap();
    manager.create(s3).unwrap();
    assert_eq!(manager.get_latest("sb").unwrap().snapshot_type, SnapshotType::Incremental);
}

#[test]
fn test_restore_snapshot() {
    let mut manager = SnapshotManager::new();
    let id = manager.create(SandboxSnapshot::new("sandbox-1".to_string(), SnapshotType::Full)).unwrap();
    let restored = manager.restore(&id).unwrap();
    assert_eq!(restored.status, SnapshotStatus::Restored);
}

#[test]
fn restore_of_expired_snapshot_is_refused() {
    let mut manager = SnapshotManager::new();
    let s = SandboxSnapshot::new_at("sb".to_string(), SnapshotType::Full, 0).with_expiry_at(1, 0);
    let id = manager.create(s).unwrap();
    let err = manager.restore_at(&id, 3_600_001).unwrap_err();
    assert_eq!(snapshot_message(err), format!("快照 {} 已过期", id));
    assert_eq!(manager.get(&id).unwrap().status, SnapshotStatus::Created);
    assert!(manager.restore_at(&id, 3_600_000).is_ok());
}

#[test]
fn sandbox_snapshot_test_delete_snapshot() {
    let mut manager = SnapshotManager::new();
    let id = manager.create(SandboxSnapshot::new("sandbox-1".to_string(), SnapshotType::Full)).unwrap();
    assert_eq!(manager.count(), 1);
    manager.delete(&id).unwrap();
    assert_eq!(manager.count(), 0);
    assert_eq!(manager.count_for_sandbox("sandbox-1"), 0);
    assert!(manager.delete(&id).is_err());
}

#[test]
fn test_cleanup_expired() {
    let mut manager = SnapshotManager::new();
    let mut snapshot = SandboxSnapshot::new("sandbox-1".to_string(), SnapshotType::Full);
    snapshot.expires_at = Some(snapshot.created_at - 3_600_000);
    manager.create(snapshot).unwrap();
    manager.create(SandboxSnapshot::new("sandbox-1".to_string(), SnapshotType::Full)).unwrap();
    assert_eq!(manager.count(), 2);
    let cleaned = manager.cleanup_expired().unwrap();
    assert_eq!(cleaned, 1);
    assert_eq!(manager.count(), 1);
    assert_eq!(manager.count_for_sandbox("sandbox-1"), 1);
}

#[test]
fn test_snapshot_with_state() {
    let snapshot = SandboxSnapshot::new("sandbox-1".to_string(), SnapshotType::Full)
        .with_filesystem_state(snapshot_json("{\"root\": \"/tmp/sandbox\"}"))
        .with_network_state(snapshot_json("{\"namespace\": \"ns1\"}"))
        .with_process_state(snapshot_json("{\"pids\": [1, 2, 3]}"));
    assert_eq!(snapshot.filesystem_state["root"], "/tmp/sandbox");
    assert_eq!(snapshot.network_state["namespace"], "ns1");
    assert_eq!(snapshot.process_state["pids"].as_array().unwrap().len(), 3);
}

#[test]
fn test_max_snapshots_limit() {
    let mut manager = SnapshotManager::new().with_max_snapshots(2);
    manager.create(SandboxSnapshot::new("sandbox-1".to_string(), SnapshotType::Full)).unwrap();
    manager.create(SandboxSnapshot::new("sandbox-2".to_string(), SnapshotType::Full)).unwrap();
    let result = manager.create(SandboxSnapshot::new("sandbox-3".to_string(), SnapshotType::Full));
    assert!(result.is_err());
    assert_eq!(snapshot_message(result.unwrap_err()), "快照数量已达上限");
}
