use fos::rollback::config::Config;
use fos::rollback::executor::action_type_debug_text;
use fos::rollback::snapshot::{snapshot_status_text, HOUR_MS};
use fos::rollback::{
    Error, RollbackAction, RollbackActionStatus, RollbackActionType, RollbackExecutor,
    RollbackResult, RollbackVerifier, Snapshot, SnapshotManager, SnapshotStatus, SnapshotType,
    VerificationCheck, VerificationCheckType, VerificationResult, VerificationStatus,
};

fn json(text: &str) -> serde_json::Value {
    serde_json::from_str(text).unwrap()
}

fn message(e: Error) -> String {
    match e {
        Error::Rollback(m) => m,
        Error::Config(m) => format!("config: {}", m),
    }
}

fn with_rollback(manager: &mut SnapshotManager, op: &str) -> String {
    manager
        .create_snapshot_with_rollback(
            op.to_string(),
            SnapshotType::Full,
            json("{\"data\": \"value\"}"),
            json("{\"rollback\": \"data\"}"),
        )
        .unwrap()
}

#[test]
fn snapshot_test_create_snapshot() {
    let mut manager = SnapshotManager::new();
    let id = manager
        .create_snapshot("op-001".to_string(), SnapshotType::Full, json("{\"key\": \"value\"}"))
        .unwrap();
    assert!(!id.is_empty());
    let snapshot = manager.get_snapshot(&id).unwrap();
    assert_eq!(snapshot.operation_id, "op-001");
}

#[test]
fn test_create_snapshot_with_rollback() {
    let mut manager = SnapshotManager::new();
    let id = with_rollback(&mut manager, "op-001");
    let snapshot = manager.get_snapshot(&id).unwrap();
    assert!(snapshot.rollback_data.is_some());
}

#[test]
fn snapshot_test_get_latest_snapshot() {
    let mut manager = SnapshotManager::new();
    manager.create_snapshot("op-001".to_string(), SnapshotType::Full, json("{}")).unwrap();
    manager.create_snapshot("op-001".to_string(), SnapshotType::Incremental, json("{}")).unwrap();
    let latest = manager.get_latest_snapshot("op-001").unwrap();
    assert_eq!(latest.snapshot_type, SnapshotType::Incremental);
}

#[test]
fn test_mark_used() {
    let mut manager = SnapshotManager::new();
    let id = manager.create_snapshot("op-001".to_string(), SnapshotType::Full, json("{}")).unwrap();
    manager.mark_used(&id).unwrap();
    assert_eq!(manager.get_snapshot(&id).unwrap().status, SnapshotStatus::Used);
}

#[test]
fn test_mark_rolled_back() {
    let mut manager = SnapshotManager::new();
    let id = manager.create_snapshot("op-001".to_string(), SnapshotType::Full, json("{}")).unwrap();
    manager.mark_rolled_back(&id).unwrap();
    assert_eq!(manager.get_snapshot(&id).unwrap().status, SnapshotStatus::RolledBack);
}

#[test]
fn snapshot_test_delete_snapshot() {
    let mut manager = SnapshotManager::new();
    let id = manager.create_snapshot("op-001".to_string(), SnapshotType::Full, json("{}")).unwrap();
    manager.delete_snapshot(&id).unwrap();
    assert!(manager.get_snapshot(&id).is_err());
    assert_eq!(manager.count_for_operation("op-001"), 0);
}

#[test]
fn test_max_levels_limit() {
    let config = Config { max_rollback_levels: 2, auto_rollback: false };
    let mut manager = SnapshotManager::with_config(config);
    manager.create_snapshot("op-001".to_string(), SnapshotType::Full, json("{}")).unwrap();
    manager.create_snapshot("op-001".to_string(), SnapshotType::Full, json("{}")).unwrap();
    let result = manager.create_snapshot("op-001".to_string(), SnapshotType::Full, json("{}"));
    assert!(result.is_err());
    match result {
        Err(Error::Config(m)) => assert_eq!(m, "操作 op-001 的快照数量已达上限 2"),
        _ => panic!("expected a limit error"),
    }
    // another operation is not limited by the first
    assert!(manager.create_snapshot("op-002".to_string(), SnapshotType::Full, json("{}")).is_ok());
}

#[test]
fn test_get_operation_snapshots() {
    let mut manager = SnapshotManager::new();
    manager.create_snapshot("op-001".to_string(), SnapshotType::Full, json("{}")).unwrap();
    manager.create_snapshot("op-001".to_string(), SnapshotType::Incremental, json("{}")).unwrap();
    let snapshots = manager.get_operation_snapshots("op-001").unwrap();
    assert_eq!(snapshots.len(), 2);
    assert_eq!(snapshots[0].snapshot_type, SnapshotType::Full);
    assert_eq!(snapshots[1].snapshot_type, SnapshotType::Incremental);
}

#[test]
fn test_count() {
    let mut manager = SnapshotManager::new();
    manager.create_snapshot("op-001".to_string(), SnapshotType::Full, json("{}")).unwrap();
    manager.create_snapshot("op-002".to_string(), SnapshotType::Full, json("{}")).unwrap();
    assert_eq!(manager.count(), 2);
    assert_eq!(manager.count_for_operation("op-001"), 1);
}

#[test]
fn test_clear() {
    let mut manager = SnapshotManager::new();
    manager.create_snapshot("op-001".to_string(), SnapshotType::Full, json("{}")).unwrap();
    manager.clear().unwrap();
    assert_eq!(manager.count(), 0);
}

#[test]
fn test_snapshot_expiry() {
    let snapshot = Snapshot::new_at("op-001".to_string(), SnapshotType::Full, json("{}"), 1_000)
        .with_expiry_at(0, 1_000);
    assert_eq!(snapshot.expires_at, Some(1_000));
    assert!(snapshot.is_expired_at(1_010));
    assert!(!snapshot.is_expired_at(1_000));
    let later = Snapshot::new("op-001".to_string(), SnapshotType::Full, json("{}")).with_expiry(0);
    let start = std::time::Instant::now();
    while start.elapsed() < std::time::Duration::from_millis(10) {}
    assert!(later.is_expired());
}

#[test]
fn snapshot_expiry_hours() {
    let snapshot = Snapshot::new_at("op".to_string(), SnapshotType::Checkpoint, json("{}"), 5)
        .with_expiry_at(2, 5);
    assert_eq!(snapshot.expires_at, Some(5 + 2 * HOUR_MS));
    let never = Snapshot::new("op".to_string(), SnapshotType::Full, json("{}"));
    assert!(!never.is_expired());
}

#[test]
fn snapshot_errors_name_the_missing_item() {
    let mut manager = SnapshotManager::new();
    assert_eq!(message(manager.get_snapshot("nope").unwrap_err()), "快照 nope 不存在");
    assert_eq!(message(manager.get_latest_snapshot("op-x").unwrap_err()), "操作 op-x 没有快照");
    assert_eq!(message(manager.get_operation_snapshots("op-x").unwrap_err()), "操作 op-x 没有快照");
    assert_eq!(message(manager.mark_used("nope").unwrap_err()), "快照 nope 不存在");
    assert_eq!(message(manager.delete_snapshot("nope").unwrap_err()), "快照 nope 不存在");
}

#[test]
fn snapshot_cleanup_expired_removes_only_expired() {
    let mut manager = SnapshotManager::new();
    manager.create_snapshot("op-001".to_string(), SnapshotType::Full, json("{}")).unwrap();
    assert_eq!(manager.cleanup_expired(i64::MAX).unwrap(), 0);
    assert_eq!(manager.count(), 1);
}

#[test]
fn snapshot_metadata_and_status_text() {
    let mut s = Snapshot::new("op".to_string(), SnapshotType::Full, json("{}"));
    s.add_metadata("k", "v");
    s.add_metadata("k", "w");
    assert_eq!(s.metadata.len(), 1);
    assert_eq!(s.metadata.get("k"), Some(&"w".to_string()));
    assert_eq!(snapshot_status_text(SnapshotStatus::RolledBack), "RolledBack");
    assert_eq!(snapshot_status_text(SnapshotStatus::Created), "Created");
}

#[test]
fn test_execute_rollback() {
    let mut manager = SnapshotManager::new();
    let mut executor = RollbackExecutor::new();
    let id = with_rollback(&mut manager, "op-001");
    let result = executor.execute(&mut manager, &id).unwrap();
    assert!(result.success);
    assert_eq!(result.actions_executed, 4);
    assert_eq!(result.actions_failed, 0);
    assert!(result.error.is_none());
    assert_eq!(manager.get_snapshot(&id).unwrap().status, SnapshotStatus::RolledBack);
}

#[test]
fn test_rollback_operation() {
    let mut manager = SnapshotManager::new();
    let mut executor = RollbackExecutor::new();
    with_rollback(&mut manager, "op-001");
    let result = executor.rollback_operation(&mut manager, "op-001").unwrap();
    assert!(result.success);
    assert_eq!(
        message(executor.rollback_operation(&mut manager, "op-404").unwrap_err()),
        "操作 op-404 没有快照"
    );
}

#[test]
fn test_multi_level_rollback() {
    let mut manager = SnapshotManager::new();
    let mut executor = RollbackExecutor::new();
    let mut ids = Vec::new();
    for i in 0..3 {
        ids.push(
            manager
                .create_snapshot_with_rollback(
                    "op-001".to_string(),
                    SnapshotType::Incremental,
                    json(&format!("{{\"version\": {}}}", i)),
                    json(&format!("{{\"rollback\": {}}}", i)),
                )
                .unwrap(),
        );
    }
    let results = executor.execute_multi_level(&mut manager, "op-001", 2).unwrap();
    assert_eq!(results.len(), 2);
    assert_eq!(results[0].snapshot_id, ids[2]);
    assert_eq!(results[1].snapshot_id, ids[1]);
    assert_eq!(manager.get_snapshot(&ids[0]).unwrap().status, SnapshotStatus::Created);
    assert_eq!(manager.get_snapshot(&ids[1]).unwrap().status, SnapshotStatus::RolledBack);
    assert_eq!(manager.get_snapshot(&ids[2]).unwrap().status, SnapshotStatus::RolledBack);
}

#[test]
fn multi_level_rollback_needs_enough_snapshots() {
    let mut manager = SnapshotManager::new();
    let mut executor = RollbackExecutor::new();
    with_rollback(&mut manager, "op-001");
    let err = executor.execute_multi_level(&mut manager, "op-001", 3).unwrap_err();
    assert_eq!(message(err), "操作 op-001 只有 1 个快照，无法回滚 3 级");
    assert_eq!(executor.execution_count(), 0);
}

#[test]
fn test_already_rolled_back() {
    let mut manager = SnapshotManager::new();
    let mut executor = RollbackExecutor::new();
    let id = with_rollback(&mut manager, "op-001");
    executor.execute(&mut manager, &id).unwrap();
    let result = executor.execute(&mut manager, &id);
    assert!(result.is_err());
    assert_eq!(message(result.unwrap_err()), format!("快照 {} 已回滚", id));
    assert_eq!(executor.execution_count(), 1);
}

#[test]
fn test_no_rollback_data() {
    let mut manager = SnapshotManager::new();
    let mut executor = RollbackExecutor::new();
    let id = manager.create_snapshot("op-001".to_string(), SnapshotType::Full, json("{}")).unwrap();
    let result = executor.execute(&mut manager, &id);
    assert!(result.is_err());
    assert_eq!(message(result.unwrap_err()), format!("快照 {} 没有回滚数据", id));
}

#[test]
fn rollback_of_unknown_snapshot_is_refused() {
    let mut manager = SnapshotManager::new();
    let mut executor = RollbackExecutor::new();
    let err = executor.execute(&mut manager, "ghost").unwrap_err();
    assert_eq!(message(err), "快照 ghost 不存在");
}

#[test]
fn test_execution_history() {
    let mut manager = SnapshotManager::new();
    let mut executor = RollbackExecutor::new();
    let id = with_rollback(&mut manager, "op-001");
    executor.execute(&mut manager, &id).unwrap();
    assert_eq!(executor.execution_count(), 1);
    let history = executor.get_history();
    assert_eq!(history.len(), 1);
    assert_eq!(history[0].snapshot_id, id);
    executor.clear_history();
    assert_eq!(executor.execution_count(), 0);
}

#[test]
fn test_rollback_action() {
    let mut action = RollbackAction::new("snap-001".to_string(), RollbackActionType::DataRestore, 1);
    assert_eq!(action.status, RollbackActionStatus::Pending);
    action.mark_executing();
    assert_eq!(action.status, RollbackActionStatus::Executing);
    action.mark_completed("成功".to_string());
    assert_eq!(action.status, RollbackActionStatus::Completed);
    assert!(action.executed_at.is_some());
}

#[test]
fn test_rollback_action_failed() {
    let mut action = RollbackAction::new("snap-001".to_string(), RollbackActionType::DataRestore, 1);
    action.mark_failed("执行失败".to_string());
    assert_eq!(action.status, RollbackActionStatus::Failed);
    assert!(action.error.is_some());
}

#[test]
fn test_rollback_action_skipped() {
    let mut action = RollbackAction::new("snap-001".to_string(), RollbackActionType::DataRestore, 1);
    action.mark_skipped("条件不满足".to_string());
    assert_eq!(action.status, RollbackActionStatus::Skipped);
    assert!(action.result.is_some());
}

#[test]
fn rollback_action_times_and_debug_text() {
    let mut action = RollbackAction::new("s".to_string(), RollbackActionType::StateReset, 2);
    assert_eq!(action.id.len(), 36);
    action.mark_completed_at("ok".to_string(), 42);
    assert_eq!(action.executed_at, Some(42));
    assert_eq!(action.result, Some("ok".to_string()));
    assert_eq!(action_type_debug_text(&RollbackActionType::NotificationSend), "NotificationSend");
    assert_eq!(
        action_type_debug_text(&RollbackActionType::Custom("a\"b".to_string())),
        format!("{:?}", RollbackActionType::Custom("a\"b".to_string()))
    );
}

#[test]
fn test_verify_rollback() {
    let mut manager = SnapshotManager::new();
    let mut executor = RollbackExecutor::new();
    let verifier = RollbackVerifier::new();
    let id = with_rollback(&mut manager, "op-001");
    let rollback_result = executor.execute(&mut manager, &id).unwrap();
    let result = verifier.verify(&manager, &rollback_result).unwrap();
    assert!(result.is_passed());
    assert_eq!(result.passed_count, 4);
}

#[test]
fn test_quick_verify() {
    let mut manager = SnapshotManager::new();
    let mut executor = RollbackExecutor::new();
    let verifier = RollbackVerifier::new();
    let id = with_rollback(&mut manager, "op-001");
    let rollback_result = executor.execute(&mut manager, &id).unwrap();
    assert!(verifier.quick_verify(&manager, &rollback_result).unwrap());
}

#[test]
fn verify_flags_a_snapshot_not_rolled_back() {
    let mut manager = SnapshotManager::new();
    let verifier = RollbackVerifier::new();
    let id = with_rollback(&mut manager, "op-001");
    let fake = RollbackResult {
        success: false,
        snapshot_id: id.clone(),
        actions_executed: 3,
        actions_failed: 1,
        duration_ms: 0,
        error: Some("1 个动作失败".to_string()),
        completed_at: 0,
    };
    let v = verifier.verify_at(&manager, &fake, 7).unwrap();
    assert!(!v.is_passed());
    assert_eq!(v.status, VerificationStatus::Failed);
    assert_eq!(v.passed_count, 2);
    assert_eq!(v.failed_count, 2);
    assert_eq!(v.verified_at, Some(7));
    assert_eq!(v.checks[0].error, Some("快照状态不是已回滚: Created".to_string()));
    assert_eq!(v.checks[1].error, Some("1 个动作失败".to_string()));
    let missing = RollbackResult { snapshot_id: "gone".to_string(), ..fake.clone() };
    assert_eq!(message(verifier.verify(&manager, &missing).unwrap_err()), "快照 gone 不存在");
    assert!(verifier.verify_batch(&manager, &[fake.clone(), missing]).is_err());
    let batch = verifier.verify_batch(&manager, &[fake]).unwrap();
    assert_eq!(batch.len(), 1);
}

#[test]
fn test_verification_result() {
    let mut result = VerificationResult::new("snap-001".to_string());
    result.add_check(VerificationCheck {
        name: "测试1".to_string(),
        check_type: VerificationCheckType::DataConsistency,
        passed: true,
        error: None,
    });
    result.add_check(VerificationCheck {
        name: "测试2".to_string(),
        check_type: VerificationCheckType::StateConsistency,
        passed: false,
        error: Some("失败".to_string()),
    });
    result.finalize();
    assert_eq!(result.passed_count, 1);
    assert_eq!(result.failed_count, 1);
    assert!(!result.is_passed());
}

#[test]
fn test_verification_status() {
    let mut result = VerificationResult::new("snap-001".to_string());
    assert_eq!(result.status, VerificationStatus::Pending);
    result.mark_verifying();
    assert_eq!(result.status, VerificationStatus::Verifying);
    result.finalize();
    assert!(
        result.status == VerificationStatus::Passed || result.status == VerificationStatus::Failed
    );
}
