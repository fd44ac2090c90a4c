use fos::shutdown::cleaner::ResourceCleaner;
use fos::shutdown::config::ShutdownConfig;
use fos::shutdown::coordinator::ShutdownCoordinator;
use fos::shutdown::error::Error;
use fos::shutdown::signal::{ShutdownSignal, SignalHandler};
use fos::shutdown::state::{Shutdown, ShutdownState};
use fos::shutdown::waiter::{TaskStatus, TaskWaiter};
use std::sync::{Arc, Mutex};

#[test]
fn test_cleaner_creation() {
    let cleaner = ResourceCleaner::new();
    assert_eq!(cleaner.pending_count(), 0);
}

#[test]
fn test_register_cleanup() {
    let mut cleaner = ResourceCleaner::new();
    cleaner.register("test", 1, || Ok(()));

    assert_eq!(cleaner.pending_count(), 1);
}

#[test]
fn test_cleanup_all() {
    let mut cleaner = ResourceCleaner::new();
    cleaner.register("test1", 2, || Ok(()));
    cleaner.register("test2", 1, || Ok(()));

    cleaner.cleanup_all().unwrap();

    assert!(cleaner.is_cleaned());
    assert_eq!(cleaner.pending_count(), 0);
}

#[test]
fn cleanups_run_by_priority_then_registration_order() {
    let log = Arc::new(Mutex::new(Vec::new()));
    let mut cleaner = ResourceCleaner::new();
    for (name, prio) in [("a", 1u32), ("b", 5), ("c", 1), ("d", 5), ("e", 3)] {
        let log = log.clone();
        cleaner.register(name, prio, move || {
            log.lock().unwrap().push(name);
            Err(Error::CleanupFailed(name.to_string()))
        });
    }
    assert_eq!(cleaner.cleanup_order(), vec![1, 3, 4, 0, 2]);
    cleaner.cleanup_all().unwrap();
    assert_eq!(*log.lock().unwrap(), vec!["b", "d", "e", "a", "c"]);
    cleaner.cleanup_all().unwrap();
    assert_eq!(log.lock().unwrap().len(), 5);
}

#[test]
fn test_default_config() {
    let config = ShutdownConfig::default();
    assert!(config.wait_for_tasks);
    assert!(config.enable_cleanup);
    let c = ShutdownConfig::new().with_timeout(5).without_task_wait();
    assert_eq!(c.timeout_secs, 5);
    assert!(!c.wait_for_tasks);
    assert_eq!(c.task_wait_timeout_secs, 10);
}

#[test]
fn test_coordinator_creation() {
    let coordinator = ShutdownCoordinator::new();
    assert!(!coordinator.signal_handler().is_shutdown_requested());
}

#[test]
fn test_shutdown() {
    let mut coordinator = ShutdownCoordinator::new();
    let result = coordinator.shutdown();
    assert!(result.is_ok());
    assert!(coordinator.resource_cleaner().is_cleaned());
}

#[test]
fn test_report() {
    let coordinator = ShutdownCoordinator::new();
    let report = coordinator.report();
    assert!(report.contains("关闭报告"));
    assert_eq!(report, "=== 关闭报告 ===\n信号: None\n运行任务数: 0\n已清理: false\n运行时间: 0ms\n");
}

#[test]
fn report_after_signal_and_tasks() {
    let mut coordinator = ShutdownCoordinator::new();
    coordinator.signal_handler_mut().receive_signal(ShutdownSignal::Terminate);
    coordinator.task_waiter_mut().register_task("t", "任务");
    let report = coordinator.report();
    assert!(report.starts_with("=== 关闭报告 ===\n信号: Some(Terminate)\n运行任务数: 1\n已清理: false\n"));
}

#[test]
fn test_error_display() {
    let err = Error::Timeout("30秒超时".to_string());
    assert!(err.message().contains("超时"));
    assert_eq!(err.message(), "关闭超时: 30秒超时");
}

#[test]
fn test_shutdown_creation() {
    let shutdown = Shutdown::default();
    assert_eq!(shutdown.state(), ShutdownState::Running);
}

#[test]
fn test_shutdown_state() {
    let mut shutdown = Shutdown::default();
    shutdown.shutdown().unwrap();
    assert!(shutdown.is_shutdown());
    shutdown.shutdown().unwrap();
    assert!(shutdown.is_shutdown());
    assert!(!shutdown.is_shutting_down());
}

#[test]
fn test_shutdown_report() {
    let shutdown = Shutdown::default();
    let report = shutdown.generate_report();
    assert!(report.contains("Shutdown Report"));
    assert_eq!(report, "=== Shutdown Report ===\nState: Running\n");
}

#[test]
fn test_signal_handler_creation() {
    let handler = SignalHandler::new();
    assert!(!handler.is_shutdown_requested());
}

#[test]
fn test_receive_signal() {
    let mut handler = SignalHandler::new();
    handler.receive_signal(ShutdownSignal::Interrupt);

    assert!(handler.is_shutdown_requested());
    assert_eq!(handler.get_signal(), Some(ShutdownSignal::Interrupt));
    assert_eq!(handler.poll_signal(), Some(ShutdownSignal::Interrupt));
}

#[test]
fn test_reset() {
    let mut handler = SignalHandler::new();
    handler.receive_signal(ShutdownSignal::Terminate);
    handler.reset();

    assert!(!handler.is_shutdown_requested());
    assert_eq!(handler.poll_signal(), None);
}

#[test]
fn test_task_waiter_creation() {
    let waiter = TaskWaiter::new();
    assert_eq!(waiter.running_count(), 0);
}

#[test]
fn test_register_task() {
    let mut waiter = TaskWaiter::new();
    waiter.register_task("task-1", "测试任务");

    assert_eq!(waiter.running_count(), 1);
}

#[test]
fn test_complete_task() {
    let mut waiter = TaskWaiter::new();
    waiter.register_task("task-1", "测试任务");
    waiter.complete_task("task-1").unwrap();

    assert_eq!(waiter.running_count(), 0);
    assert_eq!(waiter.get_tasks()[0].status, TaskStatus::Completed);
}

#[test]
fn test_get_tasks() {
    let mut waiter = TaskWaiter::new();
    waiter.register_task("task-1", "任务1");

    let tasks = waiter.get_tasks();
    assert_eq!(tasks.len(), 1);
}

#[test]
fn waiting_times_out_with_the_running_count() {
    let mut waiter = TaskWaiter::new();
    assert!(matches!(waiter.wait_poll(0, 10), Some(Ok(()))));
    waiter.register_task("a", "A");
    waiter.register_task("b", "B");
    waiter.fail_task("b").unwrap();
    assert!(waiter.wait_poll(5, 10).is_none());
    match waiter.wait_poll(11, 10) {
        Some(Err(Error::Timeout(m))) => assert_eq!(m, "等待任务超时，仍有 1 个任务运行中"),
        _ => panic!("expected a timeout"),
    }
    waiter.clear();
    assert_eq!(waiter.running_count(), 0);
    assert!(waiter.get_tasks().is_empty());
}

#[test]
fn register_then_complete_restores_running_count() {
    let mut waiter = TaskWaiter::new();
    let before = waiter.running_count();
    waiter.register_task("t", "task");
    assert_eq!(waiter.running_count(), before + 1);
    waiter.complete_task("t").unwrap();
    assert_eq!(waiter.running_count(), before);
    waiter.complete_task("unknown").unwrap();
    assert_eq!(waiter.running_count(), before);
}

#[test]
fn running_count_counts_running_tasks_once() {
    let mut waiter = TaskWaiter::new();
    waiter.register_task("a", "A");
    waiter.register_task("a", "A again");
    assert_eq!(waiter.running_count(), 1);
    assert_eq!(waiter.get_tasks().len(), 1);
    waiter.complete_task("a").unwrap();
    waiter.complete_task("a").unwrap();
    assert_eq!(waiter.running_count(), 0);
    waiter.register_task("a", "A");
    assert_eq!(waiter.running_count(), 1);
    waiter.fail_task("a").unwrap();
    assert_eq!(waiter.running_count(), 0);
    assert_eq!(waiter.get_tasks()[0].status, TaskStatus::Failed);
}
