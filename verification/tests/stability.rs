use fos::stability::{StabilityTestError, StabilityTestRunner, TestConfig};
use std::time::Duration;

#[test]
fn test_config_builders() {
    let c = TestConfig::new()
        .with_name("t".to_string())
        .with_duration(Duration::from_secs(3))
        .with_max_concurrent(4)
        .with_operation_interval(Duration::from_millis(7))
        .with_memory_monitoring(false)
        .with_cpu_monitoring(false);
    assert_eq!(c.name, "t");
    assert_eq!(c.duration, Duration::from_secs(3));
    assert_eq!(c.max_concurrent, 4);
    assert_eq!(c.operation_interval, Duration::from_millis(7));
    assert!(!c.enable_memory_monitoring);
    assert!(!c.enable_cpu_monitoring);
}

#[test]
fn test_config_default() {
    let c = TestConfig::default();
    assert!(c.name.is_empty());
    assert_eq!(c.duration, Duration::from_secs(10));
    assert_eq!(c.max_concurrent, 10);
    assert_eq!(c.operation_interval, Duration::from_millis(10));
    assert!(c.enable_memory_monitoring && c.enable_cpu_monitoring);
}

#[test]
fn runner_starts_idle() {
    let mut runner = StabilityTestRunner::new(TestConfig::new().with_name("x".to_string()));
    assert!(!runner.running());
    assert_eq!(runner.config().name, "x");
    runner.set_running(true);
    assert!(runner.running());
}

#[test]
fn error_messages() {
    assert_eq!(
        StabilityTestError::MemoryLimitExceeded(10, 5).message(),
        "内存使用超过限制: 10 bytes, 限制: 5 bytes"
    );
    assert_eq!(StabilityTestError::Timeout("x".to_string()).message(), "测试超时: x");
}
