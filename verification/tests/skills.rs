use fos::skills::adapter::{AdaptationRule, DeviceAdapter, DeviceConfig, DeviceRegistry, DeviceType};
use fos::skills::definition::{
    constraints_allow, DeviceConstraint, ExecutionStep, OutputDefinition, ParamType, SkillDependency,
    SkillVersion,
};
use fos::skills::error::SkillsError;
use fos::skills::skill::{Skill, SkillDefinition, SkillRegistry, SkillStatus};
use fos::skills::version::{LockType, VersionLock, VersionManager};

#[test]
fn test_device_type_display() {
    assert_eq!(DeviceType::Sensor.to_string(), "sensor");
    assert_eq!(DeviceType::Custom("special".to_string()).to_string(), "custom:special");
}

#[test]
fn test_device_config() {
    let mut config =
        DeviceConfig::new("device-1".to_string(), "温度传感器".to_string(), DeviceType::Sensor);
    config.add_capability("temperature_read".to_string());
    assert!(config.supports_capability("temperature_read"));
    assert!(!config.supports_capability("humidity_read"));
}

#[test]
fn test_adaptation_rule() {
    let mut rule =
        AdaptationRule::new("传感器适配".to_string(), DeviceType::Sensor, DeviceType::Gateway);
    rule.add_parameter_mapping("temp".to_string(), "temperature".to_string());
    rule.add_command_mapping("read".to_string(), "fetch_data".to_string());
    assert_eq!(rule.map_parameter_key("temp"), "temperature");
    assert_eq!(rule.map_parameter_key("other"), "other");
    assert_eq!(rule.apply_command_mapping("read"), "fetch_data");
}

#[test]
fn test_device_adapter() {
    let mut adapter = DeviceAdapter::new();
    let mut low = AdaptationRule::new("低".to_string(), DeviceType::Sensor, DeviceType::Controller);
    low.add_command_mapping("go".to_string(), "low".to_string());
    let mut high = AdaptationRule::new("高".to_string(), DeviceType::Sensor, DeviceType::Controller)
        .with_priority(5);
    high.add_command_mapping("go".to_string(), "high".to_string());
    let mut tie = AdaptationRule::new("同".to_string(), DeviceType::Sensor, DeviceType::Controller)
        .with_priority(5);
    tie.add_command_mapping("go".to_string(), "tie".to_string());
    adapter.add_rule(low);
    adapter.add_rule(high);
    adapter.add_rule(tie);
    assert_eq!(adapter.adapt_command(&DeviceType::Sensor, &DeviceType::Controller, "go"), "tie");
    assert_eq!(adapter.adapt_command(&DeviceType::Sensor, &DeviceType::Gateway, "go"), "go");
    assert_eq!(adapter.find_rule(&DeviceType::Sensor, &DeviceType::Controller).unwrap().name, "同");
    assert_eq!(adapter.get_rules().len(), 3);
}

#[test]
fn test_device_registry() {
    let mut registry = DeviceRegistry::new();
    let device = DeviceConfig::new("device-1".to_string(), "测试设备".to_string(), DeviceType::Sensor);
    let id = registry.register(device);
    assert_eq!(registry.count(), 1);
    let retrieved = registry.get(&id);
    assert!(retrieved.is_some());
    registry.remove(&id);
    assert_eq!(registry.count(), 0);
}

#[test]
fn test_device_registry_by_type() {
    let mut registry = DeviceRegistry::new();
    registry.register(DeviceConfig::new("sensor-1".to_string(), "传感器1".to_string(), DeviceType::Sensor));
    registry.register(DeviceConfig::new(
        "actuator-1".to_string(),
        "执行器1".to_string(),
        DeviceType::Actuator,
    ));
    let sensors = registry.get_by_type(&DeviceType::Sensor);
    assert_eq!(sensors.len(), 1);
    let actuators = registry.get_by_type(&DeviceType::Actuator);
    assert_eq!(actuators.len(), 1);
    assert_eq!(registry.list().len(), 2);
}

#[test]
fn test_skill_version() {
    let v1 = SkillVersion::new(1, 2, 3);
    assert_eq!(v1.to_string(), "1.2.3");

    let v2 = SkillVersion::parse("2.0.0").unwrap();
    assert_eq!(v2.major, 2);

    assert!(v1.is_compatible(&SkillVersion::new(1, 2, 3)));
    assert!(!v1.is_compatible(&SkillVersion::new(2, 0, 0)));
}

#[test]
fn version_parse_rejects_other_shapes() {
    for bad in ["1.2", "1.2.3.4", "a.b.c", "1..3", "", "4294967296.0.0"] {
        match SkillVersion::parse(bad) {
            Err(SkillsError::InvalidVersion(m)) => assert_eq!(m, bad),
            _ => panic!("accepted {}", bad),
        }
    }
    assert_eq!(SkillVersion::parse("+1.02.3").unwrap(), SkillVersion::new(1, 2, 3));
    assert_eq!(SkillVersion::default(), SkillVersion::new(1, 0, 0));
}

#[test]
fn test_execution_step() {
    let step = ExecutionStep::new("step1".to_string(), "检查状态".to_string(), "check_status".to_string())
        .with_timeout(30)
        .with_retry(3);

    assert_eq!(step.id, "step1");
    assert_eq!(step.timeout_secs, Some(30));
    assert_eq!(step.retry_count, Some(3));
    let step = step.with_rollback("undo".to_string());
    assert_eq!(step.rollback_command, Some("undo".to_string()));
}

#[test]
fn outputs_and_dependencies() {
    let out = OutputDefinition::new("temp".to_string(), ParamType::Float);
    assert_eq!(out.output_type, ParamType::Float);
    assert!(out.description.is_empty());
    let dep = SkillDependency::new("base".to_string(), "1.0.0".to_string());
    assert!(dep.required);
}

#[test]
fn test_device_constraint() {
    let constraint = DeviceConstraint::new("sensor".to_string());
    assert!(constraint.is_satisfied("sensor", "1.0", &[]));
    assert!(!constraint.is_satisfied("actuator", "1.0", &[]));
}

#[test]
fn constraint_bounds_and_features() {
    let mut c = DeviceConstraint::new("*".to_string());
    c.min_version = Some("1.2".to_string());
    c.max_version = Some("2.0".to_string());
    c.required_features = vec!["wifi".to_string()];
    let feats = vec!["wifi".to_string()];
    assert!(c.is_satisfied("any", "1.5", &feats));
    assert!(!c.is_satisfied("any", "1.10", &feats));
    assert!(!c.is_satisfied("any", "2.0.1", &feats));
    assert!(!c.is_satisfied("any", "1.5", &[]));
    let list = vec![DeviceConstraint::new("sensor".to_string()), c];
    assert!(constraints_allow(&list, "sensor", "0", &[]));
    assert!(!constraints_allow(&list, "gateway", "0", &[]));
}

#[test]
fn test_skill_definition_default() {
    let skill = SkillDefinition::default();
    assert_eq!(skill.version, "1.0.0");
    assert_eq!(skill.status, SkillStatus::Draft);
}

#[test]
fn test_skill_creation() {
    let mut def = SkillDefinition::default();
    def.name = "读取".to_string();
    def.steps = vec!["a".to_string()];
    let skill = Skill::new(def);
    assert_eq!(skill.name(), "读取");
    assert_eq!(skill.steps().len(), 1);
    assert!(skill.is_supported("anything"));
    let mut only = SkillDefinition::default();
    only.supported_devices = vec!["sensor".to_string()];
    let skill = Skill::new(only);
    assert!(skill.is_supported("sensor"));
    assert!(!skill.is_supported("gateway"));
}

#[test]
fn skill_registry_keeps_one_per_id() {
    let mut registry = SkillRegistry::new();
    let def = SkillDefinition::default();
    let id = registry.register(def.clone()).unwrap();
    registry.register(def).unwrap();
    assert_eq!(registry.count(), 1);
    assert_eq!(registry.get(&id).unwrap().id(), id);
    assert!(matches!(registry.get("missing"), Err(SkillsError::NotFound(_))));
    assert_eq!(registry.list(), vec![id]);
}

fn lock(kind: LockType) -> VersionLock {
    let v = SkillVersion::new(1, 2, 3);
    match kind {
        LockType::Exact => VersionLock::exact("s".to_string(), v, "me".to_string(), "r".to_string()),
        LockType::Range => VersionLock::range(
            "s".to_string(),
            SkillVersion::new(1, 0, 0),
            SkillVersion::new(2, 0, 0),
            "me".to_string(),
            "r".to_string(),
        ),
        LockType::Minimum => VersionLock::minimum("s".to_string(), v, "me".to_string(), "r".to_string()),
        LockType::Compatible => {
            VersionLock::compatible("s".to_string(), v, "me".to_string(), "r".to_string())
        },
    }
}

#[test]
fn test_exact_lock() {
    let l = lock(LockType::Exact);
    assert!(l.is_satisfied(&SkillVersion::new(1, 2, 3)));
    assert!(!l.is_satisfied(&SkillVersion::new(1, 2, 4)));
}

#[test]
fn test_range_lock() {
    let l = lock(LockType::Range);
    assert!(l.is_satisfied(&SkillVersion::new(1, 5, 0)));
    assert!(l.is_satisfied(&SkillVersion::new(2, 0, 0)));
    assert!(!l.is_satisfied(&SkillVersion::new(2, 0, 1)));
    assert!(!l.is_satisfied(&SkillVersion::new(0, 9, 9)));
}

#[test]
fn test_minimum_lock() {
    let l = lock(LockType::Minimum);
    assert!(l.is_satisfied(&SkillVersion::new(1, 2, 3)));
    assert!(l.is_satisfied(&SkillVersion::new(3, 0, 0)));
    assert!(!l.is_satisfied(&SkillVersion::new(1, 2, 2)));
}

#[test]
fn test_compatible_lock() {
    let l = lock(LockType::Compatible);
    assert!(l.is_satisfied(&SkillVersion::new(1, 3, 0)));
    assert!(!l.is_satisfied(&SkillVersion::new(1, 1, 9)));
    assert!(!l.is_satisfied(&SkillVersion::new(2, 2, 3)));
}

#[test]
fn test_version_manager() {
    let mut manager = VersionManager::new();
    let id = manager.create_lock(lock(LockType::Exact)).unwrap();
    assert_eq!(manager.get_locks("s").len(), 1);
    assert_eq!(manager.get_locked_skills(), vec!["s".to_string()]);
    manager.remove_lock(&id).unwrap();
    assert!(manager.get_locks("s").is_empty());
    assert!(matches!(manager.remove_lock(&id), Err(SkillsError::NotFound(_))));
}

#[test]
fn test_register_version() {
    let mut manager = VersionManager::new();
    manager.register_version("s".to_string(), SkillVersion::new(1, 0, 0)).unwrap();
    assert_eq!(manager.get_version("s"), Some(SkillVersion::new(1, 0, 0)));
    manager.register_version("s".to_string(), SkillVersion::new(1, 1, 0)).unwrap();
    assert_eq!(manager.get_version("s"), Some(SkillVersion::new(1, 1, 0)));
    assert_eq!(manager.get_version("t"), None);
}

#[test]
fn test_forced_lock() {
    let mut manager = VersionManager::new();
    let l = lock(LockType::Exact).with_forced();
    let lock_id = l.id.clone();
    manager.create_lock(l).unwrap();
    manager.create_lock(lock(LockType::Minimum)).unwrap();
    match manager.register_version("s".to_string(), SkillVersion::new(2, 0, 0)) {
        Err(SkillsError::VersionConflict(m)) => {
            assert_eq!(m, format!("版本 2.0.0 不满足强制锁定: {}", lock_id))
        },
        _ => panic!("expected a conflict"),
    }
    assert!(manager.check_version("s", &SkillVersion::new(1, 2, 3)).unwrap());
    assert!(manager.check_version("other", &SkillVersion::new(9, 9, 9)).unwrap());
}

#[test]
fn cleanup_keeps_recent_and_forced_locks() {
    let mut manager = VersionManager::new();
    let mut old = lock(LockType::Exact);
    old.created_at = 0;
    manager.create_lock(old).unwrap();
    let mut forced = lock(LockType::Exact).with_forced();
    forced.created_at = 0;
    manager.create_lock(forced).unwrap();
    let mut fresh = lock(LockType::Exact);
    fresh.created_at = 10 * 86_400_000;
    manager.create_lock(fresh).unwrap();
    assert_eq!(manager.cleanup_expired_at(5, 11 * 86_400_000).unwrap(), 1);
    assert_eq!(manager.get_locks("s").len(), 2);
}

#[test]
fn version_text_reads_back() {
    for v in [SkillVersion::new(0, 0, 0), SkillVersion::new(1, 22, 333), SkillVersion::new(4294967295, 7, 10)] {
        let text = v.to_string();
        let back = SkillVersion::parse(&text).unwrap();
        assert_eq!(back.major, v.major);
        assert_eq!(back.minor, v.minor);
        assert_eq!(back.patch, v.patch);
    }
    assert_eq!(SkillVersion::new(1, 22, 333).to_string(), "1.22.333");
}

#[test]
fn check_compatibility_reports_the_device() {
    let adapter = DeviceAdapter::new();
    let mut device = DeviceConfig::new("d1".to_string(), "温度传感器".to_string(), DeviceType::Sensor);
    device.add_capability("temperature_read".to_string());
    let any = vec![DeviceConstraint::new("*".to_string())];
    assert_eq!(adapter.check_compatibility("测温", &any, &device).unwrap(), true);
    let gateway_only = vec![DeviceConstraint::new("gateway".to_string())];
    match adapter.check_compatibility("测温", &gateway_only, &device) {
        Err(SkillsError::DeviceIncompatible(m)) => assert_eq!(m, "设备 温度传感器 不满足技能 测温 的约束"),
        _ => panic!("expected an incompatible device"),
    }
    let sensor = vec![DeviceConstraint::new("sensor".to_string())];
    assert!(adapter.check_compatibility("测温", &sensor, &device).is_ok());
}

#[test]
fn registry_get_mut_changes_the_stored_device() {
    let mut registry = DeviceRegistry::new();
    let id = registry.register(DeviceConfig::new("d1".to_string(), "灯".to_string(), DeviceType::Actuator));
    registry.get_mut(&id).unwrap().add_capability("switch".to_string());
    assert!(registry.get(&id).unwrap().supports_capability("switch"));
    assert!(registry.get_mut(&"none".to_string()).is_none());
}

#[test]
fn device_parameters_are_set_and_read_back() {
    let mut device = DeviceConfig::new("d1".to_string(), "灯".to_string(), DeviceType::Actuator);
    device.set_parameter("level".to_string(), serde_json::from_str("3").unwrap());
    device.set_parameter("mode".to_string(), serde_json::from_str("\"eco\"").unwrap());
    device.set_parameter("level".to_string(), serde_json::from_str("5").unwrap());
    assert_eq!(device.parameters.len(), 2);
    assert_eq!(device.parameters.get("level").unwrap().as_i64(), Some(5));
    assert_eq!(device.parameters.get("mode").unwrap().as_str(), Some("eco"));
    assert!(device.parameters.get("none").is_none());
    assert!(device.parameters.contains_key("mode"));
}

#[test]
fn text_rules_check_length_then_allowed_values() {
    let allowed = vec!["red".to_string(), "green".to_string()];
    assert!(fos::skills::definition::check_text_rules(Some(1), Some(5), Some(&allowed), "red").is_ok());
    match fos::skills::definition::check_text_rules(Some(1), Some(3), Some(&allowed), "green") {
        Err(SkillsError::ValidationFailed(m)) => assert_eq!(m, "字符串长度 5 不在范围 [1, 3] 内"),
        _ => panic!("expected a length error"),
    }
    match fos::skills::definition::check_text_rules(None, Some(3), Some(&allowed), "blue") {
        Err(SkillsError::ValidationFailed(m)) => assert_eq!(m, "值 'blue' 不在允许的枚举值列表中"),
        _ => panic!("expected a value error"),
    }
    // the length is counted in bytes
    match fos::skills::definition::check_text_rules(Some(0), Some(2), None, "红") {
        Err(SkillsError::ValidationFailed(m)) => assert_eq!(m, "字符串长度 3 不在范围 [0, 2] 内"),
        _ => panic!("expected a length error"),
    }
    assert!(fos::skills::definition::check_text_rules(None, None, None, "anything").is_ok());
}

#[test]
fn required_parameters_must_be_given_or_defaulted() {
    assert!(fos::skills::definition::check_required_param("speed", true, true, false).is_ok());
    assert!(fos::skills::definition::check_required_param("speed", true, false, true).is_ok());
    assert!(fos::skills::definition::check_required_param("speed", false, false, false).is_ok());
    match fos::skills::definition::check_required_param("speed", true, false, false) {
        Err(SkillsError::ValidationFailed(m)) => assert_eq!(m, "缺少必需参数: speed"),
        _ => panic!("expected a missing-parameter error"),
    }
}
