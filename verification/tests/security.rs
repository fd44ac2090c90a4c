use fos::security::{PenetrationTest, PenetrationTestResult, Vulnerability, VulnerabilitySeverity};

#[test]
fn test_vulnerability_creation() {
    let vuln = Vulnerability::new(
        "TEST-001",
        "Test Vulnerability",
        "This is a test vulnerability",
        VulnerabilitySeverity::High,
        "Injection",
        "test module",
        "Fix it",
    );

    assert_eq!(vuln.id, "TEST-001");
    assert_eq!(vuln.severity, VulnerabilitySeverity::High);
}

#[test]
fn test_severity_score() {
    assert_eq!(VulnerabilitySeverity::Critical.score(), 10);
    assert_eq!(VulnerabilitySeverity::High.score(), 7);
    assert_eq!(VulnerabilitySeverity::Medium.score(), 5);
    assert_eq!(VulnerabilitySeverity::Low.score(), 3);
    assert_eq!(VulnerabilitySeverity::Info.score(), 1);
}

fn vuln(severity: VulnerabilitySeverity) -> Vulnerability {
    Vulnerability::new("TEST-001", "Test", "Test", severity, "Test", "Test", "Test")
}

#[test]
fn test_penetration_test_result() {
    let mut result = PenetrationTestResult::new("Test");

    assert!(result.passed);
    assert_eq!(result.total_vulnerabilities, 0);

    result.add_vulnerability(vuln(VulnerabilitySeverity::Critical));

    assert!(!result.passed);
    assert_eq!(result.total_vulnerabilities, 1);
    assert_eq!(result.critical_count, 1);

    result.generate_summary();
    assert!(!result.summary.is_empty());
    assert_eq!(
        result.summary,
        "渗透测试完成。发现 1 个漏洞，安全评分: 85.0/100。严重: 1, 高危: 0, 中危: 0, 低危: 0"
    );
}

#[test]
fn test_security_score() {
    let mut result = PenetrationTestResult::new("Test");
    assert_eq!(result.security_score_points(), 100);

    result.add_vulnerability(vuln(VulnerabilitySeverity::Critical));

    assert_eq!(result.security_score_points(), 85);
}

#[test]
fn score_never_goes_below_zero() {
    let mut result = PenetrationTestResult::new("Test");
    for _ in 0..7 {
        result.add_vulnerability(vuln(VulnerabilitySeverity::Critical));
    }
    assert_eq!(result.security_score_points(), 0);
    result.add_vulnerability(vuln(VulnerabilitySeverity::Info));
    assert_eq!(result.total_vulnerabilities, 8);
    assert_eq!(result.low_count, 0);
}

#[test]
fn suite_runs_three_clean_tests() {
    let suite = PenetrationTest::new("suite").with_verbose(true);
    assert!(suite.verbose());
    let results = suite.run_all_tests();
    assert_eq!(results.len(), 3);
    assert_eq!(results[0].test_name, "Cache Injection Test");
    assert!(results.iter().all(|r| r.passed));
    assert_eq!(suite.injection_keys().len(), 4);
}
