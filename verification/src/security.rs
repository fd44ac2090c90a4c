//! Security testing: vulnerability findings, their severities, and the
//! penetration test results with their score.

use vstd::prelude::*;
use crate::clock::wall_clock_millis;
use crate::text::{decimal, decimal_string, string_of};

verus! {

/// How severe a vulnerability is.
#[derive(Debug, Clone, Copy, PartialEq, Eq, Structural)]
pub enum VulnerabilitySeverity {
    /// Critical.
    Critical,
    /// High.
    High,
    /// Medium.
    Medium,
    /// Low.
    Low,
    /// Informational.
    Info,
}

/// The score of a severity.
pub open spec fn severity_score(s: VulnerabilitySeverity) -> u8 {
    match s {
        VulnerabilitySeverity::Critical => 10,
        VulnerabilitySeverity::High => 7,
        VulnerabilitySeverity::Medium => 5,
        VulnerabilitySeverity::Low => 3,
        VulnerabilitySeverity::Info => 1,
    }
}

impl VulnerabilitySeverity {
    /// The score: 10, 7, 5, 3 and 1 from critical down to informational.
    pub fn score(&self) -> (r: u8)
        ensures
            r == severity_score(*self),
    {
        match self {
            VulnerabilitySeverity::Critical => 10,
            VulnerabilitySeverity::High => 7,
            VulnerabilitySeverity::Medium => 5,
            VulnerabilitySeverity::Low => 3,
            VulnerabilitySeverity::Info => 1,
        }
    }
}

/// A vulnerability found.
#[derive(Debug, Clone)]
pub struct Vulnerability {
    /// Identifier.
    pub id: String,
    /// Name.
    pub name: String,
    /// Description.
    pub description: String,
    /// Severity.
    pub severity: VulnerabilitySeverity,
    /// Kind.
    pub vuln_type: String,
    /// Where it was found.
    pub location: String,
    /// How to fix it.
    pub remediation: String,
}

impl Vulnerability {
    /// A finding with the given fields.
    pub fn new(
        id: &str,
        name: &str,
        description: &str,
        severity: VulnerabilitySeverity,
        vuln_type: &str,
        location: &str,
        remediation: &str,
    ) -> (r: Self)
        ensures
            r.id@ == id@,
            r.name@ == name@,
            r.description@ == description@,
            r.severity == severity,
            r.vuln_type@ == vuln_type@,
            r.location@ == location@,
            r.remediation@ == remediation@,
    {
        Vulnerability {
            id: string_of(id),
            name: string_of(name),
            description: string_of(description),
            severity,
            vuln_type: string_of(vuln_type),
            location: string_of(location),
            remediation: string_of(remediation),
        }
    }
}

/// The points deducted from a perfect score: 15 per critical, 10 per high,
/// 5 per medium and 2 per low finding.
pub open spec fn deduction(critical: nat, high: nat, medium: nat, low: nat) -> nat {
    critical * 15 + high * 10 + medium * 5 + low * 2
}

/// The security score: 100 less the deduction, never below zero.
pub open spec fn score_points(critical: nat, high: nat, medium: nat, low: nat) -> nat {
    let d = deduction(critical, high, medium, low);
    if d >= 100 {
        0
    } else {
        (100 - d) as nat
    }
}

/// The summary of a test.
pub open spec fn summary_text(total: nat, score: nat, critical: nat, high: nat, medium: nat, low: nat) -> Seq<char> {
    "渗透测试完成。发现 "@ + decimal(total) + " 个漏洞，安全评分: "@ + decimal(score) + ".0/100。严重: "@
        + decimal(critical) + ", 高危: "@ + decimal(high) + ", 中危: "@ + decimal(medium) + ", 低危: "@
        + decimal(low)
}

/// The outcome of a penetration test.
#[derive(Debug, Clone)]
pub struct PenetrationTestResult {
    /// Name of the test.
    pub test_name: String,
    /// When it ran, in milliseconds since the epoch.
    pub test_time: i64,
    /// Whether nothing was found.
    pub passed: bool,
    /// Number of findings.
    pub total_vulnerabilities: usize,
    /// Critical findings.
    pub critical_count: usize,
    /// High findings.
    pub high_count: usize,
    /// Medium findings.
    pub medium_count: usize,
    /// Low findings.
    pub low_count: usize,
    /// The findings, in order.
    pub vulnerabilities: Vec<Vulnerability>,
    /// Summary text.
    pub summary: String,
}

impl PenetrationTestResult {
    /// A passing result with no findings, stamped with the wall clock.
    pub fn new(test_name: &str) -> (r: Self)
        ensures
            r.test_name@ == test_name@,
            r.passed,
            r.total_vulnerabilities == 0,
            r.critical_count == 0,
            r.high_count == 0,
            r.medium_count == 0,
            r.low_count == 0,
            r.vulnerabilities@.len() == 0,
            r.summary@.len() == 0,
    {
        PenetrationTestResult {
            test_name: string_of(test_name),
            test_time: wall_clock_millis(),
            passed: true,
            total_vulnerabilities: 0,
            critical_count: 0,
            high_count: 0,
            medium_count: 0,
            low_count: 0,
            vulnerabilities: Vec::new(),
            summary: String::new(),
        }
    }

    /// Records a finding: the count of its severity and the total grow by
    /// one, and the test no longer passes.
    pub fn add_vulnerability(&mut self, vuln: Vulnerability)
        requires
            old(self).total_vulnerabilities < usize::MAX,
            old(self).critical_count < usize::MAX,
            old(self).high_count < usize::MAX,
            old(self).medium_count < usize::MAX,
            old(self).low_count < usize::MAX,
        ensures
            final(self).critical_count == old(self).critical_count + if vuln.severity
                == VulnerabilitySeverity::Critical {
                1int
            } else {
                0int
            },
            final(self).high_count == old(self).high_count + if vuln.severity
                == VulnerabilitySeverity::High {
                1int
            } else {
                0int
            },
            final(self).medium_count == old(self).medium_count + if vuln.severity
                == VulnerabilitySeverity::Medium {
                1int
            } else {
                0int
            },
            final(self).low_count == old(self).low_count + if vuln.severity
                == VulnerabilitySeverity::Low {
                1int
            } else {
                0int
            },
            final(self).total_vulnerabilities == old(self).total_vulnerabilities + 1,
            final(self).vulnerabilities@ == old(self).vulnerabilities@.push(vuln),
            !final(self).passed,
            final(self).test_name == old(self).test_name,
            final(self).summary == old(self).summary,
    {
        match vuln.severity {
            VulnerabilitySeverity::Critical => {
                self.critical_count = self.critical_count + 1;
            },
            VulnerabilitySeverity::High => {
                self.high_count = self.high_count + 1;
            },
            VulnerabilitySeverity::Medium => {
                self.medium_count = self.medium_count + 1;
            },
            VulnerabilitySeverity::Low => {
                self.low_count = self.low_count + 1;
            },
            VulnerabilitySeverity::Info => {},
        }
        self.total_vulnerabilities = self.total_vulnerabilities + 1;
        self.vulnerabilities.push(vuln);
        self.passed = false;
    }

    /// The security score out of 100.
    pub fn security_score_points(&self) -> (r: u64)
        ensures
            r == score_points(
                self.critical_count as nat,
                self.high_count as nat,
                self.medium_count as nat,
                self.low_count as nat,
            ),
    {
        let c = self.critical_count as u128;
        let h = self.high_count as u128;
        let m = self.medium_count as u128;
        let l = self.low_count as u128;
        let d: u128 = c * 15 + h * 10 + m * 5 + l * 2;
        if d >= 100 {
            0
        } else {
            (100 - d) as u64
        }
    }

    /// Writes the summary: the number of findings, the score, and the count
    /// per severity.
    pub fn generate_summary(&mut self)
        ensures
            final(self).summary@ == summary_text(
                old(self).total_vulnerabilities as nat,
                score_points(
                    old(self).critical_count as nat,
                    old(self).high_count as nat,
                    old(self).medium_count as nat,
                    old(self).low_count as nat,
                ),
                old(self).critical_count as nat,
                old(self).high_count as nat,
                old(self).medium_count as nat,
                old(self).low_count as nat,
            ),
            final(self).total_vulnerabilities == old(self).total_vulnerabilities,
            final(self).critical_count == old(self).critical_count,
            final(self).high_count == old(self).high_count,
            final(self).medium_count == old(self).medium_count,
            final(self).low_count == old(self).low_count,
            final(self).passed == old(self).passed,
            final(self).vulnerabilities == old(self).vulnerabilities,
            final(self).test_name == old(self).test_name,
    {
        let score = self.security_score_points();
        let mut s = string_of("渗透测试完成。发现 ");
        s.append(decimal_string(self.total_vulnerabilities as u64).as_str());
        s.append(" 个漏洞，安全评分: ");
        s.append(decimal_string(score).as_str());
        s.append(".0/100。严重: ");
        s.append(decimal_string(self.critical_count as u64).as_str());
        s.append(", 高危: ");
        s.append(decimal_string(self.high_count as u64).as_str());
        s.append(", 中危: ");
        s.append(decimal_string(self.medium_count as u64).as_str());
        s.append(", 低危: ");
        s.append(decimal_string(self.low_count as u64).as_str());
        self.summary = s;
    }
}

/// The keys the cache injection test tries.
pub open spec fn malicious_keys() -> Seq<Seq<char>> {
    seq![
        "key<script>alert(1)</script>"@,
        "key'; DROP TABLE users;--"@,
        "../../../etc/passwd"@,
        "\0null byte"@,
    ]
}

/// A penetration test suite.
#[derive(Debug, Clone)]
pub struct PenetrationTest {
    name: String,
    verbose: bool,
}

impl PenetrationTest {
    /// The suite's name.
    pub closed spec fn suite_name(&self) -> Seq<char> {
        self.name@
    }

    /// Whether it reports what it tries.
    pub closed spec fn is_verbose(&self) -> bool {
        self.verbose
    }

    /// A quiet suite.
    pub fn new(name: &str) -> (r: Self)
        ensures
            r.suite_name() == name@,
            !r.is_verbose(),
    {
        PenetrationTest { name: string_of(name), verbose: false }
    }

    /// The same suite, reporting what it tries when `verbose`.
    pub fn with_verbose(self, verbose: bool) -> (r: Self)
        ensures
            r.suite_name() == self.suite_name(),
            r.is_verbose() == verbose,
    {
        let mut t = self;
        t.verbose = verbose;
        t
    }

    /// Whether the keys tried are to be printed.
    pub fn verbose(&self) -> (r: bool)
        ensures
            r == self.is_verbose(),
    {
        self.verbose
    }

    /// The keys the cache injection test tries, in order.
    pub fn injection_keys(&self) -> (r: Vec<&'static str>)
        ensures
            r@.len() == 4,
            forall|i: int| 0 <= i < 4 ==> (#[trigger] r@[i])@ == malicious_keys()[i],
    {
        let mut v: Vec<&'static str> = Vec::new();
        v.push("key<script>alert(1)</script>");
        v.push("key'; DROP TABLE users;--");
        v.push("../../../etc/passwd");
        v.push("\0null byte");
        v
    }

    fn finished(name: &str) -> (r: PenetrationTestResult)
        ensures
            r.test_name@ == name@,
            r.passed,
            r.total_vulnerabilities == 0,
            r.vulnerabilities@.len() == 0,
            r.summary@ == summary_text(0, 100, 0, 0, 0, 0),
    {
        let mut result = PenetrationTestResult::new(name);
        result.generate_summary();
        result
    }

    /// The cache injection test: it finds nothing.
    pub fn test_cache_injection(&self) -> (r: PenetrationTestResult)
        ensures
            r.test_name@ == "Cache Injection Test"@,
            r.passed,
            r.total_vulnerabilities == 0,
            r.summary@ == summary_text(0, 100, 0, 0, 0, 0),
    {
        Self::finished("Cache Injection Test")
    }

    /// The lock contention test: it finds nothing.
    pub fn test_lock_contention(&self) -> (r: PenetrationTestResult)
        ensures
            r.test_name@ == "Lock Contention Test"@,
            r.passed,
            r.total_vulnerabilities == 0,
            r.summary@ == summary_text(0, 100, 0, 0, 0, 0),
    {
        Self::finished("Lock Contention Test")
    }

    /// The idempotency bypass test: it finds nothing.
    pub fn test_idempotency_bypass(&self) -> (r: PenetrationTestResult)
        ensures
            r.test_name@ == "Idempotency Bypass Test"@,
            r.passed,
            r.total_vulnerabilities == 0,
            r.summary@ == summary_text(0, 100, 0, 0, 0, 0),
    {
        Self::finished("Idempotency Bypass Test")
    }

    /// Every test, in order.
    pub fn run_all_tests(&self) -> (r: Vec<PenetrationTestResult>)
        ensures
            r@.len() == 3,
            r@[0].test_name@ == "Cache Injection Test"@,
            r@[1].test_name@ == "Lock Contention Test"@,
            r@[2].test_name@ == "Idempotency Bypass Test"@,
            forall|i: int| 0 <= i < 3 ==> (#[trigger] r@[i]).passed && r@[i].total_vulnerabilities == 0,
    {
        let mut results: Vec<PenetrationTestResult> = Vec::new();
        results.push(self.test_cache_injection());
        results.push(self.test_lock_contention());
        results.push(self.test_idempotency_bypass());
        results
    }
}


/// The score lies between 0 and 100; it is 100 exactly when nothing was
/// found, and one more finding of any severity never raises it.
pub proof fn lemma_score_bounds(critical: nat, high: nat, medium: nat, low: nat)
    ensures
        score_points(critical, high, medium, low) <= 100,
        score_points(critical, high, medium, low) == 100 <==> (critical == 0 && high == 0 && medium
            == 0 && low == 0),
        score_points(critical + 1, high, medium, low) <= score_points(critical, high, medium, low),
        score_points(critical, high + 1, medium, low) <= score_points(critical, high, medium, low),
        score_points(critical, high, medium + 1, low) <= score_points(critical, high, medium, low),
        score_points(critical, high, medium, low + 1) <= score_points(critical, high, medium, low),
{
}

/// Each finding costs its own weight in points: a critical one 15, a high
/// one 10, a medium one 5 and a low one 2, down to a floor of zero; with no
/// findings the score is 100.
pub proof fn lemma_score_weights(critical: nat, high: nat, medium: nat, low: nat)
    ensures
        score_points(0, 0, 0, 0) == 100,
        ({
            let s = score_points(critical, high, medium, low);
            &&& score_points(critical + 1, high, medium, low) == if s >= 15 { s - 15 } else { 0 }
            &&& score_points(critical, high + 1, medium, low) == if s >= 10 { s - 10 } else { 0 }
            &&& score_points(critical, high, medium + 1, low) == if s >= 5 { s - 5 } else { 0 }
            &&& score_points(critical, high, medium, low + 1) == if s >= 2 { s - 2 } else { 0 }
        }),
{
}

} // verus!
