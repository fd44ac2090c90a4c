//! Checks run before a sandbox is used: its configuration, its resources,
//! its isolation rules, and the changes of its state.

use vstd::prelude::*;
use crate::paths::{path_debug, path_debug_text, path_eq, path_is_absolute, path_prefix, path_same, path_starts_with};
use crate::sandbox::config::{SandboxConfig, SandboxStatus};
use crate::sandbox::isolation::{copy_strings, strs, IsolationConfig};
use crate::sandbox::report::{
    empty_report, merged, with_error, with_pass, with_warning, ReportView, ValidationResult,
};
use crate::text::{decimal, decimal_string, has_prefix, starts_with, string_of};

verus! {

/// Memory the validator assumes the machine has, in MiB.
pub const AVAILABLE_MEMORY_MB: u64 = 8192;

/// The report of the configuration checks: time limit, memory limit and CPU
/// limit, in that order.
pub open spec fn config_report(timeout_secs: u64, memory_limit_mb: u64, cpu_limit_percent: u64) -> ReportView {
    let r0 = empty_report();
    let r1 = if timeout_secs == 0 {
        with_error(r0, "timeout_check"@, "超时时间不能为0"@)
    } else if timeout_secs > 3600 {
        with_warning(r0, "timeout_check"@, "超时时间超过1小时，可能导致资源占用过长"@)
    } else {
        with_pass(r0, "timeout_check"@)
    };
    let r2 = if memory_limit_mb == 0 {
        with_error(r1, "memory_check"@, "内存限制不能为0"@)
    } else if memory_limit_mb > 4096 {
        with_warning(r1, "memory_check"@, "内存限制超过4GB，请确认系统资源充足"@)
    } else {
        with_pass(r1, "memory_check"@)
    };
    if cpu_limit_percent > 100 {
        with_error(r2, "cpu_check"@, "CPU限制不能超过100%"@)
    } else if cpu_limit_percent == 0 {
        with_warning(r2, "cpu_check"@, "CPU限制为0%，可能导致无法执行"@)
    } else {
        with_pass(r2, "cpu_check"@)
    }
}

/// The report of the resource check: the memory asked for must fit in
/// `AVAILABLE_MEMORY_MB`.
pub open spec fn resources_report(memory_limit_mb: u64) -> ReportView {
    if memory_limit_mb > AVAILABLE_MEMORY_MB {
        with_error(
            empty_report(),
            "resource_memory"@,
            "请求的内存 "@ + decimal(memory_limit_mb as nat) + "MB 超过可用内存 "@ + decimal(
                AVAILABLE_MEMORY_MB as nat,
            ) + "MB"@,
        )
    } else {
        with_pass(empty_report(), "resource_memory"@)
    }
}

/// The report of the isolation check: allowing the network with no path
/// restriction draws a warning.
pub open spec fn isolation_report(network_allowed: bool, path_count: nat) -> ReportView {
    if network_allowed && path_count == 0 {
        with_warning(empty_report(), "isolation_network"@, "允许网络访问但未限制路径，可能存在安全风险"@)
    } else {
        with_pass(empty_report(), "isolation_network"@)
    }
}

/// The report after checking the first `n` paths: each must be absolute.
pub open spec fn paths_prefix_report(paths: Seq<Seq<char>>, n: int) -> ReportView
    decreases n,
{
    if n <= 0 {
        empty_report()
    } else {
        let r = paths_prefix_report(paths, n - 1);
        let p = paths[n - 1];
        if p.len() > 0 && p[0] == '/' {
            with_pass(r, "path_absolute"@)
        } else {
            with_error(r, "path_absolute"@, "路径 "@ + p + " 不是绝对路径"@)
        }
    }
}

/// The report of the path checks; with no path at all, the `path_check`
/// passes.
pub open spec fn paths_report(paths: Seq<Seq<char>>) -> ReportView {
    let r = paths_prefix_report(paths, paths.len() as int);
    if r.3.len() == 0 {
        with_pass(r, "path_check"@)
    } else {
        r
    }
}

/// Checks the configuration of a sandbox before it is used.
pub struct EnvironmentValidator {
    config: SandboxConfig,
}

impl EnvironmentValidator {
    /// The configuration checked.
    pub closed spec fn cfg(&self) -> SandboxConfig {
        self.config
    }

    /// A validator of `config`.
    pub fn new(config: SandboxConfig) -> (r: Self)
        ensures
            r.cfg() == config,
    {
        EnvironmentValidator { config }
    }

    /// All checks, in order: configuration, resources, isolation, paths.
    pub fn validate_all(&self) -> (r: ValidationResult)
        ensures
            r@ == merged(
                merged(
                    merged(
                        merged(
                            empty_report(),
                            config_report(
                                self.cfg().timeout_secs,
                                self.cfg().memory_limit_mb,
                                self.cfg().cpu_limit_percent,
                            ),
                        ),
                        resources_report(self.cfg().memory_limit_mb),
                    ),
                    isolation_report(self.cfg().network_allowed, self.cfg().allowed_paths@.len()),
                ),
                paths_report(strs(self.cfg().allowed_paths@)),
            ),
    {
        let mut result = ValidationResult::new();
        result.merge(self.validate_config());
        result.merge(self.validate_resources());
        result.merge(self.validate_isolation());
        result.merge(self.validate_paths());
        result
    }

    /// Checks the time, memory and CPU limits.
    pub fn validate_config(&self) -> (r: ValidationResult)
        ensures
            r@ == config_report(
                self.cfg().timeout_secs,
                self.cfg().memory_limit_mb,
                self.cfg().cpu_limit_percent,
            ),
    {
        let mut result = ValidationResult::new();
        if self.config.timeout_secs == 0 {
            result.add_error("timeout_check", string_of("超时时间不能为0"));
        } else if self.config.timeout_secs > 3600 {
            result.add_warning("timeout_check", string_of("超时时间超过1小时，可能导致资源占用过长"));
        } else {
            result.add_pass("timeout_check");
        }
        if self.config.memory_limit_mb == 0 {
            result.add_error("memory_check", string_of("内存限制不能为0"));
        } else if self.config.memory_limit_mb > 4096 {
            result.add_warning("memory_check", string_of("内存限制超过4GB，请确认系统资源充足"));
        } else {
            result.add_pass("memory_check");
        }
        if self.config.cpu_limit_percent > 100 {
            result.add_error("cpu_check", string_of("CPU限制不能超过100%"));
        } else if self.config.cpu_limit_percent == 0 {
            result.add_warning("cpu_check", string_of("CPU限制为0%，可能导致无法执行"));
        } else {
            result.add_pass("cpu_check");
        }
        result
    }

    /// Checks that the memory asked for is available.
    pub fn validate_resources(&self) -> (r: ValidationResult)
        ensures
            r@ == resources_report(self.cfg().memory_limit_mb),
    {
        let mut result = ValidationResult::new();
        let available_memory_mb = AVAILABLE_MEMORY_MB;
        if self.config.memory_limit_mb > available_memory_mb {
            let mut m = string_of("请求的内存 ");
            let asked = decimal_string(self.config.memory_limit_mb);
            m.append(asked.as_str());
            m.append("MB 超过可用内存 ");
            let avail = decimal_string(available_memory_mb);
            m.append(avail.as_str());
            m.append("MB");
            result.add_error("resource_memory", m);
        } else {
            result.add_pass("resource_memory");
        }
        result
    }

    /// Warns when the network is allowed and no path is restricted.
    pub fn validate_isolation(&self) -> (r: ValidationResult)
        ensures
            r@ == isolation_report(self.cfg().network_allowed, self.cfg().allowed_paths@.len()),
    {
        let mut result = ValidationResult::new();
        if self.config.network_allowed && self.config.allowed_paths.len() == 0 {
            result.add_warning(
                "isolation_network",
                string_of("允许网络访问但未限制路径，可能存在安全风险"),
            );
        } else {
            result.add_pass("isolation_network");
        }
        result
    }

    /// Checks that every allowed path is absolute.
    pub fn validate_paths(&self) -> (r: ValidationResult)
        ensures
            r@ == paths_report(strs(self.cfg().allowed_paths@)),
    {
        let mut result = ValidationResult::new();
        let paths = &self.config.allowed_paths;
        let ghost ps = strs(paths@);
        let mut i: usize = 0;
        while i < paths.len()
            invariant
                i <= paths@.len(),
                ps == strs(paths@),
                result@ == paths_prefix_report(ps, i as int),
            decreases paths.len() - i,
        {
            let path = paths[i].as_str();
            assert(ps[i as int] == path@);
            if !path_is_absolute(path) {
                let mut m = string_of("路径 ");
                m.append(path);
                m.append(" 不是绝对路径");
                result.add_error("path_absolute", m);
            } else {
                result.add_pass("path_absolute");
            }
            i = i + 1;
        }
        if result.details.is_empty() {
            result.add_pass("path_check");
        }
        result
    }
}

/// The message for a path that lies under a denied path.
pub open spec fn conflict_message(kind: Seq<char>, path: Seq<char>, denied: Seq<char>) -> Seq<char> {
    kind + path_debug_text(path) + " 在禁止路径 "@ + path_debug_text(denied) + " 下"@
}

/// `r` after checking the first `n` of `paths` against the denied path `d`.
pub open spec fn conflicts_with(
    r: ReportView,
    kind: Seq<char>,
    d: Seq<char>,
    paths: Seq<Seq<char>>,
    n: int,
) -> ReportView
    decreases n,
{
    if n <= 0 {
        r
    } else {
        let r1 = conflicts_with(r, kind, d, paths, n - 1);
        if path_prefix(paths[n - 1], d) {
            with_error(r1, "path_conflict"@, conflict_message(kind, paths[n - 1], d))
        } else {
            r1
        }
    }
}

/// `r` after checking the read-only and read-write paths against the first
/// `n` denied paths.
pub open spec fn conflicts_report(
    r: ReportView,
    denied: Seq<Seq<char>>,
    readonly: Seq<Seq<char>>,
    readwrite: Seq<Seq<char>>,
    n: int,
) -> ReportView
    decreases n,
{
    if n <= 0 {
        r
    } else {
        let r1 = conflicts_report(r, denied, readonly, readwrite, n - 1);
        let d = denied[n - 1];
        conflicts_with(
            conflicts_with(r1, "只读路径 "@, d, readonly, readonly.len() as int),
            "读写路径 "@,
            d,
            readwrite,
            readwrite.len() as int,
        )
    }
}

/// `r` after comparing path `i` with the paths after it, up to `m`.
pub open spec fn duplicates_of(r: ReportView, all: Seq<Seq<char>>, i: int, m: int) -> ReportView
    decreases m - i,
{
    if m <= i + 1 {
        r
    } else {
        let r1 = duplicates_of(r, all, i, m - 1);
        if path_same(all[i], all[m - 1]) {
            with_warning(r1, "duplicate_path"@, "路径 "@ + path_debug_text(all[i]) + " 重复定义"@)
        } else {
            r1
        }
    }
}

/// `r` after comparing each of the first `n` paths with the paths after it.
pub open spec fn duplicates_report(r: ReportView, all: Seq<Seq<char>>, n: int) -> ReportView
    decreases n,
{
    if n <= 0 {
        r
    } else {
        duplicates_of(duplicates_report(r, all, n - 1), all, n - 1, all.len() as int)
    }
}

/// The report of the file-system isolation check: conflicts between allowed
/// and denied paths are errors, paths given twice draw warnings, and the
/// check passes when there is no error.
pub open spec fn filesystem_report(
    readonly: Seq<Seq<char>>,
    readwrite: Seq<Seq<char>>,
    denied: Seq<Seq<char>>,
) -> ReportView {
    let r1 = conflicts_report(empty_report(), denied, readonly, readwrite, denied.len() as int);
    let all = readonly + readwrite + denied;
    let r2 = duplicates_report(r1, all, all.len() as int);
    if r2.1.len() == 0 {
        with_pass(r2, "filesystem_isolation"@)
    } else {
        r2
    }
}

/// `r` after comparing the first `m` allowed networks with the denied one `d`.
pub open spec fn network_conflicts_with(r: ReportView, d: Seq<char>, allowed: Seq<Seq<char>>, m: int) -> ReportView
    decreases m,
{
    if m <= 0 {
        r
    } else {
        let r1 = network_conflicts_with(r, d, allowed, m - 1);
        let a = allowed[m - 1];
        if has_prefix(a, d) || has_prefix(d, a) {
            with_warning(
                r1,
                "network_conflict"@,
                "允许网络 "@ + a + " 和禁止网络 "@ + d + " 可能冲突"@,
            )
        } else {
            r1
        }
    }
}

/// `r` after comparing every allowed network with the first `n` denied ones.
pub open spec fn network_conflicts(r: ReportView, denied: Seq<Seq<char>>, allowed: Seq<Seq<char>>, n: int) -> ReportView
    decreases n,
{
    if n <= 0 {
        r
    } else {
        network_conflicts_with(
            network_conflicts(r, denied, allowed, n - 1),
            denied[n - 1],
            allowed,
            allowed.len() as int,
        )
    }
}

/// The report of the network isolation check: an allowed and a denied
/// network of which one is a prefix of the other draw a warning.
pub open spec fn network_report(allowed: Seq<Seq<char>>, denied: Seq<Seq<char>>) -> ReportView {
    let r = network_conflicts(empty_report(), denied, allowed, denied.len() as int);
    if r.1.len() == 0 {
        with_pass(r, "network_isolation"@)
    } else {
        r
    }
}

/// Checks the isolation rules of a sandbox.
pub struct IsolationValidator {
    config: IsolationConfig,
}

impl IsolationValidator {
    /// The configuration checked.
    pub closed spec fn cfg(&self) -> IsolationConfig {
        self.config
    }

    /// A validator of `config`.
    pub fn new(config: IsolationConfig) -> (r: Self)
        ensures
            r.cfg() == config,
    {
        IsolationValidator { config }
    }

    /// The file-system check, then the network check.
    pub fn validate_all(&self) -> (r: ValidationResult)
        ensures
            r@ == merged(
                merged(
                    empty_report(),
                    filesystem_report(
                        strs(self.cfg().readonly_paths@),
                        strs(self.cfg().readwrite_paths@),
                        strs(self.cfg().denied_paths@),
                    ),
                ),
                network_report(strs(self.cfg().allowed_networks@), strs(self.cfg().denied_networks@)),
            ),
    {
        let mut result = ValidationResult::new();
        result.merge(self.validate_filesystem());
        result.merge(self.validate_network());
        result
    }

    fn check_conflicts(result: &mut ValidationResult, kind: &str, denied: &str, paths: &Vec<String>)
        ensures
            final(result)@ == conflicts_with(
                old(result)@,
                kind@,
                denied@,
                strs(paths@),
                paths@.len() as int,
            ),
    {
        let ghost ps = strs(paths@);
        let mut j: usize = 0;
        while j < paths.len()
            invariant
                j <= paths@.len(),
                ps == strs(paths@),
                result@ == conflicts_with(old(result)@, kind@, denied@, ps, j as int),
            decreases paths.len() - j,
        {
            let p = paths[j].as_str();
            assert(ps[j as int] == p@);
            if path_starts_with(p, denied) {
                let mut m = string_of(kind);
                let pd = path_debug(p);
                m.append(pd.as_str());
                m.append(" 在禁止路径 ");
                let dd = path_debug(denied);
                m.append(dd.as_str());
                m.append(" 下");
                result.add_error("path_conflict", m);
            }
            j = j + 1;
        }
    }

    /// Checks that no allowed path lies under a denied one, and warns of
    /// paths given twice.
    pub fn validate_filesystem(&self) -> (r: ValidationResult)
        ensures
            r@ == filesystem_report(
                strs(self.cfg().readonly_paths@),
                strs(self.cfg().readwrite_paths@),
                strs(self.cfg().denied_paths@),
            ),
    {
        let mut result = ValidationResult::new();
        let denied = &self.config.denied_paths;
        let readonly = &self.config.readonly_paths;
        let readwrite = &self.config.readwrite_paths;
        let ghost ds = strs(denied@);
        let mut i: usize = 0;
        while i < denied.len()
            invariant
                i <= denied@.len(),
                ds == strs(denied@),
                *readonly == self.config.readonly_paths,
                *readwrite == self.config.readwrite_paths,
                result@ == conflicts_report(
                    empty_report(),
                    ds,
                    strs(readonly@),
                    strs(readwrite@),
                    i as int,
                ),
            decreases denied.len() - i,
        {
            let d = denied[i].as_str();
            assert(ds[i as int] == d@);
            Self::check_conflicts(&mut result, "只读路径 ", d, readonly);
            Self::check_conflicts(&mut result, "读写路径 ", d, readwrite);
            i = i + 1;
        }
        let mut all: Vec<String> = Vec::new();
        all.append(&mut copy_strings(readonly));
        all.append(&mut copy_strings(readwrite));
        all.append(&mut copy_strings(denied));
        assert(strs(all@) =~= strs(readonly@) + strs(readwrite@) + strs(denied@));
        let ghost alls = strs(all@);
        let n = all.len();
        let mut a: usize = 0;
        while a < n
            invariant
                a <= n,
                n == all@.len(),
                alls == strs(all@),
                result@ == duplicates_report(
                    conflicts_report(
                        empty_report(),
                        ds,
                        strs(readonly@),
                        strs(readwrite@),
                        ds.len() as int,
                    ),
                    alls,
                    a as int,
                ),
            decreases n - a,
        {
            let ghost before = result@;
            let mut b: usize = a + 1;
            while b < n
                invariant
                    a < n,
                    a + 1 <= b <= n,
                    n == all@.len(),
                    alls == strs(all@),
                    result@ == duplicates_of(before, alls, a as int, b as int),
                decreases n - b,
            {
                assert(alls[a as int] == all@[a as int]@);
                assert(alls[b as int] == all@[b as int]@);
                if path_eq(all[a].as_str(), all[b].as_str()) {
                    let mut m = string_of("路径 ");
                    let pd = path_debug(all[a].as_str());
                    m.append(pd.as_str());
                    m.append(" 重复定义");
                    result.add_warning("duplicate_path", m);
                }
                b = b + 1;
            }
            a = a + 1;
        }
        if result.errors.len() == 0 {
            result.add_pass("filesystem_isolation");
        }
        result
    }

    /// Warns of allowed and denied networks of which one is a prefix of the
    /// other.
    pub fn validate_network(&self) -> (r: ValidationResult)
        ensures
            r@ == network_report(strs(self.cfg().allowed_networks@), strs(self.cfg().denied_networks@)),
    {
        let mut result = ValidationResult::new();
        let denied = &self.config.denied_networks;
        let allowed = &self.config.allowed_networks;
        let ghost ds = strs(denied@);
        let ghost al = strs(allowed@);
        let mut i: usize = 0;
        while i < denied.len()
            invariant
                i <= denied@.len(),
                ds == strs(denied@),
                al == strs(allowed@),
                result@ == network_conflicts(empty_report(), ds, al, i as int),
            decreases denied.len() - i,
        {
            let d = denied[i].as_str();
            assert(ds[i as int] == d@);
            let ghost before = result@;
            let mut j: usize = 0;
            while j < allowed.len()
                invariant
                    j <= allowed@.len(),
                    al == strs(allowed@),
                    d@ == ds[i as int],
                    result@ == network_conflicts_with(before, d@, al, j as int),
                decreases allowed.len() - j,
            {
                let a = allowed[j].as_str();
                assert(al[j as int] == a@);
                if starts_with(a, d) || starts_with(d, a) {
                    let mut m = string_of("允许网络 ");
                    m.append(a);
                    m.append(" 和禁止网络 ");
                    m.append(d);
                    m.append(" 可能冲突");
                    result.add_warning("network_conflict", m);
                }
                j = j + 1;
            }
            i = i + 1;
        }
        if result.errors.len() == 0 {
            result.add_pass("network_isolation");
        }
        result
    }
}

/// Whether a sandbox may go from `from` to `to`: idle to running, running to
/// success or failure, anything to destroyed, and any state to itself.
pub open spec fn transition_allowed(from: SandboxStatus, to: SandboxStatus) -> bool {
    ||| from == SandboxStatus::Idle && to == SandboxStatus::Running
    ||| from == SandboxStatus::Running && to == SandboxStatus::Success
    ||| from == SandboxStatus::Running && to == SandboxStatus::Failed
    ||| to == SandboxStatus::Destroyed
    ||| from == to
}

/// The name of a state as `Debug` prints it.
pub open spec fn status_name_spec(s: SandboxStatus) -> Seq<char> {
    match s {
        SandboxStatus::Idle => "Idle"@,
        SandboxStatus::Running => "Running"@,
        SandboxStatus::Success => "Success"@,
        SandboxStatus::Failed => "Failed"@,
        SandboxStatus::Destroyed => "Destroyed"@,
    }
}

fn status_name(s: SandboxStatus) -> (r: &'static str)
    ensures
        r@ == status_name_spec(s),
{
    match s {
        SandboxStatus::Idle => "Idle",
        SandboxStatus::Running => "Running",
        SandboxStatus::Success => "Success",
        SandboxStatus::Failed => "Failed",
        SandboxStatus::Destroyed => "Destroyed",
    }
}

/// The report of a change of state.
pub open spec fn transition_report(from: SandboxStatus, to: SandboxStatus) -> ReportView {
    if transition_allowed(from, to) {
        with_pass(empty_report(), "status_transition"@)
    } else {
        with_error(
            empty_report(),
            "status_transition"@,
            "无效的状态转换: "@ + status_name_spec(from) + " -> "@ + status_name_spec(to),
        )
    }
}

/// Checks changes of a sandbox's state.
#[derive(Debug, Clone, Copy)]
pub struct StatusValidator;

impl StatusValidator {
    /// A status validator.
    pub fn new() -> (r: Self) {
        StatusValidator
    }

    /// Checks the change from `from` to `to`.
    pub fn validate_status_transition(from: SandboxStatus, to: SandboxStatus) -> (r: ValidationResult)
        ensures
            r@ == transition_report(from, to),
    {
        let mut result = ValidationResult::new();
        let valid = match (from, to) {
            (SandboxStatus::Idle, SandboxStatus::Running) => true,
            (SandboxStatus::Running, SandboxStatus::Success) => true,
            (SandboxStatus::Running, SandboxStatus::Failed) => true,
            (_, SandboxStatus::Destroyed) => true,
            (a, b) => a == b,
        };
        if valid {
            result.add_pass("status_transition");
        } else {
            let mut m = string_of("无效的状态转换: ");
            m.append(status_name(from));
            m.append(" -> ");
            m.append(status_name(to));
            result.add_error("status_transition", m);
        }
        result
    }
}

impl Default for StatusValidator {
    fn default() -> (r: Self) {
        Self::new()
    }
}

} // verus!
