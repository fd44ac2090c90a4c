//! Plugin sandboxes: permissions, resource limits, usage accounting and
//! path rules, and the manager that keeps one sandbox per plugin.

use vstd::prelude::*;
use std::collections::HashMap;
use crate::plugin::error::{Error, Result};
use crate::plugin::plugin::PluginType;
use crate::text::{decimal, decimal_string, has_prefix, starts_with, str_equal, string_of};

verus! {

/// Limits on what a plugin may use; `None` means unlimited.
#[derive(Debug, Clone, Copy, PartialEq, Eq, Structural)]
pub struct ResourceLimits {
    /// Most CPU time, in seconds.
    pub max_cpu_time_sec: Option<u64>,
    /// Most memory, in bytes.
    pub max_memory_bytes: Option<u64>,
    /// Most open file descriptors.
    pub max_file_descriptors: Option<u32>,
    /// Most network connections.
    pub max_network_connections: Option<u32>,
    /// Most bytes written to disk.
    pub max_disk_write_bytes: Option<u64>,
    /// Most bytes read from disk.
    pub max_disk_read_bytes: Option<u64>,
}

impl ResourceLimits {
    /// The default limits: a minute of CPU, 512 MiB of memory, 100 file
    /// descriptors, 10 connections, 1 GiB written and 1 GiB read.
    pub open spec fn defaults() -> ResourceLimits {
        ResourceLimits {
            max_cpu_time_sec: Some(60),
            max_memory_bytes: Some(536_870_912u64),
            max_file_descriptors: Some(100),
            max_network_connections: Some(10),
            max_disk_write_bytes: Some(1_073_741_824u64),
            max_disk_read_bytes: Some(1_073_741_824u64),
        }
    }
}

impl Default for ResourceLimits {
    fn default() -> (r: Self)
        ensures
            r == ResourceLimits::defaults(),
    {
        ResourceLimits {
            max_cpu_time_sec: Some(60),
            max_memory_bytes: Some(512 * 1024 * 1024),
            max_file_descriptors: Some(100),
            max_network_connections: Some(10),
            max_disk_write_bytes: Some(1024 * 1024 * 1024),
            max_disk_read_bytes: Some(1024 * 1024 * 1024),
        }
    }
}

/// What a plugin may do.
#[derive(Debug, Clone, Copy, PartialEq, Eq, Structural)]
pub struct PluginPermissions {
    /// May read files.
    pub allow_file_read: bool,
    /// May write files.
    pub allow_file_write: bool,
    /// May use the network.
    pub allow_network: bool,
    /// May start processes.
    pub allow_process_spawn: bool,
    /// May make system calls.
    pub allow_syscalls: bool,
    /// May read environment variables.
    pub allow_env_read: bool,
    /// May write environment variables.
    pub allow_env_write: bool,
}

/// The result of a permission check: `Ok` when `allowed`, else an error
/// with `message`.
pub open spec fn permission_outcome(allowed: bool, message: Seq<char>, r: Result<()>) -> bool {
    match r {
        Ok(()) => allowed,
        Err(Error::Plugin(m)) => !allowed && m@ == message,
    }
}

fn permission_check(allowed: bool, message: &str) -> (r: Result<()>)
    ensures
        permission_outcome(allowed, message@, r),
{
    if !allowed {
        return Err(Error::Plugin(string_of(message)));
    }
    Ok(())
}

impl PluginPermissions {
    /// Read-only permissions: files and environment may be read, nothing else.
    pub open spec fn read_only() -> PluginPermissions {
        PluginPermissions {
            allow_file_read: true,
            allow_file_write: false,
            allow_network: false,
            allow_process_spawn: false,
            allow_syscalls: false,
            allow_env_read: true,
            allow_env_write: false,
        }
    }

    /// Every permission (for trusted plugins only).
    pub fn allow_all() -> (r: Self)
        ensures
            r.allow_file_read && r.allow_file_write && r.allow_network && r.allow_process_spawn
                && r.allow_syscalls && r.allow_env_read && r.allow_env_write,
    {
        PluginPermissions {
            allow_file_read: true,
            allow_file_write: true,
            allow_network: true,
            allow_process_spawn: true,
            allow_syscalls: true,
            allow_env_read: true,
            allow_env_write: true,
        }
    }

    /// Read-only permissions.
    pub fn readonly() -> (r: Self)
        ensures
            r == PluginPermissions::read_only(),
    {
        PluginPermissions {
            allow_file_read: true,
            allow_file_write: false,
            allow_network: false,
            allow_process_spawn: false,
            allow_syscalls: false,
            allow_env_read: true,
            allow_env_write: false,
        }
    }

    /// Fails unless files may be read.
    pub fn check_file_read(&self) -> (r: Result<()>)
        ensures
            permission_outcome(self.allow_file_read, "File read permission denied"@, r),
    {
        permission_check(self.allow_file_read, "File read permission denied")
    }

    /// Fails unless files may be written.
    pub fn check_file_write(&self) -> (r: Result<()>)
        ensures
            permission_outcome(self.allow_file_write, "File write permission denied"@, r),
    {
        permission_check(self.allow_file_write, "File write permission denied")
    }

    /// Fails unless the network may be used.
    pub fn check_network(&self) -> (r: Result<()>)
        ensures
            permission_outcome(self.allow_network, "Network access permission denied"@, r),
    {
        permission_check(self.allow_network, "Network access permission denied")
    }

    /// Fails unless processes may be started.
    pub fn check_process_spawn(&self) -> (r: Result<()>)
        ensures
            permission_outcome(self.allow_process_spawn, "Process spawn permission denied"@, r),
    {
        permission_check(self.allow_process_spawn, "Process spawn permission denied")
    }

    /// Fails unless system calls may be made.
    pub fn check_syscalls(&self) -> (r: Result<()>)
        ensures
            permission_outcome(self.allow_syscalls, "System call permission denied"@, r),
    {
        permission_check(self.allow_syscalls, "System call permission denied")
    }

    /// Fails unless environment variables may be read.
    pub fn check_env_read(&self) -> (r: Result<()>)
        ensures
            permission_outcome(
                self.allow_env_read,
                "Environment variable read permission denied"@,
                r,
            ),
    {
        permission_check(self.allow_env_read, "Environment variable read permission denied")
    }

    /// Fails unless environment variables may be written.
    pub fn check_env_write(&self) -> (r: Result<()>)
        ensures
            permission_outcome(
                self.allow_env_write,
                "Environment variable write permission denied"@,
                r,
            ),
    {
        permission_check(self.allow_env_write, "Environment variable write permission denied")
    }
}

impl Default for PluginPermissions {
    /// Least privilege: read-only.
    fn default() -> (r: Self)
        ensures
            r == PluginPermissions::read_only(),
    {
        Self::readonly()
    }
}

/// Configuration of one sandbox.
#[derive(Debug, Clone)]
pub struct SandboxConfig {
    /// Resource limits.
    pub resource_limits: ResourceLimits,
    /// Permissions.
    pub permissions: PluginPermissions,
    /// Working directory, if any.
    pub working_directory: Option<String>,
    /// Path prefixes that may be accessed; empty means any.
    pub allowed_paths: Vec<String>,
    /// Path prefixes that may never be accessed.
    pub blocked_paths: Vec<String>,
    /// Environment variables.
    pub environment: HashMap<String, String>,
    /// Whether the network is isolated.
    pub enable_network_isolation: bool,
    /// Whether the file system is isolated.
    pub enable_fs_isolation: bool,
}

/// The characters of each string.
pub open spec fn views(v: Seq<String>) -> Seq<Seq<char>> {
    v.map_values(|s: String| s@)
}

impl SandboxConfig {
    /// Whether this is the default configuration: default limits, read-only
    /// permissions, no working directory, no path rules, no environment and no
    /// isolation.
    pub open spec fn is_default(&self) -> bool {
        &&& self.resource_limits == ResourceLimits::defaults()
        &&& self.permissions == PluginPermissions::read_only()
        &&& self.working_directory is None
        &&& self.allowed_paths@.len() == 0
        &&& self.blocked_paths@.len() == 0
        &&& self.environment@.len() == 0
        &&& !self.enable_network_isolation
        &&& !self.enable_fs_isolation
    }
}

impl Default for SandboxConfig {
    fn default() -> (r: Self)
        ensures
            r.is_default(),
    {
        SandboxConfig {
            resource_limits: ResourceLimits::default(),
            permissions: PluginPermissions::default(),
            working_directory: None,
            allowed_paths: Vec::new(),
            blocked_paths: Vec::new(),
            environment: HashMap::new(),
            enable_network_isolation: false,
            enable_fs_isolation: false,
        }
    }
}

/// What a plugin has used.
#[derive(Debug, Clone, Copy, PartialEq, Eq, Structural)]
pub struct ResourceUsage {
    /// CPU time, in nanoseconds.
    pub cpu_time_ns: u64,
    /// Memory, in bytes.
    pub memory_bytes: u64,
    /// Open file descriptors.
    pub file_descriptors: u32,
    /// Open network connections.
    pub network_connections: u32,
    /// Bytes written to disk.
    pub disk_write_bytes: u64,
    /// Bytes read from disk.
    pub disk_read_bytes: u64,
}

impl ResourceUsage {
    /// Nothing used.
    pub open spec fn zero() -> ResourceUsage {
        ResourceUsage {
            cpu_time_ns: 0,
            memory_bytes: 0,
            file_descriptors: 0,
            network_connections: 0,
            disk_write_bytes: 0,
            disk_read_bytes: 0,
        }
    }
}

impl Default for ResourceUsage {
    fn default() -> (r: Self)
        ensures
            r == ResourceUsage::zero(),
    {
        ResourceUsage {
            cpu_time_ns: 0,
            memory_bytes: 0,
            file_descriptors: 0,
            network_connections: 0,
            disk_write_bytes: 0,
            disk_read_bytes: 0,
        }
    }
}

/// A resource that has a limit.
#[derive(Debug, Clone, Copy, PartialEq, Eq, Structural)]
pub enum LimitKind {
    /// CPU time, counted in whole seconds.
    CpuTime,
    /// Memory.
    Memory,
    /// File descriptors.
    FileDescriptors,
    /// Network connections.
    NetworkConnections,
    /// Disk writes.
    DiskWrite,
    /// Disk reads.
    DiskRead,
}

/// Whether `used` is over an optional limit.
pub open spec fn over(used: int, limit: Option<int>) -> bool {
    limit is Some && used > limit->0
}

/// Some `int` of an optional `u64`.
pub open spec fn opt64(o: Option<u64>) -> Option<int> {
    match o {
        Some(v) => Some(v as int),
        None => None,
    }
}

/// Some `int` of an optional `u32`.
pub open spec fn opt32(o: Option<u32>) -> Option<int> {
    match o {
        Some(v) => Some(v as int),
        None => None,
    }
}

/// The first limit that `usage` breaks, in the order CPU time, memory, file
/// descriptors, connections, disk writes, disk reads, with the amount used
/// and the limit; CPU time is counted in whole seconds.
pub open spec fn first_breach(l: ResourceLimits, u: ResourceUsage) -> Option<(LimitKind, int, int)> {
    let cpu_sec = u.cpu_time_ns / 1_000_000_000;
    if over(cpu_sec as int, opt64(l.max_cpu_time_sec)) {
        Some((LimitKind::CpuTime, cpu_sec as int, l.max_cpu_time_sec->0 as int))
    } else if over(u.memory_bytes as int, opt64(l.max_memory_bytes)) {
        Some((LimitKind::Memory, u.memory_bytes as int, l.max_memory_bytes->0 as int))
    } else if over(u.file_descriptors as int, opt32(l.max_file_descriptors)) {
        Some((LimitKind::FileDescriptors, u.file_descriptors as int, l.max_file_descriptors->0 as int))
    } else if over(u.network_connections as int, opt32(l.max_network_connections)) {
        Some((
            LimitKind::NetworkConnections,
            u.network_connections as int,
            l.max_network_connections->0 as int,
        ))
    } else if over(u.disk_write_bytes as int, opt64(l.max_disk_write_bytes)) {
        Some((LimitKind::DiskWrite, u.disk_write_bytes as int, l.max_disk_write_bytes->0 as int))
    } else if over(u.disk_read_bytes as int, opt64(l.max_disk_read_bytes)) {
        Some((LimitKind::DiskRead, u.disk_read_bytes as int, l.max_disk_read_bytes->0 as int))
    } else {
        None
    }
}

/// The text before the amount used, between it and the limit, and after the
/// limit, in the message for a broken limit.
pub open spec fn breach_parts(k: LimitKind) -> (Seq<char>, Seq<char>, Seq<char>) {
    match k {
        LimitKind::CpuTime => ("CPU time limit exceeded: "@, "s > "@, "s"@),
        LimitKind::Memory => ("Memory limit exceeded: "@, " bytes > "@, " bytes"@),
        LimitKind::FileDescriptors => ("File descriptor limit exceeded: "@, " > "@, ""@),
        LimitKind::NetworkConnections => ("Network connection limit exceeded: "@, " > "@, ""@),
        LimitKind::DiskWrite => ("Disk write limit exceeded: "@, " bytes > "@, " bytes"@),
        LimitKind::DiskRead => ("Disk read limit exceeded: "@, " bytes > "@, " bytes"@),
    }
}

/// The message for a broken limit.
pub open spec fn breach_message(k: LimitKind, used: int, limit: int) -> Seq<char> {
    let p = breach_parts(k);
    p.0 + decimal(used as nat) + p.1 + decimal(limit as nat) + p.2
}

fn breach_text(k: LimitKind, used: u64, limit: u64) -> (r: String)
    ensures
        r@ == breach_message(k, used as int, limit as int),
{
    let (a, b, c) = match k {
        LimitKind::CpuTime => ("CPU time limit exceeded: ", "s > ", "s"),
        LimitKind::Memory => ("Memory limit exceeded: ", " bytes > ", " bytes"),
        LimitKind::FileDescriptors => ("File descriptor limit exceeded: ", " > ", ""),
        LimitKind::NetworkConnections => ("Network connection limit exceeded: ", " > ", ""),
        LimitKind::DiskWrite => ("Disk write limit exceeded: ", " bytes > ", " bytes"),
        LimitKind::DiskRead => ("Disk read limit exceeded: ", " bytes > ", " bytes"),
    };
    let mut s = string_of(a);
    let used_text = decimal_string(used);
    s.append(used_text.as_str());
    s.append(b);
    let limit_text = decimal_string(limit);
    s.append(limit_text.as_str());
    s.append(c);
    s
}

/// The outcome of checking `usage` against `limits`.
pub open spec fn limits_outcome(limits: ResourceLimits, usage: ResourceUsage, r: Result<()>) -> bool {
    match first_breach(limits, usage) {
        None => r is Ok,
        Some(b) => r matches Err(Error::Plugin(m)) && m@ == breach_message(b.0, b.1, b.2),
    }
}

/// Whether some path in `prefixes` is a prefix of `path`.
pub open spec fn any_prefix(prefixes: Seq<Seq<char>>, path: Seq<char>) -> bool {
    exists|i: int| 0 <= i < prefixes.len() && has_prefix(path, #[trigger] prefixes[i])
}

/// The message with which an access to `path` is refused, or `None` when it
/// is allowed: first the read or write permission, then the blocked
/// prefixes, then, when any are given, the allowed prefixes.
pub open spec fn file_access_error(
    permissions: PluginPermissions,
    allowed: Seq<Seq<char>>,
    blocked: Seq<Seq<char>>,
    path: Seq<char>,
    write: bool,
) -> Option<Seq<char>> {
    if write && !permissions.allow_file_write {
        Some("File write permission denied"@)
    } else if !write && !permissions.allow_file_read {
        Some("File read permission denied"@)
    } else if any_prefix(blocked, path) {
        Some("Access to path blocked: "@ + path)
    } else if allowed.len() > 0 && !any_prefix(allowed, path) {
        Some("Access to path not allowed: "@ + path)
    } else {
        None
    }
}

fn first_prefix_index(prefixes: &Vec<String>, path: &str) -> (r: Option<usize>)
    ensures
        r is None <==> !any_prefix(views(prefixes@), path@),
        r matches Some(i) ==> i < prefixes@.len() && has_prefix(path@, prefixes@[i as int]@),
{
    let mut i: usize = 0;
    while i < prefixes.len()
        invariant
            i <= prefixes@.len(),
            forall|j: int| 0 <= j < i ==> !has_prefix(path@, #[trigger] prefixes@[j]@),
        decreases prefixes.len() - i,
    {
        if starts_with(path, prefixes[i].as_str()) {
            assert(views(prefixes@)[i as int] == prefixes@[i as int]@);
            return Some(i);
        }
        i = i + 1;
    }
    proof {
        assert forall|j: int| 0 <= j < views(prefixes@).len() implies !has_prefix(
            path@,
            #[trigger] views(prefixes@)[j],
        ) by {
            assert(views(prefixes@)[j] == prefixes@[j]@);
        }
    }
    None
}

/// A plugin's sandbox: its configuration, what it has used, and whether it is
/// still active.
#[derive(Debug, Clone)]
pub struct Sandbox {
    plugin_id: String,
    config: SandboxConfig,
    usage: ResourceUsage,
    is_active: bool,
}

impl Sandbox {
    /// The plugin the sandbox belongs to.
    pub closed spec fn id(&self) -> Seq<char> {
        self.plugin_id@
    }

    /// The configuration.
    pub closed spec fn cfg(&self) -> SandboxConfig {
        self.config
    }

    /// What has been used.
    pub closed spec fn used(&self) -> ResourceUsage {
        self.usage
    }

    /// Whether the sandbox is active.
    pub closed spec fn active(&self) -> bool {
        self.is_active
    }

    /// A fresh, active sandbox with nothing used.
    pub fn new(plugin_id: String, config: SandboxConfig) -> (r: Self)
        ensures
            r.id() == plugin_id@,
            r.cfg() == config,
            r.used() == ResourceUsage::zero(),
            r.active(),
    {
        Sandbox { plugin_id, config, usage: ResourceUsage::default(), is_active: true }
    }

    /// Whether the sandbox is active.
    pub fn is_active(&self) -> (r: bool)
        ensures
            r == self.active(),
    {
        self.is_active
    }

    /// Marks the sandbox inactive.
    pub fn deactivate(&mut self)
        ensures
            !final(self).active(),
            final(self).id() == old(self).id(),
            final(self).cfg() == old(self).cfg(),
            final(self).used() == old(self).used(),
    {
        self.is_active = false;
    }

    /// What has been used.
    pub fn get_usage(&self) -> (r: ResourceUsage)
        ensures
            r == self.used(),
    {
        self.usage
    }

    /// Checks the usage against the limits; fails with the first limit broken.
    pub fn check_resource_limits(&self) -> (r: Result<()>)
        ensures
            limits_outcome(self.cfg().resource_limits, self.used(), r),
    {
        let usage = self.usage;
        let limits = self.config.resource_limits;
        if let Some(max_cpu) = limits.max_cpu_time_sec {
            let cpu_time_sec = usage.cpu_time_ns / 1_000_000_000;
            if cpu_time_sec > max_cpu {
                return Err(Error::Plugin(breach_text(LimitKind::CpuTime, cpu_time_sec, max_cpu)));
            }
        }
        if let Some(max_mem) = limits.max_memory_bytes {
            if usage.memory_bytes > max_mem {
                return Err(Error::Plugin(breach_text(LimitKind::Memory, usage.memory_bytes, max_mem)));
            }
        }
        if let Some(max_fds) = limits.max_file_descriptors {
            if usage.file_descriptors > max_fds {
                return Err(
                    Error::Plugin(
                        breach_text(
                            LimitKind::FileDescriptors,
                            usage.file_descriptors as u64,
                            max_fds as u64,
                        ),
                    ),
                );
            }
        }
        if let Some(max_net) = limits.max_network_connections {
            if usage.network_connections > max_net {
                return Err(
                    Error::Plugin(
                        breach_text(
                            LimitKind::NetworkConnections,
                            usage.network_connections as u64,
                            max_net as u64,
                        ),
                    ),
                );
            }
        }
        if let Some(max_write) = limits.max_disk_write_bytes {
            if usage.disk_write_bytes > max_write {
                return Err(
                    Error::Plugin(breach_text(LimitKind::DiskWrite, usage.disk_write_bytes, max_write)),
                );
            }
        }
        if let Some(max_read) = limits.max_disk_read_bytes {
            if usage.disk_read_bytes > max_read {
                return Err(
                    Error::Plugin(breach_text(LimitKind::DiskRead, usage.disk_read_bytes, max_read)),
                );
            }
        }
        Ok(())
    }

    /// Checks an access to `path`, for writing when `write`.
    pub fn check_file_access(&self, path: &str, write: bool) -> (r: Result<()>)
        ensures
            match r {
                Ok(()) => file_access_error(
                    self.cfg().permissions,
                    views(self.cfg().allowed_paths@),
                    views(self.cfg().blocked_paths@),
                    path@,
                    write,
                ) is None,
                Err(Error::Plugin(m)) => file_access_error(
                    self.cfg().permissions,
                    views(self.cfg().allowed_paths@),
                    views(self.cfg().blocked_paths@),
                    path@,
                    write,
                ) == Some(m@),
            },
    {
        if write {
            self.config.permissions.check_file_write()?;
        } else {
            self.config.permissions.check_file_read()?;
        }
        if first_prefix_index(&self.config.blocked_paths, path).is_some() {
            let mut m = string_of("Access to path blocked: ");
            m.append(path);
            return Err(Error::Plugin(m));
        }
        if self.config.allowed_paths.len() > 0 {
            if first_prefix_index(&self.config.allowed_paths, path).is_none() {
                let mut m = string_of("Access to path not allowed: ");
                m.append(path);
                return Err(Error::Plugin(m));
            }
        }
        Ok(())
    }

    /// Adds `nanoseconds` of CPU time.
    pub fn record_cpu_time(&mut self, nanoseconds: u64)
        requires
            old(self).used().cpu_time_ns + nanoseconds <= u64::MAX,
        ensures
            final(self).used() == (ResourceUsage {
                cpu_time_ns: (old(self).used().cpu_time_ns + nanoseconds) as u64,
                ..old(self).used()
            }),
            final(self).id() == old(self).id(),
            final(self).cfg() == old(self).cfg(),
            final(self).active() == old(self).active(),
    {
        self.usage.cpu_time_ns = self.usage.cpu_time_ns + nanoseconds;
    }

    /// Sets the memory in use.
    pub fn record_memory(&mut self, bytes: u64)
        ensures
            final(self).used() == (ResourceUsage { memory_bytes: bytes, ..old(self).used() }),
            final(self).id() == old(self).id(),
            final(self).cfg() == old(self).cfg(),
            final(self).active() == old(self).active(),
    {
        self.usage.memory_bytes = bytes;
    }

    /// Sets the number of open file descriptors.
    pub fn record_file_descriptor(&mut self, count: u32)
        ensures
            final(self).used() == (ResourceUsage { file_descriptors: count, ..old(self).used() }),
            final(self).id() == old(self).id(),
            final(self).cfg() == old(self).cfg(),
            final(self).active() == old(self).active(),
    {
        self.usage.file_descriptors = count;
    }

    /// Counts one more network connection.
    pub fn record_network_connection(&mut self)
        requires
            old(self).used().network_connections < u32::MAX,
        ensures
            final(self).used() == (ResourceUsage {
                network_connections: (old(self).used().network_connections + 1) as u32,
                ..old(self).used()
            }),
            final(self).id() == old(self).id(),
            final(self).cfg() == old(self).cfg(),
            final(self).active() == old(self).active(),
    {
        self.usage.network_connections = self.usage.network_connections + 1;
    }

    /// Counts one connection fewer, never below zero.
    pub fn release_network_connection(&mut self)
        ensures
            final(self).used() == (ResourceUsage {
                network_connections: if old(self).used().network_connections == 0 {
                    0u32
                } else {
                    (old(self).used().network_connections - 1) as u32
                },
                ..old(self).used()
            }),
            final(self).id() == old(self).id(),
            final(self).cfg() == old(self).cfg(),
            final(self).active() == old(self).active(),
    {
        self.usage.network_connections = self.usage.network_connections.saturating_sub(1);
    }

    /// Adds `bytes` written to disk.
    pub fn record_disk_write(&mut self, bytes: u64)
        requires
            old(self).used().disk_write_bytes + bytes <= u64::MAX,
        ensures
            final(self).used() == (ResourceUsage {
                disk_write_bytes: (old(self).used().disk_write_bytes + bytes) as u64,
                ..old(self).used()
            }),
            final(self).id() == old(self).id(),
            final(self).cfg() == old(self).cfg(),
            final(self).active() == old(self).active(),
    {
        self.usage.disk_write_bytes = self.usage.disk_write_bytes + bytes;
    }

    /// Adds `bytes` read from disk.
    pub fn record_disk_read(&mut self, bytes: u64)
        requires
            old(self).used().disk_read_bytes + bytes <= u64::MAX,
        ensures
            final(self).used() == (ResourceUsage {
                disk_read_bytes: (old(self).used().disk_read_bytes + bytes) as u64,
                ..old(self).used()
            }),
            final(self).id() == old(self).id(),
            final(self).cfg() == old(self).cfg(),
            final(self).active() == old(self).active(),
    {
        self.usage.disk_read_bytes = self.usage.disk_read_bytes + bytes;
    }

    /// Forgets all usage.
    pub fn reset_usage(&mut self)
        ensures
            final(self).used() == ResourceUsage::zero(),
            final(self).id() == old(self).id(),
            final(self).cfg() == old(self).cfg(),
            final(self).active() == old(self).active(),
    {
        self.usage = ResourceUsage::default();
    }

    /// The configuration.
    pub fn get_config(&self) -> (r: &SandboxConfig)
        ensures
            *r == self.cfg(),
    {
        &self.config
    }

    /// The plugin the sandbox belongs to.
    pub fn get_plugin_id(&self) -> (r: &str)
        ensures
            r@ == self.id(),
    {
        self.plugin_id.as_str()
    }
}


/// The permissions and limits that `create_config_for_plugin_type` gives a
/// kind of plugin; everything else stays at the defaults.
pub open spec fn plugin_type_profile(t: PluginType) -> (PluginPermissions, ResourceLimits) {
    match t {
        PluginType::Storage => (
            PluginPermissions { allow_file_write: true, ..PluginPermissions::read_only() },
            ResourceLimits { max_memory_bytes: Some(1_073_741_824u64), ..ResourceLimits::defaults() },
        ),
        PluginType::Monitor => (
            PluginPermissions { allow_network: true, ..PluginPermissions::read_only() },
            ResourceLimits { max_memory_bytes: Some(268_435_456u64), ..ResourceLimits::defaults() },
        ),
        PluginType::Notifier => (
            PluginPermissions {
                allow_file_read: false,
                allow_network: true,
                ..PluginPermissions::read_only()
            },
            ResourceLimits { max_memory_bytes: Some(134_217_728u64), ..ResourceLimits::defaults() },
        ),
        PluginType::Custom => (PluginPermissions::read_only(), ResourceLimits::defaults()),
    }
}

/// Whether some sandbox in `s` belongs to `id`.
pub open spec fn holds_id(s: Seq<Sandbox>, id: Seq<char>) -> bool {
    exists|i: int| 0 <= i < s.len() && (#[trigger] s[i]).id() == id
}

/// Whether no two sandboxes in `s` belong to the same plugin.
pub open spec fn distinct_ids(s: Seq<Sandbox>) -> bool {
    forall|i: int, j: int| 0 <= i < s.len() && 0 <= j < s.len() && i != j ==> (#[trigger] s[i]).id() != (#[trigger] s[j]).id()
}

/// Whether two configurations hold the same values.
pub open spec fn same_config(a: SandboxConfig, b: SandboxConfig) -> bool {
    &&& a.resource_limits == b.resource_limits
    &&& a.permissions == b.permissions
    &&& a.working_directory == b.working_directory
    &&& a.allowed_paths@ == b.allowed_paths@
    &&& a.blocked_paths@ == b.blocked_paths@
    &&& a.environment@ == b.environment@
    &&& a.enable_network_isolation == b.enable_network_isolation
    &&& a.enable_fs_isolation == b.enable_fs_isolation
}

fn copy_strings(v: &Vec<String>) -> (r: Vec<String>)
    ensures
        r@ == v@,
{
    let r = v.clone();
    assert(r@ =~= v@);
    r
}

fn copy_config(c: &SandboxConfig) -> (r: SandboxConfig)
    ensures
        same_config(r, *c),
{
    SandboxConfig {
        resource_limits: c.resource_limits,
        permissions: c.permissions,
        working_directory: match &c.working_directory {
            Some(d) => Some(d.clone()),
            None => None,
        },
        allowed_paths: copy_strings(&c.allowed_paths),
        blocked_paths: copy_strings(&c.blocked_paths),
        environment: c.environment.clone(),
        enable_network_isolation: c.enable_network_isolation,
        enable_fs_isolation: c.enable_fs_isolation,
    }
}

/// Whether `sb` is a fresh sandbox of plugin `id` with configuration `cfg`.
pub open spec fn is_fresh(sb: Sandbox, id: Seq<char>, cfg: SandboxConfig) -> bool {
    &&& sb.id() == id
    &&& same_config(sb.cfg(), cfg)
    &&& sb.used() == ResourceUsage::zero()
    &&& sb.active()
}

/// Keeps one sandbox per plugin.
pub struct SandboxManager {
    sandboxes: Vec<Sandbox>,
    default_config: SandboxConfig,
}

impl SandboxManager {
    /// The sandboxes, in the order they were created.
    pub closed spec fn entries(&self) -> Seq<Sandbox> {
        self.sandboxes@
    }

    /// The configuration a sandbox gets when none is given.
    pub closed spec fn default_cfg(&self) -> SandboxConfig {
        self.default_config
    }

    /// The manager's invariant: one sandbox per plugin.
    pub open spec fn wf(&self) -> bool {
        distinct_ids(self.entries())
    }

    /// A manager with no sandboxes.
    pub fn new(default_config: SandboxConfig) -> (r: Self)
        ensures
            r.wf(),
            r.entries().len() == 0,
            r.default_cfg() == default_config,
    {
        SandboxManager { sandboxes: Vec::new(), default_config }
    }

    /// A manager with no sandboxes and the default configuration.
    pub fn new_with_default() -> (r: Self)
        ensures
            r.wf(),
            r.entries().len() == 0,
            r.default_cfg().is_default(),
    {
        Self::new(SandboxConfig::default())
    }

    /// The sandbox configuration for a kind of plugin.
    pub fn create_config_for_plugin_type(plugin_type: &PluginType) -> (r: SandboxConfig)
        ensures
            r.permissions == plugin_type_profile(*plugin_type).0,
            r.resource_limits == plugin_type_profile(*plugin_type).1,
            r.working_directory is None,
            r.allowed_paths@.len() == 0,
            r.blocked_paths@.len() == 0,
            r.environment@.len() == 0,
            !r.enable_network_isolation,
            !r.enable_fs_isolation,
    {
        let mut config = SandboxConfig::default();
        match plugin_type {
            PluginType::Storage => {
                config.permissions = PluginPermissions {
                    allow_file_read: true,
                    allow_file_write: true,
                    allow_network: false,
                    allow_process_spawn: false,
                    allow_syscalls: false,
                    allow_env_read: true,
                    allow_env_write: false,
                };
                config.resource_limits.max_memory_bytes = Some(1024 * 1024 * 1024);
            },
            PluginType::Monitor => {
                config.permissions = PluginPermissions {
                    allow_file_read: true,
                    allow_file_write: false,
                    allow_network: true,
                    allow_process_spawn: false,
                    allow_syscalls: false,
                    allow_env_read: true,
                    allow_env_write: false,
                };
                config.resource_limits.max_memory_bytes = Some(256 * 1024 * 1024);
            },
            PluginType::Notifier => {
                config.permissions = PluginPermissions {
                    allow_file_read: false,
                    allow_file_write: false,
                    allow_network: true,
                    allow_process_spawn: false,
                    allow_syscalls: false,
                    allow_env_read: true,
                    allow_env_write: false,
                };
                config.resource_limits.max_memory_bytes = Some(128 * 1024 * 1024);
            },
            PluginType::Custom => {
                config.permissions = PluginPermissions::default();
            },
        }
        config
    }

    fn position(&self, plugin_id: &str) -> (r: Option<usize>)
        ensures
            r is None <==> !holds_id(self.entries(), plugin_id@),
            r matches Some(i) ==> i < self.entries().len() && self.entries()[i as int].id()
                == plugin_id@,
    {
        let mut i: usize = 0;
        while i < self.sandboxes.len()
            invariant
                i <= self.sandboxes@.len(),
                forall|j: int| 0 <= j < i ==> (#[trigger] self.sandboxes@[j]).id() != plugin_id@,
            decreases self.sandboxes.len() - i,
        {
            if str_equal(self.sandboxes[i].plugin_id.as_str(), plugin_id) {
                return Some(i);
            }
            i = i + 1;
        }
        None
    }

    /// Creates a fresh sandbox for `plugin_id` with `config`, or with the
    /// default configuration when none is given; a sandbox the plugin already
    /// had is replaced in place.
    pub fn create_sandbox(&mut self, plugin_id: String, config: Option<SandboxConfig>) -> (r: Result<()>)
        requires
            old(self).wf(),
        ensures
            r is Ok,
            final(self).wf(),
            final(self).default_cfg() == old(self).default_cfg(),
            holds_id(old(self).entries(), plugin_id@) ==> final(self).entries().len() == old(
                self,
            ).entries().len(),
            !holds_id(old(self).entries(), plugin_id@) ==> final(self).entries().len() == old(
                self,
            ).entries().len() + 1,
            forall|j: int|
                0 <= j < old(self).entries().len() && old(self).entries()[j].id() != plugin_id@
                    ==> #[trigger] final(self).entries()[j] == old(self).entries()[j],
            forall|j: int|
                0 <= j < final(self).entries().len() && (#[trigger] final(self).entries()[j]).id()
                    == plugin_id@ ==> is_fresh(
                    final(self).entries()[j],
                    plugin_id@,
                    match config {
                        Some(c) => c,
                        None => old(self).default_cfg(),
                    },
                ),
            holds_id(final(self).entries(), plugin_id@),
    {
        let cfg = match config {
            Some(c) => c,
            None => copy_config(&self.default_config),
        };
        let ghost id = plugin_id@;
        let sandbox = Sandbox::new(plugin_id, cfg);
        match self.position(sandbox.plugin_id.as_str()) {
            Some(i) => {
                self.sandboxes.set(i, sandbox);
                assert(self.sandboxes@[i as int].id() == id);
            },
            None => {
                self.sandboxes.push(sandbox);
                assert(self.sandboxes@[self.sandboxes@.len() - 1].id() == id);
            },
        }
        Ok(())
    }

    /// The sandbox of `plugin_id`.
    pub fn get_sandbox(&self, plugin_id: &str) -> (r: Result<&Sandbox>)
        requires
            self.wf(),
        ensures
            r is Ok <==> holds_id(self.entries(), plugin_id@),
            r matches Ok(sb) ==> sb.id() == plugin_id@ && self.entries().contains(*sb),
            r matches Err(Error::Plugin(m)) ==> m@ == "Sandbox not found: "@ + plugin_id@,
    {
        match self.position(plugin_id) {
            Some(i) => Ok(&self.sandboxes[i]),
            None => {
                let mut m = string_of("Sandbox not found: ");
                m.append(plugin_id);
                Err(Error::Plugin(m))
            },
        }
    }

    /// Removes the sandbox of `plugin_id`; fails when it has none.
    pub fn remove_sandbox(&mut self, plugin_id: &str) -> (r: Result<()>)
        requires
            old(self).wf(),
        ensures
            final(self).wf(),
            final(self).default_cfg() == old(self).default_cfg(),
            r is Ok <==> holds_id(old(self).entries(), plugin_id@),
            r is Ok ==> (exists|i: int|
                0 <= i < old(self).entries().len() && (#[trigger] old(self).entries()[i]).id()
                    == plugin_id@ && final(self).entries() == old(self).entries().remove(i)),
            r matches Err(Error::Plugin(m)) ==> m@ == "Sandbox not found for plugin: "@
                + plugin_id@ && final(self).entries() == old(self).entries(),
            !holds_id(final(self).entries(), plugin_id@),
    {
        match self.position(plugin_id) {
            Some(i) => {
                let ghost before = self.sandboxes@;
                let mut removed = self.sandboxes.remove(i);
                removed.deactivate();
                assert(self.sandboxes@ == before.remove(i as int));
                assert forall|k: int| 0 <= k < self.sandboxes@.len() implies (
                #[trigger] self.sandboxes@[k]).id() != plugin_id@ by {
                    if k < i {
                        assert(self.sandboxes@[k] == before[k]);
                    } else {
                        assert(self.sandboxes@[k] == before[k + 1]);
                    }
                }
                Ok(())
            },
            None => {
                let mut m = string_of("Sandbox not found for plugin: ");
                m.append(plugin_id);
                Err(Error::Plugin(m))
            },
        }
    }

    /// The plugins that have a sandbox.
    pub fn list_sandboxes(&self) -> (r: Vec<String>)
        ensures
            r@.len() == self.entries().len(),
            forall|i: int| 0 <= i < r@.len() ==> (#[trigger] r@[i])@ == self.entries()[i].id(),
    {
        let mut r: Vec<String> = Vec::new();
        let mut i: usize = 0;
        while i < self.sandboxes.len()
            invariant
                i <= self.sandboxes@.len(),
                r@.len() == i,
                forall|k: int| 0 <= k < i ==> (#[trigger] r@[k])@ == self.sandboxes@[k].id(),
            decreases self.sandboxes.len() - i,
        {
            r.push(self.sandboxes[i].plugin_id.clone());
            i = i + 1;
        }
        r
    }

    /// Removes every inactive sandbox and returns how many were removed.
    pub fn cleanup_inactive(&mut self) -> (r: usize)
        requires
            old(self).wf(),
        ensures
            final(self).wf(),
            final(self).default_cfg() == old(self).default_cfg(),
            final(self).entries() == old(self).entries().filter(|sb: Sandbox| sb.active()),
            r == old(self).entries().len() - final(self).entries().len(),
    {
        let mut kept: Vec<Sandbox> = Vec::new();
        let mut removed: usize = 0;
        let mut rest: Vec<Sandbox> = Vec::new();
        std::mem::swap(&mut rest, &mut self.sandboxes);
        let ghost all = rest@;
        let n = rest.len();
        let mut i: usize = 0;
        while i < n
            invariant
                n == all.len(),
                i <= n,
                distinct_ids(all),
                rest@ == all.subrange(i as int, n as int),
                kept@ == all.subrange(0, i as int).filter(|sb: Sandbox| sb.active()),
                distinct_ids(kept@),
                forall|k: int|
                    0 <= k < kept@.len() ==> exists|j: int|
                        0 <= j < i && #[trigger] kept@[k] == all[j],
                removed + kept@.len() == i,
            decreases n - i,
        {
            let sb = rest.remove(0);
            assert(sb == all[i as int]);
            proof {
                assert(all.subrange(0, i as int + 1) =~= all.subrange(0, i as int).push(all[i as int]));
                all.subrange(0, i as int).lemma_filter_push(all[i as int], |sb: Sandbox| sb.active());
            }
            assert(rest@ =~= all.subrange(i as int + 1, n as int));
            let ghost prev = kept@;
            if sb.is_active {
                kept.push(sb);
                assert forall|k: int| 0 <= k < kept@.len() implies exists|j: int|
                    0 <= j < i + 1 && #[trigger] kept@[k] == all[j] by {
                    if k < prev.len() {
                        assert(kept@[k] == prev[k]);
                    } else {
                        assert(kept@[k] == all[i as int]);
                    }
                }
                assert forall|a: int, b: int|
                    0 <= a < kept@.len() && 0 <= b < kept@.len() && a != b implies (
                    #[trigger] kept@[a]).id() != (#[trigger] kept@[b]).id() by {
                    if a < prev.len() && b < prev.len() {
                        assert(kept@[a] == prev[a] && kept@[b] == prev[b]);
                    } else if a < prev.len() {
                        assert(kept@[a] == prev[a]);
                        let ja = choose|j: int| 0 <= j < i && #[trigger] prev[a] == all[j];
                        assert(all[ja].id() != all[i as int].id());
                    } else {
                        assert(kept@[b] == prev[b]);
                        let jb = choose|j: int| 0 <= j < i && #[trigger] prev[b] == all[j];
                        assert(all[jb].id() != all[i as int].id());
                    }
                }
            } else {
                removed = removed + 1;
            }
            i = i + 1;
        }
        assert(all.subrange(0, n as int) == all);
        proof {
            all.lemma_filter_len(|sb: Sandbox| sb.active());
        }
        self.sandboxes = kept;
        removed
    }
}

/// Blocked paths win: once the read or write permission holds, a path
/// that starts with a blocked prefix is refused with the blocked message,
/// whatever the allowed prefixes hold.
pub proof fn lemma_blocked_paths_win(
    permissions: PluginPermissions,
    allowed: Seq<Seq<char>>,
    blocked: Seq<Seq<char>>,
    path: Seq<char>,
    write: bool,
    i: int,
)
    requires
        0 <= i < blocked.len(),
        has_prefix(path, blocked[i]),
        write ==> permissions.allow_file_write,
        !write ==> permissions.allow_file_read,
    ensures
        file_access_error(permissions, allowed, blocked, path, write) == Some(
            "Access to path blocked: "@ + path,
        ),
{
}

/// An access is granted only with the permission for its kind, on a path
/// under no blocked prefix and, when allowed prefixes are given, under one
/// of them.
pub proof fn lemma_file_access_granted_when(
    permissions: PluginPermissions,
    allowed: Seq<Seq<char>>,
    blocked: Seq<Seq<char>>,
    path: Seq<char>,
    write: bool,
)
    ensures
        file_access_error(permissions, allowed, blocked, path, write) is None <==> (if write {
            permissions.allow_file_write
        } else {
            permissions.allow_file_read
        }) && (forall|i: int| 0 <= i < blocked.len() ==> !has_prefix(path, #[trigger] blocked[i])) && (
        allowed.len() == 0 || exists|i: int| 0 <= i < allowed.len() && has_prefix(path, #[trigger] allowed[i])),
{
}

} // verus!
