//! Isolation of a sandbox: which paths and network addresses it may use,
//! and the processes it started.

use vstd::prelude::*;
use std::collections::HashMap;
use crate::paths::{path_prefix, path_starts_with};
use crate::sandbox::error::Result;
use crate::text::{has_prefix, starts_with, str_equal};

verus! {

/// Configuration of the isolation layers.
#[derive(Debug, Clone)]
pub struct IsolationConfig {
    /// Root of the isolated file system, if any.
    pub filesystem_root: Option<String>,
    /// Paths that may be read.
    pub readonly_paths: Vec<String>,
    /// Paths that may be read and written.
    pub readwrite_paths: Vec<String>,
    /// Paths that may not be used.
    pub denied_paths: Vec<String>,
    /// Network namespace, if any.
    pub network_namespace: Option<String>,
    /// Address prefixes that may be reached.
    pub allowed_networks: Vec<String>,
    /// Address prefixes that may not be reached.
    pub denied_networks: Vec<String>,
    /// Environment variables.
    pub environment: HashMap<String, String>,
}

/// The characters of each string.
pub open spec fn strs(v: Seq<String>) -> Seq<Seq<char>> {
    v.map_values(|s: String| s@)
}

impl IsolationConfig {
    /// Whether nothing is configured.
    pub open spec fn is_empty_config(&self) -> bool {
        &&& self.filesystem_root is None
        &&& self.readonly_paths@.len() == 0
        &&& self.readwrite_paths@.len() == 0
        &&& self.denied_paths@.len() == 0
        &&& self.network_namespace is None
        &&& self.allowed_networks@.len() == 0
        &&& self.denied_networks@.len() == 0
        &&& self.environment@.len() == 0
    }
}

impl Default for IsolationConfig {
    fn default() -> (r: Self)
        ensures
            r.is_empty_config(),
    {
        IsolationConfig {
            filesystem_root: None,
            readonly_paths: Vec::new(),
            readwrite_paths: Vec::new(),
            denied_paths: Vec::new(),
            network_namespace: None,
            allowed_networks: Vec::new(),
            denied_networks: Vec::new(),
            environment: HashMap::new(),
        }
    }
}

/// Whether two isolation configurations hold the same values.
pub open spec fn same_isolation(a: IsolationConfig, b: IsolationConfig) -> bool {
    &&& a.filesystem_root == b.filesystem_root
    &&& a.readonly_paths@ == b.readonly_paths@
    &&& a.readwrite_paths@ == b.readwrite_paths@
    &&& a.denied_paths@ == b.denied_paths@
    &&& a.network_namespace == b.network_namespace
    &&& a.allowed_networks@ == b.allowed_networks@
    &&& a.denied_networks@ == b.denied_networks@
    &&& a.environment@ == b.environment@
}

/// A copy of a list of strings.
pub fn copy_strings(v: &Vec<String>) -> (r: Vec<String>)
    ensures
        r@ == v@,
{
    let r = v.clone();
    assert(r@ =~= v@);
    r
}

fn copy_opt(o: &Option<String>) -> (r: Option<String>)
    ensures
        r == *o,
{
    match o {
        Some(s) => Some(s.clone()),
        None => None,
    }
}

/// A copy of an isolation configuration.
pub fn copy_isolation(c: &IsolationConfig) -> (r: IsolationConfig)
    ensures
        same_isolation(r, *c),
{
    IsolationConfig {
        filesystem_root: copy_opt(&c.filesystem_root),
        readonly_paths: copy_strings(&c.readonly_paths),
        readwrite_paths: copy_strings(&c.readwrite_paths),
        denied_paths: copy_strings(&c.denied_paths),
        network_namespace: copy_opt(&c.network_namespace),
        allowed_networks: copy_strings(&c.allowed_networks),
        denied_networks: copy_strings(&c.denied_networks),
        environment: c.environment.clone(),
    }
}

/// State of the file-system isolation.
#[derive(Debug, Clone, Copy, PartialEq, Eq, Structural)]
pub enum FilesystemIsolationStatus {
    /// Not active.
    Inactive,
    /// Active.
    Active,
    /// Destroyed.
    Destroyed,
}

/// State of the network isolation.
#[derive(Debug, Clone, Copy, PartialEq, Eq, Structural)]
pub enum NetworkIsolationStatus {
    /// Not active.
    Inactive,
    /// Active.
    Active,
    /// Destroyed.
    Destroyed,
}

/// State of the process isolation.
#[derive(Debug, Clone, Copy, PartialEq, Eq, Structural)]
pub enum ProcessIsolationStatus {
    /// Not active.
    Inactive,
    /// Active.
    Active,
    /// Destroyed.
    Destroyed,
}

/// What may be done with a path.
#[derive(Debug, Clone, Copy, PartialEq, Eq, Structural)]
pub enum PathAccess {
    /// Read only.
    ReadOnly,
    /// Read and write.
    ReadWrite,
    /// Nothing.
    Denied,
}

/// Whether a network address may be reached.
#[derive(Debug, Clone, Copy, PartialEq, Eq, Structural)]
pub enum NetworkAccess {
    /// Allowed.
    Allowed,
    /// Denied.
    Denied,
}

/// Whether some path of `bases` is a whole-component prefix of `path`.
pub open spec fn under_any(bases: Seq<Seq<char>>, path: Seq<char>) -> bool {
    exists|i: int| 0 <= i < bases.len() && path_prefix(path, #[trigger] bases[i])
}

/// The access to `path`: nothing unless the isolation is active; then
/// denied paths win over read-write paths, which win over read-only paths,
/// and any other path is denied.
pub open spec fn path_access(
    active: bool,
    readonly: Seq<Seq<char>>,
    readwrite: Seq<Seq<char>>,
    denied: Seq<Seq<char>>,
    path: Seq<char>,
) -> PathAccess {
    if !active {
        PathAccess::Denied
    } else if under_any(denied, path) {
        PathAccess::Denied
    } else if under_any(readwrite, path) {
        PathAccess::ReadWrite
    } else if under_any(readonly, path) {
        PathAccess::ReadOnly
    } else {
        PathAccess::Denied
    }
}

fn find_under(bases: &Vec<String>, path: &str) -> (r: bool)
    ensures
        r == under_any(strs(bases@), path@),
{
    let mut i: usize = 0;
    while i < bases.len()
        invariant
            i <= bases@.len(),
            forall|j: int| 0 <= j < i ==> !path_prefix(path@, #[trigger] bases@[j]@),
        decreases bases.len() - i,
    {
        if path_starts_with(path, bases[i].as_str()) {
            assert(strs(bases@)[i as int] == bases@[i as int]@);
            return true;
        }
        i = i + 1;
    }
    assert forall|j: int| 0 <= j < strs(bases@).len() implies !path_prefix(
        path@,
        #[trigger] strs(bases@)[j],
    ) by {
        assert(strs(bases@)[j] == bases@[j]@);
    }
    false
}

/// File-system isolation.
#[derive(Debug)]
pub struct FilesystemIsolation {
    config: IsolationConfig,
    status: FilesystemIsolationStatus,
    mount_points: Vec<String>,
}

impl FilesystemIsolation {
    /// The configuration.
    pub closed spec fn cfg(&self) -> IsolationConfig {
        self.config
    }

    /// The state.
    pub closed spec fn state(&self) -> FilesystemIsolationStatus {
        self.status
    }

    /// The mount points, in the order they were added.
    pub closed spec fn mounts(&self) -> Seq<String> {
        self.mount_points@
    }

    /// An inactive isolation with no mount points.
    pub fn new(config: IsolationConfig) -> (r: Self)
        ensures
            r.cfg() == config,
            r.state() == FilesystemIsolationStatus::Inactive,
            r.mounts().len() == 0,
    {
        FilesystemIsolation {
            config,
            status: FilesystemIsolationStatus::Inactive,
            mount_points: Vec::new(),
        }
    }

    /// Activates the isolation.
    pub fn activate(&mut self) -> (r: Result<()>)
        ensures
            r is Ok,
            final(self).state() == FilesystemIsolationStatus::Active,
            final(self).cfg() == old(self).cfg(),
            final(self).mounts() == old(self).mounts(),
    {
        self.status = FilesystemIsolationStatus::Active;
        Ok(())
    }

    /// What may be done with `path`.
    pub fn check_path_access(&self, path: &str) -> (r: Result<PathAccess>)
        ensures
            r == Ok::<PathAccess, crate::sandbox::error::SandboxError>(
                path_access(
                    self.state() == FilesystemIsolationStatus::Active,
                    strs(self.cfg().readonly_paths@),
                    strs(self.cfg().readwrite_paths@),
                    strs(self.cfg().denied_paths@),
                    path@,
                ),
            ),
    {
        if self.status != FilesystemIsolationStatus::Active {
            return Ok(PathAccess::Denied);
        }
        if find_under(&self.config.denied_paths, path) {
            return Ok(PathAccess::Denied);
        }
        if find_under(&self.config.readwrite_paths, path) {
            return Ok(PathAccess::ReadWrite);
        }
        if find_under(&self.config.readonly_paths, path) {
            return Ok(PathAccess::ReadOnly);
        }
        Ok(PathAccess::Denied)
    }

    /// Adds a mount point.
    pub fn add_mount_point(&mut self, path: String) -> (r: Result<()>)
        ensures
            r is Ok,
            final(self).mounts() == old(self).mounts().push(path),
            final(self).state() == old(self).state(),
            final(self).cfg() == old(self).cfg(),
    {
        self.mount_points.push(path);
        Ok(())
    }

    /// Destroys the isolation.
    pub fn destroy(&mut self) -> (r: Result<()>)
        ensures
            r is Ok,
            final(self).state() == FilesystemIsolationStatus::Destroyed,
            final(self).cfg() == old(self).cfg(),
            final(self).mounts() == old(self).mounts(),
    {
        self.status = FilesystemIsolationStatus::Destroyed;
        Ok(())
    }

    /// The state.
    pub fn status(&self) -> (r: FilesystemIsolationStatus)
        ensures
            r == self.state(),
    {
        self.status
    }
}

/// Whether `address` starts with, or is, one of `prefixes`.
pub open spec fn matches_any(prefixes: Seq<Seq<char>>, address: Seq<char>) -> bool {
    exists|i: int|
        0 <= i < prefixes.len() && (has_prefix(address, #[trigger] prefixes[i]) || address
            == prefixes[i])
}

/// The access to `address`: nothing unless the isolation is active; denied
/// prefixes win; when allowed prefixes are given only they may be reached,
/// otherwise everything may.
pub open spec fn network_access(
    active: bool,
    allowed: Seq<Seq<char>>,
    denied: Seq<Seq<char>>,
    address: Seq<char>,
) -> NetworkAccess {
    if !active {
        NetworkAccess::Denied
    } else if matches_any(denied, address) {
        NetworkAccess::Denied
    } else if allowed.len() > 0 && !matches_any(allowed, address) {
        NetworkAccess::Denied
    } else {
        NetworkAccess::Allowed
    }
}

fn find_match(prefixes: &Vec<String>, address: &str) -> (r: bool)
    ensures
        r == matches_any(strs(prefixes@), address@),
{
    let mut i: usize = 0;
    while i < prefixes.len()
        invariant
            i <= prefixes@.len(),
            forall|j: int|
                0 <= j < i ==> !has_prefix(address@, #[trigger] prefixes@[j]@) && address@
                    != prefixes@[j]@,
        decreases prefixes.len() - i,
    {
        if starts_with(address, prefixes[i].as_str()) || str_equal(address, prefixes[i].as_str()) {
            assert(strs(prefixes@)[i as int] == prefixes@[i as int]@);
            return true;
        }
        i = i + 1;
    }
    assert forall|j: int| 0 <= j < strs(prefixes@).len() implies !(has_prefix(
        address@,
        #[trigger] strs(prefixes@)[j],
    ) || address@ == strs(prefixes@)[j]) by {
        assert(strs(prefixes@)[j] == prefixes@[j]@);
    }
    false
}

/// Network isolation.
#[derive(Debug)]
pub struct NetworkIsolation {
    config: IsolationConfig,
    status: NetworkIsolationStatus,
}

impl NetworkIsolation {
    /// The configuration.
    pub closed spec fn cfg(&self) -> IsolationConfig {
        self.config
    }

    /// The state.
    pub closed spec fn state(&self) -> NetworkIsolationStatus {
        self.status
    }

    /// An inactive isolation.
    pub fn new(config: IsolationConfig) -> (r: Self)
        ensures
            r.cfg() == config,
            r.state() == NetworkIsolationStatus::Inactive,
    {
        NetworkIsolation { config, status: NetworkIsolationStatus::Inactive }
    }

    /// Activates the isolation.
    pub fn activate(&mut self) -> (r: Result<()>)
        ensures
            r is Ok,
            final(self).state() == NetworkIsolationStatus::Active,
            final(self).cfg() == old(self).cfg(),
    {
        self.status = NetworkIsolationStatus::Active;
        Ok(())
    }

    /// Whether `address` may be reached.
    pub fn check_network_access(&self, address: &str) -> (r: Result<NetworkAccess>)
        ensures
            r == Ok::<NetworkAccess, crate::sandbox::error::SandboxError>(
                network_access(
                    self.state() == NetworkIsolationStatus::Active,
                    strs(self.cfg().allowed_networks@),
                    strs(self.cfg().denied_networks@),
                    address@,
                ),
            ),
    {
        if self.status != NetworkIsolationStatus::Active {
            return Ok(NetworkAccess::Denied);
        }
        if find_match(&self.config.denied_networks, address) {
            return Ok(NetworkAccess::Denied);
        }
        if self.config.allowed_networks.len() > 0 {
            if find_match(&self.config.allowed_networks, address) {
                return Ok(NetworkAccess::Allowed);
            }
            return Ok(NetworkAccess::Denied);
        }
        Ok(NetworkAccess::Allowed)
    }

    /// Destroys the isolation.
    pub fn destroy(&mut self) -> (r: Result<()>)
        ensures
            r is Ok,
            final(self).state() == NetworkIsolationStatus::Destroyed,
            final(self).cfg() == old(self).cfg(),
    {
        self.status = NetworkIsolationStatus::Destroyed;
        Ok(())
    }

    /// The state.
    pub fn status(&self) -> (r: NetworkIsolationStatus)
        ensures
            r == self.state(),
    {
        self.status
    }
}

/// Process isolation.
#[derive(Debug)]
pub struct ProcessIsolation {
    config: IsolationConfig,
    status: ProcessIsolationStatus,
    child_pids: Vec<u32>,
}

impl ProcessIsolation {
    /// The configuration.
    pub closed spec fn cfg(&self) -> IsolationConfig {
        self.config
    }

    /// The state.
    pub closed spec fn state(&self) -> ProcessIsolationStatus {
        self.status
    }

    /// The registered child processes, in order.
    pub closed spec fn children(&self) -> Seq<u32> {
        self.child_pids@
    }

    /// An inactive isolation with no children.
    pub fn new(config: IsolationConfig) -> (r: Self)
        ensures
            r.cfg() == config,
            r.state() == ProcessIsolationStatus::Inactive,
            r.children().len() == 0,
    {
        ProcessIsolation { config, status: ProcessIsolationStatus::Inactive, child_pids: Vec::new() }
    }

    /// Activates the isolation.
    pub fn activate(&mut self) -> (r: Result<()>)
        ensures
            r is Ok,
            final(self).state() == ProcessIsolationStatus::Active,
            final(self).cfg() == old(self).cfg(),
            final(self).children() == old(self).children(),
    {
        self.status = ProcessIsolationStatus::Active;
        Ok(())
    }

    /// Registers a child process.
    pub fn register_child(&mut self, pid: u32) -> (r: Result<()>)
        ensures
            r is Ok,
            final(self).children() == old(self).children().push(pid),
            final(self).state() == old(self).state(),
            final(self).cfg() == old(self).cfg(),
    {
        self.child_pids.push(pid);
        Ok(())
    }

    /// The registered child processes.
    pub fn get_child_pids(&self) -> (r: Vec<u32>)
        ensures
            r@ == self.children(),
    {
        let r = self.child_pids.clone();
        assert(r@ =~= self.child_pids@);
        r
    }

    /// Forgets every child process and says how many there were.
    pub fn terminate_all_children(&mut self) -> (r: Result<usize>)
        ensures
            r == Ok::<usize, crate::sandbox::error::SandboxError>(old(self).children().len() as usize),
            final(self).children().len() == 0,
            final(self).state() == old(self).state(),
            final(self).cfg() == old(self).cfg(),
    {
        let count = self.child_pids.len();
        self.child_pids.clear();
        Ok(count)
    }

    /// Forgets the children and destroys the isolation.
    pub fn destroy(&mut self) -> (r: Result<()>)
        ensures
            r is Ok,
            final(self).state() == ProcessIsolationStatus::Destroyed,
            final(self).children().len() == 0,
            final(self).cfg() == old(self).cfg(),
    {
        let _ = self.terminate_all_children()?;
        self.status = ProcessIsolationStatus::Destroyed;
        Ok(())
    }

    /// The state.
    pub fn status(&self) -> (r: ProcessIsolationStatus)
        ensures
            r == self.state(),
    {
        self.status
    }
}

/// The three isolation layers together.
#[derive(Debug)]
pub struct IsolationManager {
    /// File-system isolation.
    pub filesystem: FilesystemIsolation,
    /// Network isolation.
    pub network: NetworkIsolation,
    /// Process isolation.
    pub process: ProcessIsolation,
}

impl IsolationManager {
    /// Three inactive layers with the same configuration.
    pub fn new(config: IsolationConfig) -> (r: Self)
        ensures
            same_isolation(r.filesystem.cfg(), config),
            same_isolation(r.network.cfg(), config),
            r.process.cfg() == config,
            r.filesystem.state() == FilesystemIsolationStatus::Inactive,
            r.network.state() == NetworkIsolationStatus::Inactive,
            r.process.state() == ProcessIsolationStatus::Inactive,
            r.filesystem.mounts().len() == 0,
            r.process.children().len() == 0,
    {
        IsolationManager {
            filesystem: FilesystemIsolation::new(copy_isolation(&config)),
            network: NetworkIsolation::new(copy_isolation(&config)),
            process: ProcessIsolation::new(config),
        }
    }

    /// Activates every layer.
    pub fn activate_all(&mut self) -> (r: Result<()>)
        ensures
            r is Ok,
            final(self).filesystem.state() == FilesystemIsolationStatus::Active,
            final(self).network.state() == NetworkIsolationStatus::Active,
            final(self).process.state() == ProcessIsolationStatus::Active,
    {
        self.filesystem.activate()?;
        self.network.activate()?;
        self.process.activate()?;
        Ok(())
    }

    /// Destroys every layer.
    pub fn destroy_all(&mut self) -> (r: Result<()>)
        ensures
            r is Ok,
            final(self).filesystem.state() == FilesystemIsolationStatus::Destroyed,
            final(self).network.state() == NetworkIsolationStatus::Destroyed,
            final(self).process.state() == ProcessIsolationStatus::Destroyed,
            final(self).process.children().len() == 0,
    {
        self.filesystem.destroy()?;
        self.network.destroy()?;
        self.process.destroy()?;
        Ok(())
    }

    /// Whether every layer is active.
    pub fn is_all_active(&self) -> (r: bool)
        ensures
            r == (self.filesystem.state() == FilesystemIsolationStatus::Active
                && self.network.state() == NetworkIsolationStatus::Active && self.process.state()
                == ProcessIsolationStatus::Active),
    {
        let fs_active = self.filesystem.status() == FilesystemIsolationStatus::Active;
        let net_active = self.network.status() == NetworkIsolationStatus::Active;
        let proc_active = self.process.status() == ProcessIsolationStatus::Active;
        fs_active && net_active && proc_active
    }
}

/// Denied paths win: while the isolation is active, a path under any
/// denied path is denied, whatever the read-write and read-only lists
/// hold. Read-write access is granted only under a read-write path and
/// read-only access only under a read-only path, neither under a denied
/// one; an inactive isolation grants nothing.
pub proof fn lemma_denied_paths_win(
    active: bool,
    readonly: Seq<Seq<char>>,
    readwrite: Seq<Seq<char>>,
    denied: Seq<Seq<char>>,
    path: Seq<char>,
    i: int,
)
    requires
        0 <= i < denied.len(),
        path_prefix(path, denied[i]),
    ensures
        path_access(active, readonly, readwrite, denied, path) == PathAccess::Denied,
{
}

/// What each access grant rests on: read-write access needs an active
/// isolation and a read-write path above the path, read-only access a
/// read-only one, and neither is given under a denied path.
pub proof fn lemma_path_grants(
    active: bool,
    readonly: Seq<Seq<char>>,
    readwrite: Seq<Seq<char>>,
    denied: Seq<Seq<char>>,
    path: Seq<char>,
)
    ensures
        path_access(active, readonly, readwrite, denied, path) == PathAccess::ReadWrite ==> active
            && under_any(readwrite, path) && !under_any(denied, path),
        path_access(active, readonly, readwrite, denied, path) == PathAccess::ReadOnly ==> active
            && under_any(readonly, path) && !under_any(readwrite, path) && !under_any(denied, path),
        !active ==> path_access(active, readonly, readwrite, denied, path) == PathAccess::Denied,
{
}

/// Denied networks win: while the isolation is active, an address that is,
/// or starts with, a denied prefix is denied whatever the allowed list
/// holds. An address is allowed only by an active isolation, outside every
/// denied prefix, and, when allowed prefixes are given, under one of them.
pub proof fn lemma_denied_networks_win(
    active: bool,
    allowed: Seq<Seq<char>>,
    denied: Seq<Seq<char>>,
    address: Seq<char>,
    i: int,
)
    requires
        0 <= i < denied.len(),
        has_prefix(address, denied[i]) || address == denied[i],
    ensures
        network_access(active, allowed, denied, address) == NetworkAccess::Denied,
{
}

/// When an address is allowed: the isolation is active, no denied prefix
/// matches it, and either no allowed prefixes are given or one matches it.
pub proof fn lemma_network_allowed_when(
    active: bool,
    allowed: Seq<Seq<char>>,
    denied: Seq<Seq<char>>,
    address: Seq<char>,
)
    ensures
        network_access(active, allowed, denied, address) == NetworkAccess::Allowed <==> active
            && !matches_any(denied, address) && (allowed.len() == 0 || matches_any(allowed, address)),
{
}

} // verus!
