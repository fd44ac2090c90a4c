//! Snapshots of a sandbox's state, and the manager that keeps them per
//! sandbox under an overall limit.
//!
//! Times are milliseconds since the epoch.

use vstd::prelude::*;
use crate::clock::{wall_clock_millis, WALL_CLOCK_LIMIT};
use crate::ids::{is_uuid_v4_text, new_uuid_v4};
use crate::json::empty_json_object;
use crate::sandbox::error::{Result, SandboxError};
use crate::strmap::{assign, StrMap};
use crate::text::{str_equal, string_of};

verus! {

/// State of a sandbox snapshot.
#[derive(Debug, Clone, Copy, PartialEq, Eq, Structural)]
pub enum SnapshotStatus {
    /// Taken.
    Created,
    /// Restored.
    Restored,
    /// Expired.
    Expired,
    /// Deleted.
    Deleted,
}

/// Kind of a sandbox snapshot.
#[derive(Debug, Clone, Copy, PartialEq, Eq, Structural)]
pub enum SnapshotType {
    /// Everything.
    Full,
    /// What changed since the parent.
    Incremental,
    /// A checkpoint.
    Checkpoint,
}

/// A snapshot of a sandbox.
#[derive(Debug, Clone)]
pub struct SandboxSnapshot {
    /// Identifier.
    pub id: String,
    /// The sandbox it belongs to.
    pub sandbox_id: String,
    /// Kind.
    pub snapshot_type: SnapshotType,
    /// State.
    pub status: SnapshotStatus,
    /// The file system's state.
    pub filesystem_state: serde_json::Value,
    /// The network's state.
    pub network_state: serde_json::Value,
    /// The processes' state.
    pub process_state: serde_json::Value,
    /// Environment variables.
    pub environment: StrMap,
    /// When it was taken.
    pub created_at: i64,
    /// When it expires, if ever.
    pub expires_at: Option<i64>,
    /// The snapshot it follows, if any.
    pub parent_id: Option<String>,
    /// Free-form data.
    pub metadata: StrMap,
}

/// Whether a snapshot is expired at `now`.
pub open spec fn sandbox_snapshot_expired(s: SandboxSnapshot, now: i64) -> bool {
    s.expires_at matches Some(e) && now > e
}

/// Milliseconds in an hour.
pub const HOUR_MS: i64 = 3_600_000;

impl SandboxSnapshot {
    /// A fresh snapshot taken at `now`, with a random identifier, empty
    /// states, no variables, expiry, parent or metadata.
    pub fn new_at(sandbox_id: String, snapshot_type: SnapshotType, now: i64) -> (r: Self)
        ensures
            is_uuid_v4_text(r.id@),
            r.sandbox_id == sandbox_id,
            r.snapshot_type == snapshot_type,
            r.status == SnapshotStatus::Created,
            r.environment.wf(),
            r.environment@.len() == 0,
            r.created_at == now,
            r.expires_at is None,
            r.parent_id is None,
            r.metadata.wf(),
            r.metadata@.len() == 0,
    {
        SandboxSnapshot {
            id: new_uuid_v4(),
            sandbox_id,
            snapshot_type,
            status: SnapshotStatus::Created,
            filesystem_state: empty_json_object(),
            network_state: empty_json_object(),
            process_state: empty_json_object(),
            environment: StrMap::new(),
            created_at: now,
            expires_at: None,
            parent_id: None,
            metadata: StrMap::new(),
        }
    }

    /// A fresh snapshot taken now.
    pub fn new(sandbox_id: String, snapshot_type: SnapshotType) -> (r: Self)
        ensures
            is_uuid_v4_text(r.id@),
            r.sandbox_id == sandbox_id,
            r.snapshot_type == snapshot_type,
            r.status == SnapshotStatus::Created,
            r.environment.wf(),
            r.environment@.len() == 0,
            r.expires_at is None,
            r.parent_id is None,
            r.metadata.wf(),
            r.metadata@.len() == 0,
    {
        Self::new_at(sandbox_id, snapshot_type, wall_clock_millis())
    }

    /// The same snapshot with a file system state.
    pub fn with_filesystem_state(self, state: serde_json::Value) -> (r: Self)
        ensures
            r == (SandboxSnapshot { filesystem_state: state, ..self }),
    {
        let mut s = self;
        s.filesystem_state = state;
        s
    }

    /// The same snapshot with a network state.
    pub fn with_network_state(self, state: serde_json::Value) -> (r: Self)
        ensures
            r == (SandboxSnapshot { network_state: state, ..self }),
    {
        let mut s = self;
        s.network_state = state;
        s
    }

    /// The same snapshot with a process state.
    pub fn with_process_state(self, state: serde_json::Value) -> (r: Self)
        ensures
            r == (SandboxSnapshot { process_state: state, ..self }),
    {
        let mut s = self;
        s.process_state = state;
        s
    }

    /// The same snapshot with environment variables.
    pub fn with_environment(self, env: StrMap) -> (r: Self)
        ensures
            r == (SandboxSnapshot { environment: env, ..self }),
    {
        let mut s = self;
        s.environment = env;
        s
    }

    /// The same snapshot with a parent.
    pub fn with_parent(self, parent_id: String) -> (r: Self)
        ensures
            r == (SandboxSnapshot { parent_id: Some(parent_id), ..self }),
    {
        let mut s = self;
        s.parent_id = Some(parent_id);
        s
    }

    /// The same snapshot, expiring `hours` hours after `now`; the hours are
    /// taken as a signed count, as a cast to `i64` reads them.
    pub fn with_expiry_at(self, hours: u64, now: i64) -> (r: Self)
        requires
            i64::MIN <= (hours as i64) * HOUR_MS <= i64::MAX,
            i64::MIN <= now + (hours as i64) * HOUR_MS <= i64::MAX,
        ensures
            r == (SandboxSnapshot { expires_at: Some((now + (hours as i64) * HOUR_MS) as i64), ..self }),
    {
        let mut s = self;
        let h: i64 = hours as i64;
        s.expires_at = Some(now + h * HOUR_MS);
        s
    }

    /// The same snapshot, expiring `hours` hours from now.
    pub fn with_expiry(self, hours: u64) -> (r: Self)
        requires
            -(i64::MAX - WALL_CLOCK_LIMIT) <= (hours as i64) * HOUR_MS <= i64::MAX - WALL_CLOCK_LIMIT,
        ensures
            r == (SandboxSnapshot { expires_at: r.expires_at, ..self }),
            r.expires_at is Some,
    {
        let now = wall_clock_millis();
        self.with_expiry_at(hours, now)
    }

    /// Sets a metadata entry.
    pub fn add_metadata(&mut self, key: &str, value: &str)
        requires
            old(self).metadata.wf(),
        ensures
            final(self).metadata.wf(),
            final(self).metadata@ == assign(old(self).metadata@, key@, value@),
            final(self).id == old(self).id,
            final(self).status == old(self).status,
            final(self).expires_at == old(self).expires_at,
    {
        self.metadata.insert(string_of(key), string_of(value));
    }

    /// Whether the snapshot is expired at `now`.
    pub fn is_expired_at(&self, now: i64) -> (r: bool)
        ensures
            r == sandbox_snapshot_expired(*self, now),
    {
        match self.expires_at {
            Some(e) => now > e,
            None => false,
        }
    }

    /// Whether the snapshot is expired now; one that never expires is not.
    pub fn is_expired(&self) -> (r: bool)
        ensures
            self.expires_at is None ==> !r,
    {
        self.is_expired_at(wall_clock_millis())
    }

    /// Marks the snapshot restored.
    pub fn mark_restored(&mut self)
        ensures
            *final(self) == (SandboxSnapshot { status: SnapshotStatus::Restored, ..*old(self) }),
    {
        self.status = SnapshotStatus::Restored;
    }

    /// Marks the snapshot deleted.
    pub fn mark_deleted(&mut self)
        ensures
            *final(self) == (SandboxSnapshot { status: SnapshotStatus::Deleted, ..*old(self) }),
    {
        self.status = SnapshotStatus::Deleted;
    }
}

/// Whether a snapshot of identifier `id` is among `s`.
pub open spec fn has_sandbox_snapshot(s: Seq<SandboxSnapshot>, id: Seq<char>) -> bool {
    exists|i: int| 0 <= i < s.len() && (#[trigger] s[i]).id@ == id
}

/// Whether no two of `s` share an identifier.
pub open spec fn distinct_snapshot_ids(s: Seq<SandboxSnapshot>) -> bool {
    forall|i: int, j: int|
        0 <= i < s.len() && 0 <= j < s.len() && i != j ==> (#[trigger] s[i]).id@ != (#[trigger] s[j]).id@
}

/// The snapshot of identifier `id` among `s`.
pub open spec fn sandbox_snapshot_named(s: Seq<SandboxSnapshot>, id: Seq<char>) -> SandboxSnapshot {
    s[choose|i: int| 0 <= i < s.len() && (#[trigger] s[i]).id@ == id]
}

/// The identifiers of `ids` whose snapshot is among `s`, in order.
pub open spec fn present_ids(s: Seq<SandboxSnapshot>, ids: Seq<Seq<char>>) -> Seq<Seq<char>> {
    ids.filter(|id: Seq<char>| has_sandbox_snapshot(s, id))
}

/// Whether position `k` of `v` holds the newest snapshot, the last one of
/// the greatest creation time.
pub open spec fn is_latest(v: Seq<SandboxSnapshot>, k: int) -> bool {
    &&& 0 <= k < v.len()
    &&& forall|j: int| 0 <= j < v.len() ==> (#[trigger] v[j]).created_at <= v[k].created_at
    &&& forall|j: int| k < j < v.len() ==> (#[trigger] v[j]).created_at < v[k].created_at
}

/// The message for an unknown snapshot.
pub open spec fn unknown_snapshot_message(id: Seq<char>) -> Seq<char> {
    "快照 "@ + id + " 不存在"@
}

/// The characters of each string.
pub open spec fn string_texts(v: Seq<String>) -> Seq<Seq<char>> {
    v.map_values(|s: String| s@)
}

proof fn lemma_named(s: Seq<SandboxSnapshot>, id: Seq<char>, i: int)
    requires
        distinct_snapshot_ids(s),
        0 <= i < s.len(),
        s[i].id@ == id,
    ensures
        sandbox_snapshot_named(s, id) == s[i],
{
    let k = choose|k: int| 0 <= k < s.len() && (#[trigger] s[k]).id@ == id;
    assert(0 <= k < s.len() && s[k].id@ == id);
}

/// The identifiers of `ids` other than `id`, in order.
pub open spec fn without_snapshot_id(ids: Seq<Seq<char>>, id: Seq<char>) -> Seq<Seq<char>> {
    ids.filter(|x: Seq<char>| x != id)
}

/// The list at the position of `name` among `names`, or none.
pub open spec fn listed_in(names: Seq<Seq<char>>, lists: Seq<Seq<Seq<char>>>, name: Seq<char>) -> Seq<Seq<char>> {
    if exists|k: int| 0 <= k < names.len() && names[k] == name {
        lists[choose|k: int| 0 <= k < names.len() && names[k] == name]
    } else {
        Seq::empty()
    }
}

proof fn lemma_listed_at(names: Seq<Seq<char>>, lists: Seq<Seq<Seq<char>>>, name: Seq<char>, k: int)
    requires
        0 <= k < names.len(),
        names[k] == name,
        forall|i: int, j: int|
            0 <= i < names.len() && 0 <= j < names.len() && i != j ==> #[trigger] names[i] != #[trigger] names[j],
    ensures
        listed_in(names, lists, name) == lists[k],
{
    let c = choose|c: int| 0 <= c < names.len() && names[c] == name;
    assert(0 <= c < names.len() && names[c] == name);
}

/// Keeps the snapshots of sandboxes, at most a configured number in all,
/// and, per sandbox, the identifiers of its snapshots in the order they
/// were created.
#[derive(Debug)]
pub struct SnapshotManager {
    snapshots: Vec<SandboxSnapshot>,
    sandbox_ids: Vec<String>,
    id_lists: Vec<Vec<String>>,
    max_snapshots: usize,
}

impl SnapshotManager {
    /// The snapshots.
    pub closed spec fn all(&self) -> Seq<SandboxSnapshot> {
        self.snapshots@
    }

    /// The sandboxes that have a list, in order.
    pub closed spec fn sandboxes(&self) -> Seq<Seq<char>> {
        string_texts(self.sandbox_ids@)
    }

    /// The list of snapshot identifiers of the sandbox at position `k`.
    pub closed spec fn list_at(&self, k: int) -> Seq<Seq<char>> {
        string_texts(self.id_lists@[k]@)
    }

    /// Most snapshots kept in all.
    pub closed spec fn limit(&self) -> nat {
        self.max_snapshots as nat
    }

    /// The manager's invariant: one snapshot per identifier, one list per
    /// sandbox.
    pub closed spec fn wf(&self) -> bool {
        &&& self.sandbox_ids@.len() == self.id_lists@.len()
        &&& distinct_snapshot_ids(self.snapshots@)
        &&& forall|i: int, j: int|
            0 <= i < self.sandbox_ids@.len() && 0 <= j < self.sandbox_ids@.len() && i != j
                ==> (#[trigger] self.sandbox_ids@[i])@ != (#[trigger] self.sandbox_ids@[j])@
    }

    /// Whether position `k` holds the list of sandbox `sandbox`.
    pub open spec fn sandbox_index(&self, sandbox: Seq<char>, k: int) -> bool {
        0 <= k < self.sandboxes().len() && self.sandboxes()[k] == sandbox
    }

    /// The lists of snapshot identifiers, one per sandbox, in order.
    pub closed spec fn lists(&self) -> Seq<Seq<Seq<char>>> {
        self.id_lists@.map_values(|l: Vec<String>| string_texts(l@))
    }

    /// The identifiers listed for `sandbox` (none where it has no list).
    pub open spec fn listed(&self, sandbox: Seq<char>) -> Seq<Seq<char>> {
        listed_in(self.sandboxes(), self.lists(), sandbox)
    }

    proof fn lemma_names(&self)
        requires
            self.wf(),
        ensures
            self.sandboxes().len() == self.lists().len(),
            forall|i: int, j: int|
                0 <= i < self.sandboxes().len() && 0 <= j < self.sandboxes().len() && i != j
                    ==> #[trigger] self.sandboxes()[i] != #[trigger] self.sandboxes()[j],
            forall|k: int| 0 <= k < self.lists().len() ==> #[trigger] self.lists()[k] == self.list_at(k),
    {
        assert forall|i: int, j: int|
            0 <= i < self.sandboxes().len() && 0 <= j < self.sandboxes().len() && i != j
                implies #[trigger] self.sandboxes()[i] != #[trigger] self.sandboxes()[j] by {
            assert(self.sandboxes()[i] == self.sandbox_ids@[i]@);
            assert(self.sandboxes()[j] == self.sandbox_ids@[j]@);
        }
    }

    /// A well-formed manager keeps one snapshot per identifier.
    pub proof fn lemma_distinct(&self)
        requires
            self.wf(),
        ensures
            distinct_snapshot_ids(self.all()),
    {
    }

    /// An empty manager that keeps up to a hundred snapshots.
    pub fn new() -> (r: Self)
        ensures
            r.wf(),
            r.all().len() == 0,
            r.sandboxes().len() == 0,
            r.limit() == 100,
    {
        let r = SnapshotManager { snapshots: Vec::new(), sandbox_ids: Vec::new(), id_lists: Vec::new(), max_snapshots: 100 };
        assert(r.sandboxes() =~= Seq::<Seq<char>>::empty());
        r
    }

    /// The same manager keeping up to `max` snapshots.
    pub fn with_max_snapshots(self, max: usize) -> (r: Self)
        requires
            self.wf(),
        ensures
            r.wf(),
            r.all() == self.all(),
            r.sandboxes() == self.sandboxes(),
            forall|k: int| 0 <= k < r.sandboxes().len() ==> r.list_at(k) == self.list_at(k),
            r.limit() == max,
    {
        let mut m = self;
        m.max_snapshots = max;
        m
    }

    fn position(&self, id: &str) -> (r: Option<usize>)
        ensures
            r is None <==> !has_sandbox_snapshot(self.all(), id@),
            r matches Some(i) ==> i < self.all().len() && self.all()[i as int].id@ == id@,
    {
        let mut i: usize = 0;
        while i < self.snapshots.len()
            invariant
                i <= self.snapshots@.len(),
                forall|j: int| 0 <= j < i ==> (#[trigger] self.snapshots@[j]).id@ != id@,
            decreases self.snapshots.len() - i,
        {
            if str_equal(self.snapshots[i].id.as_str(), id) {
                return Some(i);
            }
            i = i + 1;
        }
        None
    }

    fn sandbox_position(&self, sandbox: &str) -> (r: Option<usize>)
        requires
            self.wf(),
        ensures
            r is None ==> forall|k: int| !self.sandbox_index(sandbox@, k),
            r matches Some(k) ==> self.sandbox_index(sandbox@, k as int) && forall|k2: int|
                self.sandbox_index(sandbox@, k2) ==> k2 == k,
            r matches Some(k) ==> self.listed(sandbox@) == self.list_at(k as int),
            r is None ==> self.listed(sandbox@) == Seq::<Seq<char>>::empty(),
    {
        let mut i: usize = 0;
        while i < self.sandbox_ids.len()
            invariant
                self.wf(),
                i <= self.sandbox_ids@.len(),
                forall|j: int| 0 <= j < i ==> (#[trigger] self.sandbox_ids@[j])@ != sandbox@,
            decreases self.sandbox_ids.len() - i,
        {
            if str_equal(self.sandbox_ids[i].as_str(), sandbox) {
                assert(self.sandboxes()[i as int] == sandbox@);
                assert forall|k2: int| self.sandbox_index(sandbox@, k2) implies k2 == i by {
                    if k2 != i {
                        assert(self.sandboxes()[k2] == self.sandbox_ids@[k2]@);
                    }
                }
                proof {
                    self.lemma_names();
                    lemma_listed_at(self.sandboxes(), self.lists(), sandbox@, i as int);
                }
                return Some(i);
            }
            i = i + 1;
        }
        assert forall|k: int| !self.sandbox_index(sandbox@, k) by {
            if 0 <= k < self.sandboxes().len() {
                assert(self.sandboxes()[k] == self.sandbox_ids@[k]@);
            }
        }
        assert(!(exists|k: int| 0 <= k < self.sandboxes().len() && self.sandboxes()[k] == sandbox@));
        None
    }

    fn unknown(id: &str) -> (r: SandboxError)
        ensures
            r matches SandboxError::Snapshot(m) && m@ == unknown_snapshot_message(id@),
    {
        let mut m = string_of("快照 ");
        m.append(id);
        m.append(" 不存在");
        SandboxError::Snapshot(m)
    }

    /// Stores a snapshot, replacing one of the same identifier, and adds its
    /// identifier to its sandbox's list; fails when the manager already
    /// holds as many snapshots as it may.
    pub fn create(&mut self, snapshot: SandboxSnapshot) -> (r: Result<String>)
        requires
            old(self).wf(),
        ensures
            final(self).wf(),
            final(self).limit() == old(self).limit(),
            r is Ok <==> old(self).all().len() < old(self).limit(),
            old(self).all().len() <= old(self).limit() ==> final(self).all().len() <= final(self).limit(),
            r matches Err(e) ==> e matches SandboxError::Snapshot(m) && m@ == "快照数量已达上限"@,
            r is Err ==> final(self).all() == old(self).all(),
            r matches Ok(id) ==> {
                &&& id == snapshot.id
                &&& has_sandbox_snapshot(final(self).all(), id@)
                &&& sandbox_snapshot_named(final(self).all(), id@) == snapshot
                &&& forall|i: int|
                    0 <= i < old(self).all().len() && (#[trigger] old(self).all()[i]).id@ != id@
                        ==> final(self).all()[i] == old(self).all()[i]
                &&& final(self).listed(snapshot.sandbox_id@) == old(self).listed(snapshot.sandbox_id@).push(id@)
            },
    {
        if self.snapshots.len() >= self.max_snapshots {
            return Err(SandboxError::Snapshot(string_of("快照数量已达上限")));
        }
        let ghost sid = snapshot.id@;
        let ghost snap = snapshot;
        let id = snapshot.id.clone();
        let sandbox = snapshot.sandbox_id.clone();
        match self.position(id.as_str()) {
            Some(i) => {
                self.snapshots.set(i, snapshot);
                assert forall|a: int, b: int|
                    0 <= a < self.snapshots@.len() && 0 <= b < self.snapshots@.len() && a != b implies (
                    #[trigger] self.snapshots@[a]).id@ != (#[trigger] self.snapshots@[b]).id@ by {
                    if a != i && b != i {
                        assert(self.snapshots@[a] == old(self).snapshots@[a]);
                        assert(self.snapshots@[b] == old(self).snapshots@[b]);
                    } else if a == i {
                        assert(self.snapshots@[b] == old(self).snapshots@[b]);
                        assert(old(self).snapshots@[i as int].id@ == sid);
                    } else {
                        assert(self.snapshots@[a] == old(self).snapshots@[a]);
                        assert(old(self).snapshots@[i as int].id@ == sid);
                    }
                }
                proof {
                    lemma_named(self.snapshots@, sid, i as int);
                }
            },
            None => {
                self.snapshots.push(snapshot);
                let ghost last = self.snapshots@.len() - 1;
                assert forall|a: int, b: int|
                    0 <= a < self.snapshots@.len() && 0 <= b < self.snapshots@.len() && a != b implies (
                    #[trigger] self.snapshots@[a]).id@ != (#[trigger] self.snapshots@[b]).id@ by {
                    if a != last && b != last {
                        assert(self.snapshots@[a] == old(self).snapshots@[a]);
                        assert(self.snapshots@[b] == old(self).snapshots@[b]);
                    } else if a == last {
                        assert(self.snapshots@[b] == old(self).snapshots@[b]);
                    } else {
                        assert(self.snapshots@[a] == old(self).snapshots@[a]);
                    }
                }
                proof {
                    lemma_named(self.snapshots@, sid, last);
                }
            },
        }
        let ghost mid = *self;
        assert(mid.sandboxes() == old(self).sandboxes());
        match self.sandbox_position(sandbox.as_str()) {
            Some(k) => {
                let mut list = self.id_lists.remove(k);
                let ghost before = list@;
                list.push(string_of(id.as_str()));
                self.id_lists.insert(k, list);
                assert(self.sandboxes() == mid.sandboxes());
                assert(string_texts(self.id_lists@[k as int]@) =~= string_texts(before).push(sid));
                proof {
                    assert(mid.lists() == old(self).lists());
                    mid.lemma_names();
                    self.lemma_names();
                    lemma_listed_at(mid.sandboxes(), mid.lists(), snap.sandbox_id@, k as int);
                    lemma_listed_at(self.sandboxes(), self.lists(), snap.sandbox_id@, k as int);
                    assert(mid.lists()[k as int] == string_texts(before));
                }
            },
            None => {
                let ghost before = self.sandbox_ids@;
                let ghost o = sandbox@;
                let mut list: Vec<String> = Vec::new();
                list.push(string_of(id.as_str()));
                self.sandbox_ids.push(sandbox);
                self.id_lists.push(list);
                assert forall|a: int, b: int|
                    0 <= a < self.sandbox_ids@.len() && 0 <= b < self.sandbox_ids@.len() && a != b implies (
                    #[trigger] self.sandbox_ids@[a])@ != (#[trigger] self.sandbox_ids@[b])@ by {
                    if a == before.len() {
                        assert(!mid.sandbox_index(o, b));
                        assert(mid.sandboxes()[b] == before[b]@);
                    } else if b == before.len() {
                        assert(!mid.sandbox_index(o, a));
                        assert(mid.sandboxes()[a] == before[a]@);
                    }
                }
                let ghost nk = before.len() as int;
                assert(self.sandboxes()[nk] == o);
                assert forall|k2: int| self.sandbox_index(o, k2) implies k2 == nk by {
                    if k2 != nk {
                        assert(self.sandboxes()[k2] == before[k2]@);
                        assert(!mid.sandbox_index(o, k2));
                    }
                }
                assert(self.sandbox_index(o, nk));
                assert(string_texts(self.id_lists@[nk]@) =~= Seq::<Seq<char>>::empty().push(sid));
                proof {
                    assert(mid.lists() == old(self).lists());
                    self.lemma_names();
                    lemma_listed_at(self.sandboxes(), self.lists(), o, nk);
                }
            },
        }
        Ok(id)
    }

    /// The snapshot of identifier `id`.
    pub fn get(&self, id: &str) -> (r: Result<&SandboxSnapshot>)
        requires
            self.wf(),
        ensures
            r is Ok <==> has_sandbox_snapshot(self.all(), id@),
            r matches Ok(s) ==> *s == sandbox_snapshot_named(self.all(), id@) && s.id@ == id@,
            r matches Err(e) ==> e matches SandboxError::Snapshot(m) && m@ == unknown_snapshot_message(id@),
    {
        match self.position(id) {
            Some(i) => {
                proof {
                    lemma_named(self.snapshots@, id@, i as int);
                }
                Ok(&self.snapshots[i])
            },
            None => Err(Self::unknown(id)),
        }
    }

    /// The snapshots listed for a sandbox that still exist, in the order they
    /// were created; none for an unknown sandbox.
    pub fn get_sandbox_snapshots(&self, sandbox_id: &str) -> (r: Result<Vec<&SandboxSnapshot>>)
        requires
            self.wf(),
        ensures
            r matches Ok(v) && v@.len() == present_ids(self.all(), self.listed(sandbox_id@)).len()
                && forall|i: int|
                0 <= i < v@.len() ==> *(#[trigger] v@[i]) == sandbox_snapshot_named(
                    self.all(),
                    present_ids(self.all(), self.listed(sandbox_id@))[i],
                ) && v@[i].id@ == present_ids(self.all(), self.listed(sandbox_id@))[i],
    {
        let mut out: Vec<&SandboxSnapshot> = Vec::new();
        match self.sandbox_position(sandbox_id) {
            Some(k) => {
                let list = &self.id_lists[k];
                let ghost names = string_texts(list@);
                let ghost pred = |id: Seq<char>| has_sandbox_snapshot(self.all(), id);
                let mut i: usize = 0;
                while i < list.len()
                    invariant
                        self.wf(),
                        i <= list@.len(),
                        names == string_texts(list@),
                        pred == (|id: Seq<char>| has_sandbox_snapshot(self.all(), id)),
                        out@.len() == names.subrange(0, i as int).filter(pred).len(),
                        forall|j: int|
                            0 <= j < out@.len() ==> *(#[trigger] out@[j]) == sandbox_snapshot_named(
                                self.all(),
                                names.subrange(0, i as int).filter(pred)[j],
                            ) && out@[j].id@ == names.subrange(0, i as int).filter(pred)[j],
                    decreases list.len() - i,
                {
                    proof {
                        assert(names.subrange(0, i as int + 1) =~= names.subrange(0, i as int).push(names[i as int]));
                        names.subrange(0, i as int).lemma_filter_push(names[i as int], pred);
                        assert(names[i as int] == list@[i as int]@);
                    }
                    match self.position(list[i].as_str()) {
                        Some(p) => {
                            proof {
                                lemma_named(self.snapshots@, list@[i as int]@, p as int);
                            }
                            out.push(&self.snapshots[p]);
                        },
                        None => {},
                    }
                    i = i + 1;
                }
                assert(names.subrange(0, list@.len() as int) =~= names);
                assert(self.list_at(k as int) == names);
            },
            None => {
                assert(present_ids(self.all(), Seq::<Seq<char>>::empty()) =~= Seq::<Seq<char>>::empty());
            },
        }
        Ok(out)
    }

    /// The newest snapshot of a sandbox: of its snapshots, the last one of
    /// the greatest creation time.
    pub fn get_latest(&self, sandbox_id: &str) -> (r: Result<&SandboxSnapshot>)
        requires
            self.wf(),
        ensures
            r is Ok <==> present_ids(self.all(), self.listed(sandbox_id@)).len() > 0,
            r matches Err(e) ==> e matches SandboxError::Snapshot(m) && m@ == "沙箱 "@ + sandbox_id@
                + " 没有快照"@,
            r matches Ok(s) ==> exists|k: int|
                is_latest(
                    present_ids(self.all(), self.listed(sandbox_id@)).map_values(
                        |id: Seq<char>| sandbox_snapshot_named(self.all(), id),
                    ),
                    k,
                ) && *s == sandbox_snapshot_named(
                    self.all(),
                    present_ids(self.all(), self.listed(sandbox_id@))[k],
                ),
    {
        let v = match self.get_sandbox_snapshots(sandbox_id) {
            Ok(v) => v,
            Err(e) => {
                return Err(e);
            },
        };
        let ghost ids = present_ids(self.all(), self.listed(sandbox_id@));
        let ghost snaps = ids.map_values(|id: Seq<char>| sandbox_snapshot_named(self.all(), id));
        if v.len() == 0 {
            let mut m = string_of("沙箱 ");
            m.append(sandbox_id);
            m.append(" 没有快照");
            return Err(SandboxError::Snapshot(m));
        }
        let mut best: usize = 0;
        let mut i: usize = 1;
        while i < v.len()
            invariant
                1 <= i <= v@.len(),
                v@.len() == snaps.len(),
                best < i,
                forall|j: int| 0 <= j < v@.len() ==> *v@[j] == #[trigger] snaps[j],
                forall|j: int| 0 <= j < i ==> (#[trigger] snaps[j]).created_at <= snaps[best as int].created_at,
                forall|j: int| best < j < i ==> (#[trigger] snaps[j]).created_at < snaps[best as int].created_at,
            decreases v.len() - i,
        {
            if v[i].created_at >= v[best].created_at {
                best = i;
            }
            i = i + 1;
        }
        assert(is_latest(snaps, best as int));
        Ok(v[best])
    }

    /// Restores a snapshot at `now`: refuses an unknown or expired one,
    /// otherwise marks it restored and gives it back.
    pub fn restore_at(&mut self, id: &str, now: i64) -> (r: Result<&SandboxSnapshot>)
        requires
            old(self).wf(),
        ensures
            final(self).wf(),
            final(self).limit() == old(self).limit(),
            final(self).sandboxes() == old(self).sandboxes(),
            forall|k: int| 0 <= k < final(self).sandboxes().len() ==> final(self).list_at(k) == old(self).list_at(k),
            !has_sandbox_snapshot(old(self).all(), id@) ==> (r matches Err(e) && e matches SandboxError::Snapshot(m)
                && m@ == unknown_snapshot_message(id@)),
            has_sandbox_snapshot(old(self).all(), id@) && sandbox_snapshot_expired(
                sandbox_snapshot_named(old(self).all(), id@),
                now,
            ) ==> (r matches Err(e) && e matches SandboxError::Snapshot(m) && m@ == "快照 "@ + id@ + " 已过期"@),
            r is Ok <==> has_sandbox_snapshot(old(self).all(), id@) && !sandbox_snapshot_expired(
                sandbox_snapshot_named(old(self).all(), id@),
                now,
            ),
            r is Err ==> final(self).all() == old(self).all(),
            r matches Ok(s) ==> exists|i: int|
                0 <= i < old(self).all().len() && (#[trigger] old(self).all()[i]).id@ == id@
                    && final(self).all() == old(self).all().update(
                    i,
                    SandboxSnapshot { status: SnapshotStatus::Restored, ..old(self).all()[i] },
                ) && *s == final(self).all()[i],
    {
        match self.position(id) {
            Some(i) => {
                proof {
                    lemma_named(self.snapshots@, id@, i as int);
                }
                if self.snapshots[i].is_expired_at(now) {
                    let mut m = string_of("快照 ");
                    m.append(id);
                    m.append(" 已过期");
                    return Err(SandboxError::Snapshot(m));
                }
                let mut s = self.snapshots.remove(i);
                s.mark_restored();
                self.snapshots.insert(i, s);
                assert(self.snapshots@ =~= old(self).snapshots@.update(
                    i as int,
                    SandboxSnapshot { status: SnapshotStatus::Restored, ..old(self).snapshots@[i as int] },
                ));
                assert forall|a: int, b: int|
                    0 <= a < self.snapshots@.len() && 0 <= b < self.snapshots@.len() && a != b implies (
                    #[trigger] self.snapshots@[a]).id@ != (#[trigger] self.snapshots@[b]).id@ by {
                    assert(self.snapshots@[a].id@ == old(self).snapshots@[a].id@);
                    assert(self.snapshots@[b].id@ == old(self).snapshots@[b].id@);
                }
                Ok(&self.snapshots[i])
            },
            None => Err(Self::unknown(id)),
        }
    }

    /// Restores a snapshot now; one that never expires is restored exactly
    /// when it exists.
    pub fn restore(&mut self, id: &str) -> (r: Result<&SandboxSnapshot>)
        requires
            old(self).wf(),
        ensures
            final(self).wf(),
            final(self).limit() == old(self).limit(),
            !has_sandbox_snapshot(old(self).all(), id@) ==> (r matches Err(e) && e matches SandboxError::Snapshot(m)
                && m@ == unknown_snapshot_message(id@)),
            has_sandbox_snapshot(old(self).all(), id@) && sandbox_snapshot_named(old(self).all(), id@).expires_at
                is None ==> r is Ok,
            r is Err ==> final(self).all() == old(self).all(),
            r matches Ok(s) ==> s.status == SnapshotStatus::Restored && s.id@ == id@,
    {
        let now = wall_clock_millis();
        self.restore_at(id, now)
    }

    fn unlist(&mut self, sandbox: &str, id: &str)
        requires
            old(self).wf(),
        ensures
            final(self).wf(),
            final(self).all() == old(self).all(),
            final(self).limit() == old(self).limit(),
            final(self).sandboxes() == old(self).sandboxes(),
            forall|k: int|
                0 <= k < final(self).sandboxes().len() ==> #[trigger] final(self).list_at(k) == if old(
                    self,
                ).sandbox_index(sandbox@, k) {
                    without_snapshot_id(old(self).list_at(k), id@)
                } else {
                    old(self).list_at(k)
                },
    {
        match self.sandbox_position(sandbox) {
            Some(k) => {
                let ghost lists0 = self.id_lists@;
                let list = self.id_lists.remove(k);
                let ghost names = string_texts(list@);
                let ghost pred = |x: Seq<char>| x != id@;
                let mut kept: Vec<String> = Vec::new();
                let mut i: usize = 0;
                while i < list.len()
                    invariant
                        i <= list@.len(),
                        names == string_texts(list@),
                        pred == (|x: Seq<char>| x != id@),
                        string_texts(kept@) == names.subrange(0, i as int).filter(pred),
                    decreases list.len() - i,
                {
                    proof {
                        assert(names.subrange(0, i as int + 1) =~= names.subrange(0, i as int).push(names[i as int]));
                        names.subrange(0, i as int).lemma_filter_push(names[i as int], pred);
                    }
                    if !str_equal(list[i].as_str(), id) {
                        let ghost before = kept@;
                        kept.push(list[i].clone());
                        assert(string_texts(kept@) =~= string_texts(before).push(names[i as int]));
                    }
                    i = i + 1;
                }
                assert(names.subrange(0, list@.len() as int) =~= names);
                self.id_lists.insert(k, kept);
                assert(self.id_lists@ =~= lists0.update(k as int, self.id_lists@[k as int]));
                assert forall|k2: int| 0 <= k2 < self.sandboxes().len() implies #[trigger] self.list_at(k2)
                    == if old(self).sandbox_index(sandbox@, k2) {
                    without_snapshot_id(old(self).list_at(k2), id@)
                } else {
                    old(self).list_at(k2)
                } by {
                    if k2 == k {
                        assert(old(self).list_at(k2) == names);
                    } else {
                        assert(self.id_lists@[k2] == old(self).id_lists@[k2]);
                    }
                }
            },
            None => {},
        }
    }

    /// Deletes a snapshot and takes its identifier off its sandbox's list.
    pub fn delete(&mut self, id: &str) -> (r: Result<()>)
        requires
            old(self).wf(),
        ensures
            final(self).wf(),
            final(self).limit() == old(self).limit(),
            r is Ok <==> has_sandbox_snapshot(old(self).all(), id@),
            r matches Err(e) ==> e matches SandboxError::Snapshot(m) && m@ == unknown_snapshot_message(id@),
            r is Err ==> final(self).all() == old(self).all(),
            r is Ok ==> exists|i: int|
                0 <= i < old(self).all().len() && (#[trigger] old(self).all()[i]).id@ == id@
                    && final(self).all() == old(self).all().remove(i) && forall|k: int|
                    0 <= k < final(self).sandboxes().len() ==> #[trigger] final(self).list_at(k) == if old(
                        self,
                    ).sandbox_index(old(self).all()[i].sandbox_id@, k) {
                        without_snapshot_id(old(self).list_at(k), id@)
                    } else {
                        old(self).list_at(k)
                    },
            final(self).sandboxes() == old(self).sandboxes(),
            r is Err ==> *final(self) == *old(self),
            !has_sandbox_snapshot(final(self).all(), id@),
    {
        match self.position(id) {
            Some(i) => {
                let ghost before = self.snapshots@;
                let s = self.snapshots.remove(i);
                assert forall|k: int| 0 <= k < self.snapshots@.len() implies (#[trigger] self.snapshots@[k]).id@ != id@ by {
                    if k < i {
                        assert(self.snapshots@[k] == before[k]);
                    } else {
                        assert(self.snapshots@[k] == before[k + 1]);
                    }
                }
                assert forall|a: int, b: int|
                    0 <= a < self.snapshots@.len() && 0 <= b < self.snapshots@.len() && a != b implies (
                    #[trigger] self.snapshots@[a]).id@ != (#[trigger] self.snapshots@[b]).id@ by {
                    let a2 = if a < i { a } else { a + 1 };
                    let b2 = if b < i { b } else { b + 1 };
                    assert(self.snapshots@[a] == before[a2]);
                    assert(self.snapshots@[b] == before[b2]);
                }
                let ghost mid = self.snapshots@;
                self.unlist(s.sandbox_id.as_str(), id);
                assert(self.all() == mid);
                Ok(())
            },
            None => Err(Self::unknown(id)),
        }
    }

    /// Deletes the snapshots expired at `now` and says how many there were.
    pub fn cleanup_expired_at(&mut self, now: i64) -> (r: Result<usize>)
        requires
            old(self).wf(),
        ensures
            final(self).wf(),
            final(self).limit() == old(self).limit(),
            final(self).all() == old(self).all().filter(|s: SandboxSnapshot| !sandbox_snapshot_expired(s, now)),
            r matches Ok(n) && n == old(self).all().len() - final(self).all().len(),
    {
        let ghost keep = |s: SandboxSnapshot| !sandbox_snapshot_expired(s, now);
        let mut kept: Vec<SandboxSnapshot> = Vec::new();
        let mut gone: Vec<SandboxSnapshot> = Vec::new();
        let mut rest: Vec<SandboxSnapshot> = Vec::new();
        std::mem::swap(&mut rest, &mut self.snapshots);
        let ghost all = rest@;
        let n = rest.len();
        let mut i: usize = 0;
        while i < n
            invariant
                n == all.len(),
                i <= n,
                keep == (|s: SandboxSnapshot| !sandbox_snapshot_expired(s, now)),
                rest@ == all.subrange(i as int, n as int),
                kept@ == all.subrange(0, i as int).filter(keep),
                distinct_snapshot_ids(all),
                forall|k: int| 0 <= k < kept@.len() ==> exists|q: int| 0 <= q < i && #[trigger] kept@[k] == all[q],
                distinct_snapshot_ids(kept@),
            decreases n - i,
        {
            let s = rest.remove(0);
            proof {
                assert(s == all[i as int]);
                assert(all.subrange(0, i as int + 1) =~= all.subrange(0, i as int).push(all[i as int]));
                all.subrange(0, i as int).lemma_filter_push(all[i as int], keep);
                assert(rest@ =~= all.subrange(i as int + 1, n as int));
            }
            let ghost prev = kept@;
            if !s.is_expired_at(now) {
                kept.push(s);
                assert forall|k: int| 0 <= k < kept@.len() implies exists|q: int| 0 <= q < i + 1 && #[trigger] kept@[k] == all[q] by {
                    if k < prev.len() {
                        assert(kept@[k] == prev[k]);
                    } else {
                        assert(kept@[k] == all[i as int]);
                    }
                }
                assert forall|a: int, b: int|
                    0 <= a < kept@.len() && 0 <= b < kept@.len() && a != b implies (#[trigger] kept@[a]).id@
                        != (#[trigger] kept@[b]).id@ by {
                    if a < prev.len() && b < prev.len() {
                        assert(kept@[a] == prev[a] && kept@[b] == prev[b]);
                    } else if a < prev.len() {
                        assert(kept@[a] == prev[a]);
                        let qa = choose|q: int| 0 <= q < i && #[trigger] prev[a] == all[q];
                        assert(all[qa].id@ != all[i as int].id@);
                    } else {
                        assert(kept@[b] == prev[b]);
                        let qb = choose|q: int| 0 <= q < i && #[trigger] prev[b] == all[q];
                        assert(all[qb].id@ != all[i as int].id@);
                    }
                }
            } else {
                gone.push(s);
            }
            i = i + 1;
        }
        assert(all.subrange(0, n as int) == all);
        proof {
            all.lemma_filter_len(keep);
        }
        let count = n - kept.len();
        self.snapshots = kept;
        let ghost done = self.snapshots@;
        let mut g: usize = 0;
        while g < gone.len()
            invariant
                self.wf(),
                self.snapshots@ == done,
                self.max_snapshots == old(self).max_snapshots,
                g <= gone@.len(),
            decreases gone.len() - g,
        {
            self.unlist(gone[g].sandbox_id.as_str(), gone[g].id.as_str());
            g = g + 1;
        }
        Ok(count)
    }

    /// Deletes the snapshots expired now and says how many there were;
    /// snapshots that never expire stay.
    pub fn cleanup_expired(&mut self) -> (r: Result<usize>)
        requires
            old(self).wf(),
        ensures
            final(self).wf(),
            final(self).limit() == old(self).limit(),
            r matches Ok(n) && n == old(self).all().len() - final(self).all().len(),
            forall|k: int|
                0 <= k < old(self).all().len() && (#[trigger] old(self).all()[k]).expires_at is None
                    ==> final(self).all().contains(old(self).all()[k]),
    {
        let now = wall_clock_millis();
        let ghost before = self.all();
        let r = self.cleanup_expired_at(now);
        proof {
            let keep = |s: SandboxSnapshot| !sandbox_snapshot_expired(s, now);
            assert forall|k: int| 0 <= k < before.len() && (#[trigger] before[k]).expires_at is None
                implies self.all().contains(before[k]) by {
                before.lemma_filter_contains(keep, k);
            }
        }
        r
    }

    /// How many snapshots are kept.
    pub fn count(&self) -> (r: usize)
        ensures
            r == self.all().len(),
    {
        self.snapshots.len()
    }

    /// How many snapshots of a sandbox still exist.
    pub fn count_for_sandbox(&self, sandbox_id: &str) -> (r: usize)
        requires
            self.wf(),
        ensures
            r == present_ids(self.all(), self.listed(sandbox_id@)).len(),
    {
        match self.get_sandbox_snapshots(sandbox_id) {
            Ok(v) => v.len(),
            Err(_) => 0,
        }
    }
}

impl Default for SnapshotManager {
    fn default() -> (r: Self)
        ensures
            r.wf(),
            r.all().len() == 0,
            r.limit() == 100,
    {
        Self::new()
    }
}

} // verus!
