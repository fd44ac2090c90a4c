//! Snapshots taken before an operation, for rolling it back, and the
//! manager that keeps them per operation.
//!
//! Times are milliseconds since the epoch.

use vstd::prelude::*;
use crate::clock::{wall_clock_millis, WALL_CLOCK_LIMIT};
use crate::ids::{is_uuid_v4_text, new_uuid_v4};
use crate::rollback::config::Config;
use crate::rollback::error::{Error, Result};
use crate::strmap::{assign, StrMap};
use crate::text::{decimal, decimal_string, str_equal, string_of};

verus! {

/// State of a snapshot.
#[derive(Debug, Clone, Copy, PartialEq, Eq, Structural)]
pub enum SnapshotStatus {
    /// Taken.
    Created,
    /// Used.
    Used,
    /// Rolled back to.
    RolledBack,
    /// Expired.
    Expired,
}

/// Kind of a snapshot.
#[derive(Debug, Clone, Copy, PartialEq, Eq, Structural)]
pub enum SnapshotType {
    /// Everything.
    Full,
    /// What changed since the parent.
    Incremental,
    /// A checkpoint.
    Checkpoint,
}

/// How `Debug` prints a status.
pub open spec fn snapshot_status_name(s: SnapshotStatus) -> Seq<char> {
    match s {
        SnapshotStatus::Created => "Created"@,
        SnapshotStatus::Used => "Used"@,
        SnapshotStatus::RolledBack => "RolledBack"@,
        SnapshotStatus::Expired => "Expired"@,
    }
}

/// How `Debug` prints a status.
pub fn snapshot_status_text(s: SnapshotStatus) -> (r: &'static str)
    ensures
        r@ == snapshot_status_name(s),
{
    match s {
        SnapshotStatus::Created => "Created",
        SnapshotStatus::Used => "Used",
        SnapshotStatus::RolledBack => "RolledBack",
        SnapshotStatus::Expired => "Expired",
    }
}

/// A snapshot of an operation.
#[derive(Debug, Clone)]
pub struct Snapshot {
    /// Identifier.
    pub id: String,
    /// The operation it belongs to.
    pub operation_id: String,
    /// Kind.
    pub snapshot_type: SnapshotType,
    /// State.
    pub status: SnapshotStatus,
    /// The saved data.
    pub data: serde_json::Value,
    /// What a rollback restores, if any.
    pub rollback_data: Option<serde_json::Value>,
    /// The snapshot it follows, if any.
    pub parent_id: Option<String>,
    /// When it was taken.
    pub created_at: i64,
    /// When it expires, if ever.
    pub expires_at: Option<i64>,
    /// Free-form data.
    pub metadata: StrMap,
}

/// Whether a snapshot is expired at `now`.
pub open spec fn snapshot_expired(s: Snapshot, now: i64) -> bool {
    s.expires_at matches Some(e) && now > e
}

/// Milliseconds in an hour.
pub const HOUR_MS: i64 = 3_600_000;

impl Snapshot {
    /// A fresh snapshot with a random identifier, taken at `now`, with no
    /// rollback data, parent, expiry or metadata.
    pub fn new_at(operation_id: String, snapshot_type: SnapshotType, data: serde_json::Value, now: i64) -> (r: Self)
        ensures
            is_uuid_v4_text(r.id@),
            r.operation_id == operation_id,
            r.snapshot_type == snapshot_type,
            r.data == data,
            r.status == SnapshotStatus::Created,
            r.rollback_data is None,
            r.parent_id is None,
            r.created_at == now,
            r.expires_at is None,
            r.metadata.wf(),
            r.metadata@.len() == 0,
    {
        Snapshot {
            id: new_uuid_v4(),
            operation_id,
            snapshot_type,
            status: SnapshotStatus::Created,
            data,
            rollback_data: None,
            parent_id: None,
            created_at: now,
            expires_at: None,
            metadata: StrMap::new(),
        }
    }

    /// A fresh snapshot taken now.
    pub fn new(operation_id: String, snapshot_type: SnapshotType, data: serde_json::Value) -> (r: Self)
        ensures
            is_uuid_v4_text(r.id@),
            r.operation_id == operation_id,
            r.snapshot_type == snapshot_type,
            r.data == data,
            r.status == SnapshotStatus::Created,
            r.rollback_data is None,
            r.parent_id is None,
            r.expires_at is None,
            r.metadata.wf(),
            r.metadata@.len() == 0,
    {
        Self::new_at(operation_id, snapshot_type, data, wall_clock_millis())
    }

    /// The same snapshot with rollback data.
    pub fn with_rollback_data(self, rollback_data: serde_json::Value) -> (r: Self)
        ensures
            r == (Snapshot { rollback_data: Some(rollback_data), ..self }),
    {
        let mut s = self;
        s.rollback_data = Some(rollback_data);
        s
    }

    /// The same snapshot with a parent.
    pub fn with_parent(self, parent_id: String) -> (r: Self)
        ensures
            r == (Snapshot { parent_id: Some(parent_id), ..self }),
    {
        let mut s = self;
        s.parent_id = Some(parent_id);
        s
    }

    /// The same snapshot, expiring `hours` hours after `now`; the hours are
    /// taken as a signed count, as a cast to `i64` reads them.
    pub fn with_expiry_at(self, hours: u64, now: i64) -> (r: Self)
        requires
            i64::MIN <= (hours as i64) * HOUR_MS <= i64::MAX,
            i64::MIN <= now + (hours as i64) * HOUR_MS <= i64::MAX,
        ensures
            r == (Snapshot { expires_at: Some((now + (hours as i64) * HOUR_MS) as i64), ..self }),
    {
        let mut s = self;
        let h: i64 = hours as i64;
        s.expires_at = Some(now + h * HOUR_MS);
        s
    }

    /// The same snapshot, expiring `hours` hours from now.
    pub fn with_expiry(self, hours: u64) -> (r: Self)
        requires
            -(i64::MAX - WALL_CLOCK_LIMIT) <= (hours as i64) * HOUR_MS <= i64::MAX - WALL_CLOCK_LIMIT,
        ensures
            r == (Snapshot { expires_at: r.expires_at, ..self }),
            r.expires_at is Some,
    {
        let now = wall_clock_millis();
        self.with_expiry_at(hours, now)
    }

    /// Sets a metadata entry.
    pub fn add_metadata(&mut self, key: &str, value: &str)
        requires
            old(self).metadata.wf(),
        ensures
            final(self).metadata.wf(),
            final(self).metadata@ == assign(old(self).metadata@, key@, value@),
            final(self).id == old(self).id,
            final(self).status == old(self).status,
            final(self).expires_at == old(self).expires_at,
    {
        self.metadata.insert(string_of(key), string_of(value));
    }

    /// Whether the snapshot is expired at `now`.
    pub fn is_expired_at(&self, now: i64) -> (r: bool)
        ensures
            r == snapshot_expired(*self, now),
    {
        match self.expires_at {
            Some(e) => now > e,
            None => false,
        }
    }

    /// Whether the snapshot is expired now; one that never expires is not.
    pub fn is_expired(&self) -> (r: bool)
        ensures
            self.expires_at is None ==> !r,
            r ==> exists|now: i64| #[trigger] snapshot_expired(*self, now),
    {
        self.is_expired_at(wall_clock_millis())
    }

    /// Marks the snapshot used.
    pub fn mark_used(&mut self)
        ensures
            *final(self) == (Snapshot { status: SnapshotStatus::Used, ..*old(self) }),
    {
        self.status = SnapshotStatus::Used;
    }

    /// Marks the snapshot rolled back to.
    pub fn mark_rolled_back(&mut self)
        ensures
            *final(self) == (Snapshot { status: SnapshotStatus::RolledBack, ..*old(self) }),
    {
        self.status = SnapshotStatus::RolledBack;
    }
}

/// Whether a snapshot of identifier `id` is among `s`.
pub open spec fn has_snapshot(s: Seq<Snapshot>, id: Seq<char>) -> bool {
    exists|i: int| 0 <= i < s.len() && (#[trigger] s[i]).id@ == id
}

/// Whether no two of `s` share an identifier.
pub open spec fn distinct_ids(s: Seq<Snapshot>) -> bool {
    forall|i: int, j: int|
        0 <= i < s.len() && 0 <= j < s.len() && i != j ==> (#[trigger] s[i]).id@ != (#[trigger] s[j]).id@
}

/// The position of the snapshot of identifier `id` among `s`.
pub open spec fn snapshot_index(s: Seq<Snapshot>, id: Seq<char>) -> int {
    choose|i: int| 0 <= i < s.len() && (#[trigger] s[i]).id@ == id
}

/// The snapshot of identifier `id` among `s`.
pub open spec fn snapshot_named(s: Seq<Snapshot>, id: Seq<char>) -> Snapshot {
    s[snapshot_index(s, id)]
}

/// The identifiers of `ids` whose snapshot is among `s`, in order.
pub open spec fn existing_ids(s: Seq<Snapshot>, ids: Seq<Seq<char>>) -> Seq<Seq<char>> {
    ids.filter(|id: Seq<char>| has_snapshot(s, id))
}

/// Where identifiers are distinct, the snapshot found for an identifier is
/// the one at every position that carries it.
pub proof fn lemma_snapshot_named(s: Seq<Snapshot>, id: Seq<char>, i: int)
    requires
        distinct_ids(s),
        0 <= i < s.len(),
        s[i].id@ == id,
    ensures
        snapshot_index(s, id) == i,
        snapshot_named(s, id) == s[i],
{
    let k = snapshot_index(s, id);
    assert(0 <= k < s.len() && s[k].id@ == id);
}

/// The identifiers of `ids` other than `id`, in order.
pub open spec fn without_id(ids: Seq<Seq<char>>, id: Seq<char>) -> Seq<Seq<char>> {
    ids.filter(|x: Seq<char>| x != id)
}

/// The message for an unknown snapshot.
pub open spec fn missing_snapshot_message(id: Seq<char>) -> Seq<char> {
    "快照 "@ + id + " 不存在"@
}

/// The message for an operation without snapshots.
pub open spec fn no_snapshots_message(op: Seq<char>) -> Seq<char> {
    "操作 "@ + op + " 没有快照"@
}

/// The characters of each string.
pub open spec fn texts(v: Seq<String>) -> Seq<Seq<char>> {
    v.map_values(|s: String| s@)
}

/// The snapshots `all` once `s` is stored: it takes the place of the
/// snapshot of its identifier, or comes last where there is none.
pub open spec fn stored(all: Seq<Snapshot>, s: Snapshot) -> Seq<Snapshot> {
    if has_snapshot(all, s.id@) {
        all.update(choose|i: int| 0 <= i < all.len() && (#[trigger] all[i]).id@ == s.id@, s)
    } else {
        all.push(s)
    }
}

/// Keeps snapshots and, per operation, the identifiers of its snapshots in
/// the order they were taken.
#[derive(Debug)]
pub struct SnapshotManager {
    snapshots: Vec<Snapshot>,
    op_ids: Vec<String>,
    op_lists: Vec<Vec<String>>,
    config: Config,
}

impl SnapshotManager {
    /// The snapshots, in the order their identifiers were first stored.
    pub closed spec fn all(&self) -> Seq<Snapshot> {
        self.snapshots@
    }

    /// The operations that have a list, in order.
    pub closed spec fn operations(&self) -> Seq<Seq<char>> {
        texts(self.op_ids@)
    }

    /// The list of snapshot identifiers of the operation at position `k`.
    pub closed spec fn list_at(&self, k: int) -> Seq<Seq<char>> {
        texts(self.op_lists@[k]@)
    }

    /// The configuration.
    pub closed spec fn cfg(&self) -> Config {
        self.config
    }

    /// The manager's invariant: one snapshot per identifier, one list per
    /// operation.
    pub closed spec fn wf(&self) -> bool {
        &&& self.op_ids@.len() == self.op_lists@.len()
        &&& forall|i: int, j: int|
            0 <= i < self.snapshots@.len() && 0 <= j < self.snapshots@.len() && i != j
                ==> (#[trigger] self.snapshots@[i]).id@ != (#[trigger] self.snapshots@[j]).id@
        &&& forall|i: int, j: int|
            0 <= i < self.op_ids@.len() && 0 <= j < self.op_ids@.len() && i != j
                ==> (#[trigger] self.op_ids@[i])@ != (#[trigger] self.op_ids@[j])@
    }

    /// A well-formed manager keeps one snapshot per identifier.
    pub proof fn lemma_distinct(&self)
        requires
            self.wf(),
        ensures
            distinct_ids(self.all()),
    {
    }

    /// The position of operation `op`'s list, if it has one.
    pub open spec fn op_index(&self, op: Seq<char>, k: int) -> bool {
        0 <= k < self.operations().len() && self.operations()[k] == op
    }

    /// Whether `after` holds the lists of `self` with `id` appended to the
    /// list of operation `op`, which is added last where it had none.
    pub open spec fn lists_gain(&self, after: &SnapshotManager, op: Seq<char>, id: Seq<char>) -> bool {
        if exists|k: int| self.op_index(op, k) {
            &&& after.operations() == self.operations()
            &&& forall|k: int|
                0 <= k < self.operations().len() ==> #[trigger] after.list_at(k) == if self.op_index(op, k) {
                    self.list_at(k).push(id)
                } else {
                    self.list_at(k)
                }
        } else {
            &&& after.operations() == self.operations().push(op)
            &&& after.list_at(self.operations().len() as int) == seq![id]
            &&& forall|k: int| 0 <= k < self.operations().len() ==> #[trigger] after.list_at(k) == self.list_at(k)
        }
    }

    /// An empty manager with the default configuration.
    pub fn new() -> (r: Self)
        ensures
            r.wf(),
            r.all().len() == 0,
            r.operations().len() == 0,
            r.cfg().max_rollback_levels == 10,
    {
        Self::with_config(Config::default())
    }

    /// An empty manager with `config`.
    pub fn with_config(config: Config) -> (r: Self)
        ensures
            r.wf(),
            r.all().len() == 0,
            r.operations().len() == 0,
            r.cfg() == config,
    {
        let r = SnapshotManager {
            snapshots: Vec::new(),
            op_ids: Vec::new(),
            op_lists: Vec::new(),
            config,
        };
        assert(r.operations() =~= Seq::<Seq<char>>::empty());
        r
    }

    fn position(&self, id: &str) -> (r: Option<usize>)
        ensures
            r is None <==> !has_snapshot(self.all(), id@),
            r matches Some(i) ==> i < self.all().len() && self.all()[i as int].id@ == id@,
    {
        let mut i: usize = 0;
        while i < self.snapshots.len()
            invariant
                i <= self.snapshots@.len(),
                forall|j: int| 0 <= j < i ==> (#[trigger] self.snapshots@[j]).id@ != id@,
            decreases self.snapshots.len() - i,
        {
            if str_equal(self.snapshots[i].id.as_str(), id) {
                return Some(i);
            }
            i = i + 1;
        }
        None
    }

    fn op_position(&self, op: &str) -> (r: Option<usize>)
        requires
            self.wf(),
        ensures
            r is None ==> forall|k: int| !self.op_index(op@, k),
            r matches Some(k) ==> self.op_index(op@, k as int),
    {
        let mut i: usize = 0;
        while i < self.op_ids.len()
            invariant
                i <= self.op_ids@.len(),
                forall|j: int| 0 <= j < i ==> (#[trigger] self.op_ids@[j])@ != op@,
            decreases self.op_ids.len() - i,
        {
            if str_equal(self.op_ids[i].as_str(), op) {
                assert(self.operations()[i as int] == op@);
                return Some(i);
            }
            i = i + 1;
        }
        assert forall|k: int| !self.op_index(op@, k) by {
            if 0 <= k < self.operations().len() {
                assert(self.operations()[k] == self.op_ids@[k]@);
            }
        }
        None
    }

    fn not_found(id: &str) -> (r: Error)
        ensures
            r matches Error::Rollback(m) && m@ == missing_snapshot_message(id@),
    {
        let mut m = string_of("快照 ");
        m.append(id);
        m.append(" 不存在");
        Error::Rollback(m)
    }

    fn no_snapshots(op: &str) -> (r: Error)
        ensures
            r matches Error::Rollback(m) && m@ == no_snapshots_message(op@),
    {
        let mut m = string_of("操作 ");
        m.append(op);
        m.append(" 没有快照");
        Error::Rollback(m)
    }

    fn store(&mut self, snapshot: Snapshot)
        requires
            old(self).wf(),
        ensures
            final(self).wf(),
            final(self).cfg() == old(self).cfg(),
            final(self).all() == stored(old(self).all(), snapshot),
            old(self).lists_gain(&*final(self), snapshot.operation_id@, snapshot.id@),
    {
        let ghost sid = snapshot.id@;
        let ghost snap = snapshot;
        let id = snapshot.id.clone();
        let op = snapshot.operation_id.clone();
        match self.position(id.as_str()) {
            Some(i) => {
                proof {
                    let c = choose|c: int| 0 <= c < old(self).all().len() && (#[trigger] old(self).all()[c]).id@ == sid;
                    assert(old(self).all()[c].id@ == sid);
                    assert(old(self).all()[i as int].id@ == sid);
                    assert(c == i);
                }
                self.snapshots.set(i, snapshot);
                assert(self.all() == stored(old(self).all(), snap));
                assert forall|a: int, b: int|
                    0 <= a < self.snapshots@.len() && 0 <= b < self.snapshots@.len() && a != b implies (
                    #[trigger] self.snapshots@[a]).id@ != (#[trigger] self.snapshots@[b]).id@ by {
                    if a != i && b != i {
                        assert(self.snapshots@[a] == old(self).snapshots@[a]);
                        assert(self.snapshots@[b] == old(self).snapshots@[b]);
                    } else if a == i {
                        assert(self.snapshots@[b] == old(self).snapshots@[b]);
                        assert(old(self).snapshots@[i as int].id@ == sid);
                    } else {
                        assert(self.snapshots@[a] == old(self).snapshots@[a]);
                        assert(old(self).snapshots@[i as int].id@ == sid);
                    }
                }
            },
            None => {
                self.snapshots.push(snapshot);
                assert(self.all() == stored(old(self).all(), snap));
                assert forall|a: int, b: int|
                    0 <= a < self.snapshots@.len() && 0 <= b < self.snapshots@.len() && a != b implies (
                    #[trigger] self.snapshots@[a]).id@ != (#[trigger] self.snapshots@[b]).id@ by {
                    if a < old(self).snapshots@.len() {
                        assert(self.snapshots@[a] == old(self).snapshots@[a]);
                    }
                    if b < old(self).snapshots@.len() {
                        assert(self.snapshots@[b] == old(self).snapshots@[b]);
                    }
                }
            },
        }
        let ghost mid = *self;
        assert(mid.operations() == old(self).operations());
        assert(forall|k: int| 0 <= k < mid.op_lists@.len() ==> mid.op_lists@[k] == old(self).op_lists@[k]);
        match self.op_position(op.as_str()) {
            Some(k) => {
                let ghost lists0 = self.op_lists@;
                let mut list = self.op_lists.remove(k);
                let ghost l0 = list@;
                list.push(id);
                assert(texts(list@) =~= texts(l0).push(sid));
                self.op_lists.insert(k, list);
                assert(self.op_lists@ =~= lists0.update(k as int, self.op_lists@[k as int]));
                assert forall|k2: int| 0 <= k2 < old(self).operations().len() implies #[trigger] self.list_at(k2)
                    == if old(self).op_index(snap.operation_id@, k2) {
                    old(self).list_at(k2).push(sid)
                } else {
                    old(self).list_at(k2)
                } by {
                    if k2 == k {
                    } else {
                        assert(self.op_lists@[k2] == old(self).op_lists@[k2]);
                        if old(self).op_index(snap.operation_id@, k2) {
                            assert(old(self).operations()[k2] == old(self).op_ids@[k2]@);
                            assert(old(self).operations()[k as int] == old(self).op_ids@[k as int]@);
                        }
                    }
                }
                assert(self.operations() =~= old(self).operations());
                assert(old(self).op_index(snap.operation_id@, k as int));
            },
            None => {
                let ghost before = self.op_ids@;
                let ghost pre = *self;
                let ghost o = op@;
                let ghost lists0 = self.op_lists@;
                let mut list: Vec<String> = Vec::new();
                list.push(id);
                self.op_ids.push(op);
                self.op_lists.push(list);
                assert forall|a: int, b: int|
                    0 <= a < self.op_ids@.len() && 0 <= b < self.op_ids@.len() && a != b implies (
                    #[trigger] self.op_ids@[a])@ != (#[trigger] self.op_ids@[b])@ by {
                    if a == before.len() {
                        assert(!pre.op_index(o, b));
                        assert(pre.operations()[b] == before[b]@);
                    } else if b == before.len() {
                        assert(!pre.op_index(o, a));
                        assert(pre.operations()[a] == before[a]@);
                    }
                }
                assert(self.operations() =~= old(self).operations().push(o));
                assert(texts(self.op_lists@[before.len() as int]@) =~= seq![sid]);
                assert forall|k2: int| 0 <= k2 < old(self).operations().len() implies #[trigger] self.list_at(k2)
                    == old(self).list_at(k2) by {
                    assert(self.op_lists@[k2] == lists0[k2]);
                }
                assert(!exists|k2: int| old(self).op_index(snap.operation_id@, k2)) by {
                    assert forall|k2: int| !old(self).op_index(snap.operation_id@, k2) by {
                        assert(!pre.op_index(o, k2));
                    }
                }
            },
        }
    }

    /// Takes a snapshot of operation `operation_id`; fails when the
    /// operation already has as many snapshots as the configuration allows.
    pub fn create_snapshot(
        &mut self,
        operation_id: String,
        snapshot_type: SnapshotType,
        data: serde_json::Value,
    ) -> (r: Result<String>)
        requires
            old(self).wf(),
        ensures
            final(self).wf(),
            final(self).cfg() == old(self).cfg(),
            r matches Ok(id) ==> is_uuid_v4_text(id@) && exists|s: Snapshot|
                #[trigger] s.id@ == id@ && s.operation_id@ == operation_id@ && s.snapshot_type == snapshot_type
                    && s.data == data && s.status == SnapshotStatus::Created && s.rollback_data is None
                    && s.parent_id is None && s.expires_at is None && final(self).all() == stored(
                    old(self).all(),
                    s,
                ) && old(self).lists_gain(&*final(self), operation_id@, id@),
            r is Err ==> *final(self) == *old(self),
            r matches Err(Error::Config(m)) ==> exists|k: int|
                old(self).op_index(operation_id@, k) && old(self).list_at(k).len() >= old(self).cfg().max_rollback_levels
                    && m@ == "操作 "@ + operation_id@ + " 的快照数量已达上限 "@ + decimal(
                    old(self).cfg().max_rollback_levels as nat,
                ),
            r is Err ==> final(self).all() == old(self).all(),
            r is Ok <==> !(exists|k: int|
                old(self).op_index(operation_id@, k) && old(self).list_at(k).len() >= old(self).cfg().max_rollback_levels),
    {
        match self.op_position(operation_id.as_str()) {
            Some(k) => {
                if self.op_lists[k].len() >= self.config.max_rollback_levels {
                    assert(self.list_at(k as int).len() == self.op_lists@[k as int]@.len());
                    let mut m = string_of("操作 ");
                    m.append(operation_id.as_str());
                    m.append(" 的快照数量已达上限 ");
                    m.append(decimal_string(self.config.max_rollback_levels as u64).as_str());
                    return Err(Error::Config(m));
                }
                assert(self.list_at(k as int).len() == self.op_lists@[k as int]@.len());
                assert forall|k2: int| old(self).op_index(operation_id@, k2) implies k2 == k by {
                    if k2 != k {
                        assert(self.operations()[k2] == self.op_ids@[k2]@);
                        assert(self.operations()[k as int] == self.op_ids@[k as int]@);
                    }
                }
            },
            None => {},
        }
        let snapshot = Snapshot::new(operation_id, snapshot_type, data);
        let ghost snap = snapshot;
        let id = snapshot.id.clone();
        self.store(snapshot);
        assert(snap.id@ == id@);
        Ok(id)
    }

    /// Takes a snapshot of operation `operation_id` with rollback data;
    /// there is no limit on these.
    pub fn create_snapshot_with_rollback(
        &mut self,
        operation_id: String,
        snapshot_type: SnapshotType,
        data: serde_json::Value,
        rollback_data: serde_json::Value,
    ) -> (r: Result<String>)
        requires
            old(self).wf(),
        ensures
            final(self).wf(),
            final(self).cfg() == old(self).cfg(),
            r matches Ok(id) && is_uuid_v4_text(id@) && exists|s: Snapshot|
                #[trigger] s.id@ == id@ && s.operation_id@ == operation_id@ && s.snapshot_type == snapshot_type
                    && s.data == data && s.status == SnapshotStatus::Created && s.rollback_data
                    == Some(rollback_data) && s.parent_id is None && s.expires_at is None
                    && final(self).all() == stored(old(self).all(), s)
                    && old(self).lists_gain(&*final(self), operation_id@, id@),
    {
        let snapshot = Snapshot::new(operation_id, snapshot_type, data).with_rollback_data(rollback_data);
        let ghost snap = snapshot;
        let id = snapshot.id.clone();
        self.store(snapshot);
        assert(snap.id@ == id@);
        Ok(id)
    }

    /// The snapshot of identifier `id`.
    pub fn get_snapshot(&self, id: &str) -> (r: Result<&Snapshot>)
        ensures
            r is Ok <==> has_snapshot(self.all(), id@),
            r matches Ok(s) ==> s.id@ == id@ && self.all().contains(*s),
            r matches Err(Error::Rollback(m)) ==> m@ == missing_snapshot_message(id@),
            r is Err ==> r matches Err(Error::Rollback(_)),
    {
        match self.position(id) {
            Some(i) => Ok(&self.snapshots[i]),
            None => Err(Self::not_found(id)),
        }
    }

    /// The newest snapshot of an operation.
    pub fn get_latest_snapshot(&self, operation_id: &str) -> (r: Result<&Snapshot>)
        requires
            self.wf(),
        ensures
            r is Err ==> r matches Err(Error::Rollback(_)),
            (forall|k: int| !self.op_index(operation_id@, k)) ==> (r matches Err(Error::Rollback(m))
                && m@ == no_snapshots_message(operation_id@)),
            forall|k: int|
                self.op_index(operation_id@, k) ==> (self.list_at(k).len() == 0 ==> (r matches Err(
                    Error::Rollback(m),
                ) && m@ == no_snapshots_message(operation_id@))) && (self.list_at(k).len() > 0 ==> (
                r is Ok <==> has_snapshot(self.all(), self.list_at(k).last())) && (r matches Ok(s)
                    ==> s.id@ == self.list_at(k).last() && self.all().contains(*s)) && (r matches Err(
                    Error::Rollback(m),
                ) ==> m@ == missing_snapshot_message(self.list_at(k).last()))),
    {
        match self.op_position(operation_id) {
            Some(k) => {
                let list = &self.op_lists[k];
                assert(self.list_at(k as int) == texts(list@));
                assert forall|k2: int| self.op_index(operation_id@, k2) implies k2 == k by {
                    if k2 != k {
                        assert(self.operations()[k2] == self.op_ids@[k2]@);
                        assert(self.operations()[k as int] == self.op_ids@[k as int]@);
                    }
                }
                if list.len() == 0 {
                    return Err(Self::no_snapshots(operation_id));
                }
                let last = &list[list.len() - 1];
                assert(texts(list@).last() == last@);
                match self.position(last.as_str()) {
                    Some(i) => Ok(&self.snapshots[i]),
                    None => Err(Self::not_found(last.as_str())),
                }
            },
            None => Err(Self::no_snapshots(operation_id)),
        }
    }

    /// The snapshots of an operation that still exist, oldest first.
    pub fn get_operation_snapshots(&self, operation_id: &str) -> (r: Result<Vec<&Snapshot>>)
        requires
            self.wf(),
        ensures
            r is Ok <==> exists|k: int| self.op_index(operation_id@, k),
            r matches Err(Error::Rollback(m)) ==> m@ == no_snapshots_message(operation_id@),
            r is Err ==> r matches Err(Error::Rollback(_)),
            r matches Ok(v) ==> forall|i: int|
                0 <= i < v@.len() ==> self.all().contains(*(#[trigger] v@[i])),
            r matches Ok(v) ==> forall|k: int|
                self.op_index(operation_id@, k) ==> v@.len() == existing_ids(self.all(), self.list_at(k)).len()
                    && forall|i: int|
                    0 <= i < v@.len() ==> (#[trigger] v@[i]).id@ == existing_ids(self.all(), self.list_at(k))[i],
    {
        match self.op_position(operation_id) {
            Some(k) => {
                let list = &self.op_lists[k];
                assert forall|k2: int| self.op_index(operation_id@, k2) implies k2 == k by {
                    if k2 != k {
                        assert(self.operations()[k2] == self.op_ids@[k2]@);
                        assert(self.operations()[k as int] == self.op_ids@[k as int]@);
                    }
                }
                let ghost names = texts(list@);
                let ghost pred = |id: Seq<char>| has_snapshot(self.all(), id);
                let mut out: Vec<&Snapshot> = Vec::new();
                let mut i: usize = 0;
                while i < list.len()
                    invariant
                        i <= list@.len(),
                        names == texts(list@),
                        pred == (|id: Seq<char>| has_snapshot(self.all(), id)),
                        out@.len() == names.subrange(0, i as int).filter(pred).len(),
                        forall|j: int| 0 <= j < out@.len() ==> self.all().contains(*(#[trigger] out@[j])),
                        forall|j: int|
                            0 <= j < out@.len() ==> (#[trigger] out@[j]).id@ == names.subrange(0, i as int).filter(pred)[j],
                    decreases list.len() - i,
                {
                    proof {
                        assert(names.subrange(0, i as int + 1) =~= names.subrange(0, i as int).push(names[i as int]));
                        names.subrange(0, i as int).lemma_filter_push(names[i as int], pred);
                        assert(names[i as int] == list@[i as int]@);
                    }
                    match self.position(list[i].as_str()) {
                        Some(p) => {
                            out.push(&self.snapshots[p]);
                            assert(self.all()[p as int] == *out@[out@.len() - 1]);
                        },
                        None => {},
                    }
                    i = i + 1;
                }
                assert(names.subrange(0, list@.len() as int) =~= names);
                assert(self.list_at(k as int) == names);
                Ok(out)
            },
            None => Err(Self::no_snapshots(operation_id)),
        }
    }

    fn set_status(&mut self, id: &str, status: SnapshotStatus) -> (r: Result<()>)
        requires
            old(self).wf(),
        ensures
            final(self).wf(),
            final(self).cfg() == old(self).cfg(),
            final(self).operations() == old(self).operations(),
            r is Ok <==> has_snapshot(old(self).all(), id@),
            r matches Err(Error::Rollback(m)) ==> m@ == missing_snapshot_message(id@),
            r is Err ==> final(self).all() == old(self).all(),
            r is Ok ==> exists|i: int|
                0 <= i < old(self).all().len() && (#[trigger] old(self).all()[i]).id@ == id@
                    && final(self).all() == old(self).all().update(
                    i,
                    Snapshot { status, ..old(self).all()[i] },
                ),
    {
        match self.position(id) {
            Some(i) => {
                let mut s = self.snapshots.remove(i);
                s.status = status;
                self.snapshots.insert(i, s);
                assert(self.snapshots@ =~= old(self).snapshots@.update(
                    i as int,
                    Snapshot { status, ..old(self).snapshots@[i as int] },
                ));
                assert forall|a: int, b: int|
                    0 <= a < self.snapshots@.len() && 0 <= b < self.snapshots@.len() && a != b implies (
                    #[trigger] self.snapshots@[a]).id@ != (#[trigger] self.snapshots@[b]).id@ by {
                    assert(self.snapshots@[a].id@ == old(self).snapshots@[a].id@);
                    assert(self.snapshots@[b].id@ == old(self).snapshots@[b].id@);
                }
                Ok(())
            },
            None => Err(Self::not_found(id)),
        }
    }

    /// Marks a snapshot used.
    pub fn mark_used(&mut self, id: &str) -> (r: Result<()>)
        requires
            old(self).wf(),
        ensures
            final(self).wf(),
            final(self).cfg() == old(self).cfg(),
            final(self).operations() == old(self).operations(),
            r is Ok <==> has_snapshot(old(self).all(), id@),
            r matches Err(Error::Rollback(m)) ==> m@ == missing_snapshot_message(id@),
            r is Err ==> final(self).all() == old(self).all(),
            r is Ok ==> exists|i: int|
                0 <= i < old(self).all().len() && (#[trigger] old(self).all()[i]).id@ == id@
                    && final(self).all() == old(self).all().update(
                    i,
                    Snapshot { status: SnapshotStatus::Used, ..old(self).all()[i] },
                ),
    {
        self.set_status(id, SnapshotStatus::Used)
    }

    /// Marks a snapshot rolled back to.
    pub fn mark_rolled_back(&mut self, id: &str) -> (r: Result<()>)
        requires
            old(self).wf(),
        ensures
            final(self).wf(),
            final(self).cfg() == old(self).cfg(),
            final(self).operations() == old(self).operations(),
            r is Ok <==> has_snapshot(old(self).all(), id@),
            r matches Err(Error::Rollback(m)) ==> m@ == missing_snapshot_message(id@),
            r is Err ==> final(self).all() == old(self).all(),
            r is Ok ==> exists|i: int|
                0 <= i < old(self).all().len() && (#[trigger] old(self).all()[i]).id@ == id@
                    && final(self).all() == old(self).all().update(
                    i,
                    Snapshot { status: SnapshotStatus::RolledBack, ..old(self).all()[i] },
                ),
    {
        self.set_status(id, SnapshotStatus::RolledBack)
    }

    fn unlist(&mut self, op: &str, id: &str)
        requires
            old(self).wf(),
        ensures
            final(self).wf(),
            final(self).all() == old(self).all(),
            final(self).cfg() == old(self).cfg(),
            final(self).operations() == old(self).operations(),
            forall|k: int|
                0 <= k < final(self).operations().len() ==> #[trigger] final(self).list_at(k) == if old(
                    self,
                ).op_index(op@, k) {
                    without_id(old(self).list_at(k), id@)
                } else {
                    old(self).list_at(k)
                },
    {
        match self.op_position(op) {
            Some(k) => {
                let ghost lists0 = self.op_lists@;
                let list = self.op_lists.remove(k);
                let ghost names = texts(list@);
                let ghost pred = |x: Seq<char>| x != id@;
                let mut kept: Vec<String> = Vec::new();
                let mut i: usize = 0;
                while i < list.len()
                    invariant
                        i <= list@.len(),
                        names == texts(list@),
                        pred == (|x: Seq<char>| x != id@),
                        texts(kept@) == names.subrange(0, i as int).filter(pred),
                    decreases list.len() - i,
                {
                    proof {
                        assert(names.subrange(0, i as int + 1) =~= names.subrange(0, i as int).push(names[i as int]));
                        names.subrange(0, i as int).lemma_filter_push(names[i as int], pred);
                    }
                    if !str_equal(list[i].as_str(), id) {
                        let ghost before = kept@;
                        kept.push(list[i].clone());
                        assert(texts(kept@) =~= texts(before).push(names[i as int]));
                    }
                    i = i + 1;
                }
                assert(names.subrange(0, list@.len() as int) =~= names);
                self.op_lists.insert(k, kept);
                assert(self.op_lists@ =~= lists0.update(k as int, self.op_lists@[k as int]));
                assert forall|k2: int| 0 <= k2 < self.operations().len() implies #[trigger] self.list_at(k2)
                    == if old(self).op_index(op@, k2) {
                    without_id(old(self).list_at(k2), id@)
                } else {
                    old(self).list_at(k2)
                } by {
                    if k2 == k {
                        assert(old(self).list_at(k2) == names);
                    } else {
                        assert(self.op_lists@[k2] == old(self).op_lists@[k2]);
                        if old(self).op_index(op@, k2) {
                            assert(old(self).operations()[k2] == old(self).op_ids@[k2]@);
                            assert(old(self).operations()[k as int] == old(self).op_ids@[k as int]@);
                        }
                    }
                }
            },
            None => {},
        }
    }

    /// Deletes a snapshot and takes it off its operation's list.
    pub fn delete_snapshot(&mut self, id: &str) -> (r: Result<()>)
        requires
            old(self).wf(),
        ensures
            final(self).wf(),
            final(self).cfg() == old(self).cfg(),
            r is Ok <==> has_snapshot(old(self).all(), id@),
            r matches Err(Error::Rollback(m)) ==> m@ == missing_snapshot_message(id@),
            r is Err ==> final(self).all() == old(self).all(),
            r is Ok ==> exists|i: int|
                0 <= i < old(self).all().len() && (#[trigger] old(self).all()[i]).id@ == id@
                    && final(self).all() == old(self).all().remove(i) && forall|k: int|
                    0 <= k < final(self).operations().len() ==> #[trigger] final(self).list_at(k) == if old(
                        self,
                    ).op_index(old(self).all()[i].operation_id@, k) {
                        without_id(old(self).list_at(k), id@)
                    } else {
                        old(self).list_at(k)
                    },
            final(self).operations() == old(self).operations(),
            r is Err ==> *final(self) == *old(self),
            !has_snapshot(final(self).all(), id@),
    {
        match self.position(id) {
            Some(i) => {
                let ghost before = self.snapshots@;
                let s = self.snapshots.remove(i);
                assert forall|k: int| 0 <= k < self.snapshots@.len() implies (#[trigger] self.snapshots@[k]).id@ != id@ by {
                    if k < i {
                        assert(self.snapshots@[k] == before[k]);
                    } else {
                        assert(self.snapshots@[k] == before[k + 1]);
                    }
                }
                assert forall|a: int, b: int|
                    0 <= a < self.snapshots@.len() && 0 <= b < self.snapshots@.len() && a != b implies (
                    #[trigger] self.snapshots@[a]).id@ != (#[trigger] self.snapshots@[b]).id@ by {
                    let a2 = if a < i { a } else { a + 1 };
                    let b2 = if b < i { b } else { b + 1 };
                    assert(self.snapshots@[a] == before[a2]);
                    assert(self.snapshots@[b] == before[b2]);
                }
                let ghost mid = self.snapshots@;
                self.unlist(s.operation_id.as_str(), id);
                assert(self.all() == mid);
                Ok(())
            },
            None => Err(Self::not_found(id)),
        }
    }

    /// Deletes the snapshots expired at `now` and says how many there were.
    pub fn cleanup_expired(&mut self, now: i64) -> (r: Result<usize>)
        requires
            old(self).wf(),
        ensures
            final(self).wf(),
            final(self).cfg() == old(self).cfg(),
            final(self).all() == old(self).all().filter(|s: Snapshot| !snapshot_expired(s, now)),
            r matches Ok(n) && n == old(self).all().len() - final(self).all().len(),
    {
        let ghost keep = |s: Snapshot| !snapshot_expired(s, now);
        let mut kept: Vec<Snapshot> = Vec::new();
        let mut gone: Vec<Snapshot> = Vec::new();
        let mut rest: Vec<Snapshot> = Vec::new();
        std::mem::swap(&mut rest, &mut self.snapshots);
        let ghost all = rest@;
        let n = rest.len();
        let mut i: usize = 0;
        while i < n
            invariant
                n == all.len(),
                i <= n,
                keep == (|s: Snapshot| !snapshot_expired(s, now)),
                rest@ == all.subrange(i as int, n as int),
                kept@ == all.subrange(0, i as int).filter(keep),
                forall|a: int, b: int|
                    0 <= a < all.len() && 0 <= b < all.len() && a != b ==> (#[trigger] all[a]).id@
                        != (#[trigger] all[b]).id@,
                forall|k: int| 0 <= k < kept@.len() ==> exists|q: int| 0 <= q < i && #[trigger] kept@[k] == all[q],
                forall|a: int, b: int|
                    0 <= a < kept@.len() && 0 <= b < kept@.len() && a != b ==> (#[trigger] kept@[a]).id@
                        != (#[trigger] kept@[b]).id@,
            decreases n - i,
        {
            let s = rest.remove(0);
            proof {
                assert(s == all[i as int]);
                assert(all.subrange(0, i as int + 1) =~= all.subrange(0, i as int).push(all[i as int]));
                all.subrange(0, i as int).lemma_filter_push(all[i as int], keep);
                assert(rest@ =~= all.subrange(i as int + 1, n as int));
            }
            let ghost prev = kept@;
            if !s.is_expired_at(now) {
                kept.push(s);
                assert forall|k: int| 0 <= k < kept@.len() implies exists|q: int| 0 <= q < i + 1 && #[trigger] kept@[k] == all[q] by {
                    if k < prev.len() {
                        assert(kept@[k] == prev[k]);
                    } else {
                        assert(kept@[k] == all[i as int]);
                    }
                }
                assert forall|a: int, b: int|
                    0 <= a < kept@.len() && 0 <= b < kept@.len() && a != b implies (#[trigger] kept@[a]).id@
                        != (#[trigger] kept@[b]).id@ by {
                    if a < prev.len() && b < prev.len() {
                        assert(kept@[a] == prev[a] && kept@[b] == prev[b]);
                    } else if a < prev.len() {
                        assert(kept@[a] == prev[a]);
                        let qa = choose|q: int| 0 <= q < i && #[trigger] prev[a] == all[q];
                        assert(all[qa].id@ != all[i as int].id@);
                    } else {
                        assert(kept@[b] == prev[b]);
                        let qb = choose|q: int| 0 <= q < i && #[trigger] prev[b] == all[q];
                        assert(all[qb].id@ != all[i as int].id@);
                    }
                }
            } else {
                gone.push(s);
            }
            i = i + 1;
        }
        assert(all.subrange(0, n as int) == all);
        proof {
            all.lemma_filter_len(keep);
        }
        let count = n - kept.len();
        self.snapshots = kept;
        let ghost done = self.snapshots@;
        let mut g: usize = 0;
        while g < gone.len()
            invariant
                self.wf(),
                self.snapshots@ == done,
                self.config == old(self).config,
                g <= gone@.len(),
            decreases gone.len() - g,
        {
            self.unlist(gone[g].operation_id.as_str(), gone[g].id.as_str());
            g = g + 1;
        }
        Ok(count)
    }

    /// How many snapshots are kept.
    pub fn count(&self) -> (r: usize)
        ensures
            r == self.all().len(),
    {
        self.snapshots.len()
    }

    /// How many identifiers the list of an operation holds.
    pub fn count_for_operation(&self, operation_id: &str) -> (r: usize)
        requires
            self.wf(),
        ensures
            (forall|k: int| !self.op_index(operation_id@, k)) ==> r == 0,
            forall|k: int| self.op_index(operation_id@, k) ==> r == self.list_at(k).len(),
    {
        match self.op_position(operation_id) {
            Some(k) => {
                assert forall|k2: int| self.op_index(operation_id@, k2) implies k2 == k by {
                    if k2 != k {
                        assert(self.operations()[k2] == self.op_ids@[k2]@);
                        assert(self.operations()[k as int] == self.op_ids@[k as int]@);
                    }
                }
                assert(self.list_at(k as int).len() == self.op_lists@[k as int]@.len());
                self.op_lists[k].len()
            },
            None => 0,
        }
    }

    /// Forgets every snapshot and every operation.
    pub fn clear(&mut self) -> (r: Result<()>)
        ensures
            r is Ok,
            final(self).wf(),
            final(self).all().len() == 0,
            final(self).operations().len() == 0,
            final(self).cfg() == old(self).cfg(),
    {
        self.snapshots.clear();
        self.op_ids.clear();
        self.op_lists.clear();
        assert(self.operations() =~= Seq::<Seq<char>>::empty());
        Ok(())
    }
}

impl Default for SnapshotManager {
    fn default() -> (r: Self)
        ensures
            r.wf(),
            r.all().len() == 0,
    {
        Self::new()
    }
}

} // verus!
