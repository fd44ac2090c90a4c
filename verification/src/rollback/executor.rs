//! Rolling an operation back to a snapshot: the chain of actions a rollback
//! runs, its result, and the history of rollbacks.
//!
//! The executor works on a snapshot manager that the caller hands it, so
//! that a verifier can read the same manager afterwards. Times are
//! milliseconds since the epoch.

use vstd::prelude::*;
use crate::clock::{instant_now, millis_since, wall_clock_millis};
use crate::ids::{is_uuid_v4_text, new_uuid_v4};
use crate::rollback::error::{Error, Result};
use crate::rollback::snapshot::{
    distinct_ids,
    existing_ids,
    has_snapshot,
    lemma_snapshot_named,
    missing_snapshot_message,
    no_snapshots_message,
    snapshot_expired,
    snapshot_index,
    snapshot_named,
    Snapshot,
    SnapshotManager,
    SnapshotStatus,
};
use crate::text::{decimal, decimal_string, str_debug, str_debug_text, string_of};

verus! {

/// What a rollback action does.
#[derive(Debug, Clone, PartialEq)]
pub enum RollbackActionType {
    /// Restores data.
    DataRestore,
    /// Resets state.
    StateReset,
    /// Cleans up resources.
    ResourceCleanup,
    /// Sends a notification.
    NotificationSend,
    /// Something of the caller's own, by name.
    Custom(String),
}

/// How `Debug` prints an action type.
pub open spec fn action_type_debug(t: RollbackActionType) -> Seq<char> {
    match t {
        RollbackActionType::DataRestore => "DataRestore"@,
        RollbackActionType::StateReset => "StateReset"@,
        RollbackActionType::ResourceCleanup => "ResourceCleanup"@,
        RollbackActionType::NotificationSend => "NotificationSend"@,
        RollbackActionType::Custom(s) => "Custom("@ + str_debug_text(s@) + ")"@,
    }
}

/// How `Debug` prints an action type.
pub fn action_type_debug_text(t: &RollbackActionType) -> (r: String)
    ensures
        r@ == action_type_debug(*t),
{
    match t {
        RollbackActionType::DataRestore => string_of("DataRestore"),
        RollbackActionType::StateReset => string_of("StateReset"),
        RollbackActionType::ResourceCleanup => string_of("ResourceCleanup"),
        RollbackActionType::NotificationSend => string_of("NotificationSend"),
        RollbackActionType::Custom(s) => {
            let mut r = string_of("Custom(");
            let q = str_debug(s.as_str());
            r.append(q.as_str());
            r.append(")");
            r
        },
    }
}

/// State of a rollback action.
#[derive(Debug, Clone, Copy, PartialEq, Eq, Structural)]
pub enum RollbackActionStatus {
    /// Not run yet.
    Pending,
    /// Running.
    Executing,
    /// Done.
    Completed,
    /// Failed.
    Failed,
    /// Skipped.
    Skipped,
}

/// One step of a rollback.
#[derive(Debug, Clone)]
pub struct RollbackAction {
    /// Identifier.
    pub id: String,
    /// The snapshot it restores.
    pub snapshot_id: String,
    /// What it does.
    pub action_type: RollbackActionType,
    /// State.
    pub status: RollbackActionStatus,
    /// Position in the chain.
    pub order: usize,
    /// When it ran, if it did.
    pub executed_at: Option<i64>,
    /// What it produced, or why it was skipped.
    pub result: Option<String>,
    /// Why it failed.
    pub error: Option<String>,
}

impl RollbackAction {
    /// A pending action with a random identifier.
    pub fn new(snapshot_id: String, action_type: RollbackActionType, order: usize) -> (r: Self)
        ensures
            is_uuid_v4_text(r.id@),
            r.snapshot_id == snapshot_id,
            r.action_type == action_type,
            r.status == RollbackActionStatus::Pending,
            r.order == order,
            r.executed_at is None,
            r.result is None,
            r.error is None,
    {
        RollbackAction {
            id: new_uuid_v4(),
            snapshot_id,
            action_type,
            status: RollbackActionStatus::Pending,
            order,
            executed_at: None,
            result: None,
            error: None,
        }
    }

    /// Marks the action running.
    pub fn mark_executing(&mut self)
        ensures
            *final(self) == (RollbackAction { status: RollbackActionStatus::Executing, ..*old(self) }),
    {
        self.status = RollbackActionStatus::Executing;
    }

    /// Marks the action done at `now` with `result`.
    pub fn mark_completed_at(&mut self, result: String, now: i64)
        ensures
            *final(self) == (RollbackAction {
                status: RollbackActionStatus::Completed,
                executed_at: Some(now),
                result: Some(result),
                ..*old(self)
            }),
    {
        self.status = RollbackActionStatus::Completed;
        self.executed_at = Some(now);
        self.result = Some(result);
    }

    /// Marks the action done now with `result`.
    pub fn mark_completed(&mut self, result: String)
        ensures
            final(self).executed_at is Some,
            *final(self) == (RollbackAction {
                status: RollbackActionStatus::Completed,
                executed_at: final(self).executed_at,
                result: Some(result),
                ..*old(self)
            }),
    {
        self.mark_completed_at(result, wall_clock_millis());
    }

    /// Marks the action failed at `now` with `error`.
    pub fn mark_failed_at(&mut self, error: String, now: i64)
        ensures
            *final(self) == (RollbackAction {
                status: RollbackActionStatus::Failed,
                executed_at: Some(now),
                error: Some(error),
                ..*old(self)
            }),
    {
        self.status = RollbackActionStatus::Failed;
        self.executed_at = Some(now);
        self.error = Some(error);
    }

    /// Marks the action failed now with `error`.
    pub fn mark_failed(&mut self, error: String)
        ensures
            final(self).executed_at is Some,
            *final(self) == (RollbackAction {
                status: RollbackActionStatus::Failed,
                executed_at: final(self).executed_at,
                error: Some(error),
                ..*old(self)
            }),
    {
        self.mark_failed_at(error, wall_clock_millis());
    }

    /// Marks the action skipped, for `reason`.
    pub fn mark_skipped(&mut self, reason: String)
        ensures
            *final(self) == (RollbackAction {
                status: RollbackActionStatus::Skipped,
                result: Some(reason),
                ..*old(self)
            }),
    {
        self.status = RollbackActionStatus::Skipped;
        self.result = Some(reason);
    }
}

/// The outcome of one rollback.
#[derive(Debug)]
pub struct RollbackResult {
    /// Whether every action succeeded.
    pub success: bool,
    /// The snapshot rolled back to.
    pub snapshot_id: String,
    /// Actions that succeeded.
    pub actions_executed: usize,
    /// Actions that failed.
    pub actions_failed: usize,
    /// How long it took, in milliseconds.
    pub duration_ms: u64,
    /// What went wrong, if anything.
    pub error: Option<String>,
    /// When it finished.
    pub completed_at: i64,
}

fn clone_text(t: &Option<String>) -> (r: Option<String>)
    ensures
        r == *t,
{
    match t {
        Some(s) => Some(s.clone()),
        None => None,
    }
}

impl Clone for RollbackResult {
    fn clone(&self) -> (r: Self)
        ensures
            r == *self,
    {
        RollbackResult {
            success: self.success,
            snapshot_id: self.snapshot_id.clone(),
            actions_executed: self.actions_executed,
            actions_failed: self.actions_failed,
            duration_ms: self.duration_ms,
            error: clone_text(&self.error),
            completed_at: self.completed_at,
        }
    }
}

/// Why a rollback of snapshot `id` among `all` is refused at `now`, if it is:
/// the snapshot is unknown, already rolled back, expired, or has nothing to
/// roll back to.
pub open spec fn rollback_refusal(all: Seq<Snapshot>, id: Seq<char>, now: i64) -> Option<Seq<char>> {
    if !has_snapshot(all, id) {
        Some(missing_snapshot_message(id))
    } else if snapshot_named(all, id).status == SnapshotStatus::RolledBack {
        Some("快照 "@ + id + " 已回滚"@)
    } else if snapshot_expired(snapshot_named(all, id), now) {
        Some("快照 "@ + id + " 已过期"@)
    } else if snapshot_named(all, id).rollback_data is None {
        Some("快照 "@ + id + " 没有回滚数据"@)
    } else {
        None
    }
}

/// The snapshots after snapshot `id` is marked rolled back.
pub open spec fn rolled_back(all: Seq<Snapshot>, id: Seq<char>) -> Seq<Snapshot> {
    all.update(
        snapshot_index(all, id),
        Snapshot { status: SnapshotStatus::RolledBack, ..all[snapshot_index(all, id)] },
    )
}

/// The message when an operation has fewer snapshots than levels asked for.
pub open spec fn too_few_snapshots_message(op: Seq<char>, have: nat, levels: nat) -> Seq<char> {
    "操作 "@ + op + " 只有 "@ + decimal(have) + " 个快照，无法回滚 "@ + decimal(levels) + " 级"@
}

/// How many actions each rollback runs.
pub const ACTIONS_PER_ROLLBACK: usize = 4;

/// Runs rollbacks against a snapshot manager and keeps their results.
#[derive(Debug)]
pub struct RollbackExecutor {
    execution_history: Vec<RollbackResult>,
}

impl RollbackExecutor {
    /// The results recorded so far, oldest first.
    pub closed spec fn history(&self) -> Seq<RollbackResult> {
        self.execution_history@
    }

    /// An executor with an empty history.
    pub fn new() -> (r: Self)
        ensures
            r.history().len() == 0,
    {
        RollbackExecutor { execution_history: Vec::new() }
    }

    /// The actions of a rollback to `snapshot_id`: restore data, reset
    /// state, clean up resources, notify, in that order.
    fn create_rollback_actions(&self, snapshot_id: &str) -> (r: Result<Vec<RollbackAction>>)
        ensures
            r matches Ok(v) && v@.len() == ACTIONS_PER_ROLLBACK && forall|i: int|
                0 <= i < v@.len() ==> (#[trigger] v@[i]).snapshot_id@ == snapshot_id@ && v@[i].order
                    == i + 1 && v@[i].status == RollbackActionStatus::Pending,
            r matches Ok(v) && v@[0].action_type == RollbackActionType::DataRestore && v@[1].action_type
                == RollbackActionType::StateReset && v@[2].action_type
                == RollbackActionType::ResourceCleanup && v@[3].action_type
                == RollbackActionType::NotificationSend,
    {
        let mut actions: Vec<RollbackAction> = Vec::new();
        actions.push(RollbackAction::new(string_of(snapshot_id), RollbackActionType::DataRestore, 1));
        actions.push(RollbackAction::new(string_of(snapshot_id), RollbackActionType::StateReset, 2));
        actions.push(RollbackAction::new(string_of(snapshot_id), RollbackActionType::ResourceCleanup, 3));
        actions.push(RollbackAction::new(string_of(snapshot_id), RollbackActionType::NotificationSend, 4));
        Ok(actions)
    }

    /// Runs one action: marks it done, with what it did.
    fn execute_single_action(&self, action: &mut RollbackAction) -> (r: Result<()>)
        ensures
            r is Ok,
            final(action).status == RollbackActionStatus::Completed,
            final(action).executed_at is Some,
            final(action).result matches Some(t) && t@ == action_type_debug(old(action).action_type)
                + " 执行成功"@,
            final(action).action_type == old(action).action_type,
    {
        let mut text = action_type_debug_text(&action.action_type);
        text.append(" 执行成功");
        action.mark_completed(text);
        Ok(())
    }

    /// Runs the actions in order; says how many succeeded and how many
    /// failed.
    fn execute_actions(&self, actions: Vec<RollbackAction>) -> (r: Result<(usize, usize)>)
        ensures
            r matches Ok((executed, failed)) && executed == actions@.len() && failed == 0,
    {
        let n = actions.len();
        let mut rest = actions;
        let mut executed: usize = 0;
        let mut failed: usize = 0;
        while executed + failed < n
            invariant
                rest@.len() + executed + failed == n,
                failed == 0,
            decreases rest@.len(),
        {
            let mut action = rest.remove(0);
            action.mark_executing();
            match self.execute_single_action(&mut action) {
                Ok(_) => {
                    executed = executed + 1;
                },
                Err(e) => {
                    action.mark_failed(e.into_message());
                    failed = failed + 1;
                },
            }
        }
        Ok((executed, failed))
    }

    /// Rolls back to snapshot `snapshot_id` at time `now`: refuses an
    /// unknown, already rolled back or expired snapshot, or one without
    /// rollback data; otherwise runs the four actions, marks the snapshot
    /// rolled back and records the result.
    pub fn execute_at(&mut self, manager: &mut SnapshotManager, snapshot_id: &str, now: i64) -> (r: Result<
        RollbackResult,
    >)
        requires
            old(manager).wf(),
        ensures
            final(manager).wf(),
            final(manager).cfg() == old(manager).cfg(),
            final(manager).operations() == old(manager).operations(),
            r is Ok <==> rollback_refusal(old(manager).all(), snapshot_id@, now) is None,
            r matches Err(e) ==> e matches Error::Rollback(m) && rollback_refusal(
                old(manager).all(),
                snapshot_id@,
                now,
            ) == Some(m@),
            r is Err ==> final(manager).all() == old(manager).all() && final(self).history()
                == old(self).history(),
            r matches Ok(res) ==> {
                &&& res.success
                &&& res.snapshot_id@ == snapshot_id@
                &&& res.actions_executed == ACTIONS_PER_ROLLBACK
                &&& res.actions_failed == 0
                &&& res.error is None
                &&& res.completed_at == now
                &&& final(manager).all() == rolled_back(old(manager).all(), snapshot_id@)
                &&& final(self).history() == old(self).history().push(res)
            },
    {
        let start = instant_now();
        proof {
            old(manager).lemma_distinct();
        }
        let (status, expired, has_data) = match manager.get_snapshot(snapshot_id) {
            Ok(s) => {
                proof {
                    let j = choose|j: int| 0 <= j < manager.all().len() && manager.all()[j] == *s;
                    lemma_snapshot_named(manager.all(), snapshot_id@, j);
                }
                (s.status, s.is_expired_at(now), s.rollback_data.is_some())
            },
            Err(e) => {
                return Err(e);
            },
        };
        if status == SnapshotStatus::RolledBack {
            let mut m = string_of("快照 ");
            m.append(snapshot_id);
            m.append(" 已回滚");
            return Err(Error::Rollback(m));
        }
        if expired {
            let mut m = string_of("快照 ");
            m.append(snapshot_id);
            m.append(" 已过期");
            return Err(Error::Rollback(m));
        }
        if !has_data {
            let mut m = string_of("快照 ");
            m.append(snapshot_id);
            m.append(" 没有回滚数据");
            return Err(Error::Rollback(m));
        }
        let actions = match self.create_rollback_actions(snapshot_id) {
            Ok(a) => a,
            Err(e) => {
                return Err(e);
            },
        };
        let (executed, failed) = match self.execute_actions(actions) {
            Ok(c) => c,
            Err(e) => {
                return Err(e);
            },
        };
        let ghost before = manager.all();
        match manager.mark_rolled_back(snapshot_id) {
            Ok(_) => {},
            Err(e) => {
                return Err(e);
            },
        }
        proof {
            let i = choose|i: int|
                0 <= i < before.len() && (#[trigger] before[i]).id@ == snapshot_id@ && manager.all()
                    == before.update(i, Snapshot { status: SnapshotStatus::RolledBack, ..before[i] });
            lemma_snapshot_named(before, snapshot_id@, i);
        }
        let duration_ms = millis_since(&start);
        let success = failed == 0;
        let error = if failed > 0 {
            let mut m = decimal_string(failed as u64);
            m.append(" 个动作失败");
            Some(m)
        } else {
            None
        };
        let result = RollbackResult {
            success,
            snapshot_id: string_of(snapshot_id),
            actions_executed: executed,
            actions_failed: failed,
            duration_ms,
            error,
            completed_at: now,
        };
        self.execution_history.push(result.clone());
        Ok(result)
    }

    /// Rolls back to snapshot `snapshot_id` now. A snapshot that never
    /// expires is refused exactly when it is unknown, already rolled back or
    /// without rollback data.
    pub fn execute(&mut self, manager: &mut SnapshotManager, snapshot_id: &str) -> (r: Result<RollbackResult>)
        requires
            old(manager).wf(),
        ensures
            final(manager).wf(),
            final(manager).cfg() == old(manager).cfg(),
            r matches Err(e) ==> e matches Error::Rollback(m) && exists|now: i64|
                #[trigger] rollback_refusal(old(manager).all(), snapshot_id@, now) == Some(m@),
            r is Err ==> final(manager).all() == old(manager).all() && final(self).history()
                == old(self).history(),
            r matches Ok(res) ==> {
                &&& rollback_refusal(old(manager).all(), snapshot_id@, res.completed_at) is None
                &&& res.success
                &&& res.snapshot_id@ == snapshot_id@
                &&& res.actions_executed == ACTIONS_PER_ROLLBACK
                &&& res.actions_failed == 0
                &&& res.error is None
                &&& final(manager).all() == rolled_back(old(manager).all(), snapshot_id@)
                &&& final(self).history() == old(self).history().push(res)
            },
            has_snapshot(old(manager).all(), snapshot_id@) && snapshot_named(old(manager).all(), snapshot_id@).expires_at is None
                ==> (r is Ok <==> rollback_refusal(old(manager).all(), snapshot_id@, 0) is None),
            !has_snapshot(old(manager).all(), snapshot_id@) ==> (r matches Err(Error::Rollback(m))
                && m@ == missing_snapshot_message(snapshot_id@)),
    {
        let now = wall_clock_millis();
        self.execute_at(manager, snapshot_id, now)
    }

    /// Rolls operation `operation_id` back to its newest snapshot at `now`.
    pub fn rollback_operation_at(&mut self, manager: &mut SnapshotManager, operation_id: &str, now: i64) -> (r:
        Result<RollbackResult>)
        requires
            old(manager).wf(),
        ensures
            final(manager).wf(),
            final(manager).cfg() == old(manager).cfg(),
            r is Err ==> r matches Err(Error::Rollback(_)),
            r is Err ==> final(manager).all() == old(manager).all() && final(self).history()
                == old(self).history(),
            (forall|k: int| !old(manager).op_index(operation_id@, k)) ==> (r matches Err(Error::Rollback(m))
                && m@ == no_snapshots_message(operation_id@)),
            forall|k: int|
                old(manager).op_index(operation_id@, k) ==> {
                    let list = old(manager).list_at(k);
                    &&& list.len() == 0 ==> (r matches Err(Error::Rollback(m)) && m@
                        == no_snapshots_message(operation_id@))
                    &&& list.len() > 0 ==> (r is Ok <==> rollback_refusal(old(manager).all(), list.last(), now) is None)
                    &&& list.len() > 0 ==> (r matches Err(Error::Rollback(m)) ==> rollback_refusal(
                        old(manager).all(),
                        list.last(),
                        now,
                    ) == Some(m@))
                    &&& r matches Ok(res) ==> list.len() > 0 && res.success && res.snapshot_id@
                        == list.last() && res.completed_at == now && final(manager).all()
                        == rolled_back(old(manager).all(), list.last()) && final(self).history()
                        == old(self).history().push(res)
                },
    {
        let id = match manager.get_latest_snapshot(operation_id) {
            Ok(s) => s.id.clone(),
            Err(e) => {
                return Err(e);
            },
        };
        self.execute_at(manager, id.as_str(), now)
    }

    /// Rolls operation `operation_id` back to its newest snapshot now.
    pub fn rollback_operation(&mut self, manager: &mut SnapshotManager, operation_id: &str) -> (r: Result<
        RollbackResult,
    >)
        requires
            old(manager).wf(),
        ensures
            final(manager).wf(),
            final(manager).cfg() == old(manager).cfg(),
            r is Err ==> r matches Err(Error::Rollback(_)),
            (forall|k: int| !old(manager).op_index(operation_id@, k)) ==> (r matches Err(Error::Rollback(m))
                && m@ == no_snapshots_message(operation_id@)),
            forall|k: int|
                old(manager).op_index(operation_id@, k) ==> {
                    let list = old(manager).list_at(k);
                    &&& list.len() == 0 ==> (r matches Err(Error::Rollback(m)) && m@
                        == no_snapshots_message(operation_id@))
                    &&& r matches Ok(res) ==> list.len() > 0 && res.success && res.snapshot_id@
                        == list.last() && rollback_refusal(old(manager).all(), list.last(), res.completed_at) is None
                        && final(manager).all() == rolled_back(old(manager).all(), list.last())
                },
    {
        let now = wall_clock_millis();
        self.rollback_operation_at(manager, operation_id, now)
    }

    /// Rolls operation `operation_id` back `levels` snapshots at `now`,
    /// newest first; refuses when fewer snapshots exist, and stops at the
    /// first rollback refused.
    pub fn execute_multi_level_at(
        &mut self,
        manager: &mut SnapshotManager,
        operation_id: &str,
        levels: usize,
        now: i64,
    ) -> (r: Result<Vec<RollbackResult>>)
        requires
            old(manager).wf(),
        ensures
            final(manager).wf(),
            final(manager).cfg() == old(manager).cfg(),
            r is Err ==> r matches Err(Error::Rollback(_)),
            (forall|k: int| !old(manager).op_index(operation_id@, k)) ==> (r matches Err(Error::Rollback(m))
                && m@ == no_snapshots_message(operation_id@)),
            forall|k: int|
                old(manager).op_index(operation_id@, k) ==> {
                    let e = existing_ids(old(manager).all(), old(manager).list_at(k));
                    &&& e.len() < levels ==> (r matches Err(Error::Rollback(m)) && m@
                        == too_few_snapshots_message(operation_id@, e.len(), levels as nat))
                    &&& e.len() < levels ==> final(manager).all() == old(manager).all()
                    &&& r matches Ok(v) ==> v@.len() == levels && forall|j: int|
                        0 <= j < levels ==> (#[trigger] v@[j]).snapshot_id@ == e[e.len() - 1 - j]
                            && v@[j].success && v@[j].completed_at == now
                    &&& r is Ok ==> forall|j: int|
                        0 <= j < levels ==> has_snapshot(final(manager).all(), e[e.len() - 1 - j])
                            && (#[trigger] snapshot_named(final(manager).all(), e[e.len() - 1 - j])).status
                            == SnapshotStatus::RolledBack
                },
    {
        let ids: Vec<String> = match manager.get_operation_snapshots(operation_id) {
            Ok(v) => {
                let mut ids: Vec<String> = Vec::new();
                let mut i: usize = 0;
                while i < v.len()
                    invariant
                        i <= v@.len(),
                        ids@.len() == i,
                        forall|j: int| 0 <= j < i ==> (#[trigger] ids@[j])@ == v@[j].id@,
                    decreases v.len() - i,
                {
                    ids.push(v[i].id.clone());
                    i = i + 1;
                }
                ids
            },
            Err(e) => {
                return Err(e);
            },
        };
        let n = ids.len();
        if n < levels {
            let mut m = string_of("操作 ");
            m.append(operation_id);
            m.append(" 只有 ");
            m.append(decimal_string(n as u64).as_str());
            m.append(" 个快照，无法回滚 ");
            m.append(decimal_string(levels as u64).as_str());
            m.append(" 级");
            return Err(Error::Rollback(m));
        }
        let mut results: Vec<RollbackResult> = Vec::new();
        let start_index = n - levels;
        let mut i = n;
        while i > start_index
            invariant
                manager.wf(),
                manager.cfg() == old(manager).cfg(),
                start_index <= i <= n,
                n == ids@.len(),
                start_index == n - levels,
                exists|k: int| old(manager).op_index(operation_id@, k),
                forall|k: int|
                    old(manager).op_index(operation_id@, k) ==> (#[trigger] existing_ids(
                        old(manager).all(),
                        old(manager).list_at(k),
                    )).len() == n && forall|j: int|
                        0 <= j < n ==> existing_ids(old(manager).all(), old(manager).list_at(k))[j]
                            == (#[trigger] ids@[j])@,
                results@.len() == n - i,
                forall|j: int|
                    0 <= j < results@.len() ==> (#[trigger] results@[j]).snapshot_id@ == ids@[n - 1 - j]@
                        && results@[j].success && results@[j].completed_at == now,
                forall|x: int| 0 <= x < n ==> has_snapshot(manager.all(), (#[trigger] ids@[x])@),
                forall|x: int|
                    i <= x < n ==> (#[trigger] snapshot_named(manager.all(), ids@[x]@)).status
                        == SnapshotStatus::RolledBack,
            decreases i,
        {
            i = i - 1;
            let ghost before = manager.all();
            proof {
                manager.lemma_distinct();
            }
            match self.execute_at(manager, ids[i].as_str(), now) {
                Ok(res) => {
                    proof {
                        lemma_rolled_back(before, ids@[i as int]@);
                        assert forall|x: int| 0 <= x < n implies has_snapshot(manager.all(), (#[trigger] ids@[x])@) by {
                            assert(has_snapshot(before, ids@[x]@));
                        }
                        assert forall|x: int| i <= x < n implies (#[trigger] snapshot_named(
                            manager.all(),
                            ids@[x]@,
                        )).status == SnapshotStatus::RolledBack by {
                            if x > i && ids@[x]@ != ids@[i as int]@ {
                                assert(snapshot_named(manager.all(), ids@[x]@) == snapshot_named(before, ids@[x]@));
                            }
                        }
                    }
                    results.push(res);
                },
                Err(e) => {
                    return Err(e);
                },
            }
        }
        proof {
            assert forall|k: int| old(manager).op_index(operation_id@, k) implies forall|j: int|
                0 <= j < levels ==> has_snapshot(
                    manager.all(),
                    existing_ids(old(manager).all(), old(manager).list_at(k))[existing_ids(
                        old(manager).all(),
                        old(manager).list_at(k),
                    ).len() - 1 - j],
                ) && (#[trigger] snapshot_named(
                    manager.all(),
                    existing_ids(old(manager).all(), old(manager).list_at(k))[existing_ids(
                        old(manager).all(),
                        old(manager).list_at(k),
                    ).len() - 1 - j],
                )).status == SnapshotStatus::RolledBack by {
                let e = existing_ids(old(manager).all(), old(manager).list_at(k));
                assert forall|j: int| 0 <= j < levels implies has_snapshot(manager.all(), e[e.len() - 1 - j])
                    && (#[trigger] snapshot_named(manager.all(), e[e.len() - 1 - j])).status
                    == SnapshotStatus::RolledBack by {
                    let x = n - 1 - j;
                    assert(e[x] == ids@[x]@);
                }
            }
        }
        Ok(results)
    }

    /// Rolls operation `operation_id` back `levels` snapshots now.
    pub fn execute_multi_level(&mut self, manager: &mut SnapshotManager, operation_id: &str, levels: usize) -> (r:
        Result<Vec<RollbackResult>>)
        requires
            old(manager).wf(),
        ensures
            final(manager).wf(),
            final(manager).cfg() == old(manager).cfg(),
            r is Err ==> r matches Err(Error::Rollback(_)),
            (forall|k: int| !old(manager).op_index(operation_id@, k)) ==> (r matches Err(Error::Rollback(m))
                && m@ == no_snapshots_message(operation_id@)),
            forall|k: int|
                old(manager).op_index(operation_id@, k) ==> {
                    let e = existing_ids(old(manager).all(), old(manager).list_at(k));
                    &&& e.len() < levels ==> (r matches Err(Error::Rollback(m)) && m@
                        == too_few_snapshots_message(operation_id@, e.len(), levels as nat))
                    &&& r matches Ok(v) ==> v@.len() == levels && forall|j: int|
                        0 <= j < levels ==> (#[trigger] v@[j]).snapshot_id@ == e[e.len() - 1 - j]
                            && v@[j].success
                    &&& r is Ok ==> forall|j: int|
                        0 <= j < levels ==> has_snapshot(final(manager).all(), e[e.len() - 1 - j])
                            && (#[trigger] snapshot_named(final(manager).all(), e[e.len() - 1 - j])).status
                            == SnapshotStatus::RolledBack
                },
    {
        let now = wall_clock_millis();
        self.execute_multi_level_at(manager, operation_id, levels, now)
    }

    /// The results recorded so far, oldest first.
    pub fn get_history(&self) -> (r: Vec<RollbackResult>)
        ensures
            r@ == self.history(),
    {
        let mut out: Vec<RollbackResult> = Vec::new();
        let mut i: usize = 0;
        while i < self.execution_history.len()
            invariant
                i <= self.execution_history@.len(),
                out@ == self.execution_history@.subrange(0, i as int),
            decreases self.execution_history.len() - i,
        {
            out.push(self.execution_history[i].clone());
            i = i + 1;
            assert(out@ =~= self.execution_history@.subrange(0, i as int));
        }
        assert(out@ =~= self.execution_history@);
        out
    }

    /// How many results are recorded.
    pub fn execution_count(&self) -> (r: usize)
        ensures
            r == self.history().len(),
    {
        self.execution_history.len()
    }

    /// Forgets the recorded results.
    pub fn clear_history(&mut self)
        ensures
            final(self).history().len() == 0,
    {
        self.execution_history.clear();
    }
}

impl Default for RollbackExecutor {
    fn default() -> (r: Self)
        ensures
            r.history().len() == 0,
    {
        Self::new()
    }
}

/// Marking a snapshot rolled back keeps every identifier, and the snapshot
/// it marked is found rolled back.
pub proof fn lemma_rolled_back(all: Seq<Snapshot>, id: Seq<char>)
    requires
        distinct_ids(all),
        has_snapshot(all, id),
    ensures
        distinct_ids(rolled_back(all, id)),
        has_snapshot(rolled_back(all, id), id),
        snapshot_named(rolled_back(all, id), id) == (Snapshot {
            status: SnapshotStatus::RolledBack,
            ..snapshot_named(all, id)
        }),
        forall|x: Seq<char>| has_snapshot(all, x) <==> has_snapshot(rolled_back(all, id), x),
        forall|x: Seq<char>|
            x != id && has_snapshot(all, x) ==> #[trigger] snapshot_named(rolled_back(all, id), x)
                == snapshot_named(all, x),
{
    let k = snapshot_index(all, id);
    let after = rolled_back(all, id);
    assert(0 <= k < all.len() && all[k].id@ == id);
    assert(after[k].id@ == id);
    assert forall|i: int| 0 <= i < after.len() implies (#[trigger] after[i]).id@ == all[i].id@ by {}
    lemma_snapshot_named(after, id, k);
    assert forall|x: Seq<char>| x != id && has_snapshot(all, x) implies #[trigger] snapshot_named(after, x)
        == snapshot_named(all, x) by {
        let i = choose|i: int| 0 <= i < all.len() && (#[trigger] all[i]).id@ == x;
        assert(i != k);
        lemma_snapshot_named(all, x, i);
        assert(after[i] == all[i]);
        lemma_snapshot_named(after, x, i);
    }
    assert forall|x: Seq<char>| has_snapshot(all, x) <==> has_snapshot(after, x) by {
        if has_snapshot(all, x) {
            let i = choose|i: int| 0 <= i < all.len() && (#[trigger] all[i]).id@ == x;
            assert(after[i].id@ == x);
        }
        if has_snapshot(after, x) {
            let i = choose|i: int| 0 <= i < after.len() && (#[trigger] after[i]).id@ == x;
            assert(all[i].id@ == x);
        }
    }
}

/// A snapshot rolled back once is refused a second time, whatever the time:
/// the second attempt is answered that it is already rolled back.
pub proof fn lemma_second_rollback_refused(all: Seq<Snapshot>, id: Seq<char>, first: i64, second: i64)
    requires
        distinct_ids(all),
        rollback_refusal(all, id, first) is None,
    ensures
        rollback_refusal(rolled_back(all, id), id, second) == Some("快照 "@ + id + " 已回滚"@),
{
    lemma_rolled_back(all, id);
}

} // verus!
