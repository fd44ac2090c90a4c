//! Checking a rollback after the fact: the snapshot is marked rolled back
//! and every action succeeded.

use vstd::prelude::*;
use crate::clock::wall_clock_millis;
use crate::rollback::error::{Error, Result};
use crate::rollback::executor::{lemma_rolled_back, rollback_refusal, rolled_back, RollbackResult};
use crate::rollback::snapshot::{Snapshot, 
    distinct_ids,
    has_snapshot,
    lemma_snapshot_named,
    missing_snapshot_message,
    snapshot_named,
    snapshot_status_name,
    snapshot_status_text,
    SnapshotManager,
    SnapshotStatus,
};
use crate::text::string_of;

verus! {

/// State of a verification.
#[derive(Debug, Clone, Copy, PartialEq, Eq, Structural)]
pub enum VerificationStatus {
    /// Not started.
    Pending,
    /// Running.
    Verifying,
    /// Every check passed.
    Passed,
    /// Some check failed.
    Failed,
}

/// What a check looks at.
#[derive(Debug, Clone, PartialEq)]
pub enum VerificationCheckType {
    /// The data is consistent.
    DataConsistency,
    /// The state is consistent.
    StateConsistency,
    /// The resources are intact.
    ResourceIntegrity,
    /// What the rollback depended on.
    Dependencies,
    /// Something of the caller's own, by name.
    Custom(String),
}

/// One check and its outcome.
#[derive(Debug, Clone)]
pub struct VerificationCheck {
    /// Name.
    pub name: String,
    /// What it looks at.
    pub check_type: VerificationCheckType,
    /// Whether it passed.
    pub passed: bool,
    /// Why it failed.
    pub error: Option<String>,
}

/// The outcome of verifying a rollback.
#[derive(Debug, Clone)]
pub struct VerificationResult {
    /// The snapshot verified.
    pub snapshot_id: String,
    /// State.
    pub status: VerificationStatus,
    /// The checks, in the order they were added.
    pub checks: Vec<VerificationCheck>,
    /// How many checks passed.
    pub passed_count: usize,
    /// How many checks failed.
    pub failed_count: usize,
    /// When it was finished, if it was.
    pub verified_at: Option<i64>,
}

impl VerificationResult {
    /// A pending result with no checks.
    pub fn new(snapshot_id: String) -> (r: Self)
        ensures
            r.snapshot_id == snapshot_id,
            r.status == VerificationStatus::Pending,
            r.checks@.len() == 0,
            r.passed_count == 0,
            r.failed_count == 0,
            r.verified_at is None,
    {
        VerificationResult {
            snapshot_id,
            status: VerificationStatus::Pending,
            checks: Vec::new(),
            passed_count: 0,
            failed_count: 0,
            verified_at: None,
        }
    }

    /// Adds a check and counts it as passed or failed.
    pub fn add_check(&mut self, check: VerificationCheck)
        requires
            check.passed ==> old(self).passed_count < usize::MAX,
            !check.passed ==> old(self).failed_count < usize::MAX,
        ensures
            final(self).checks@ == old(self).checks@.push(check),
            final(self).passed_count == old(self).passed_count + if check.passed { 1int } else { 0int },
            final(self).failed_count == old(self).failed_count + if check.passed { 0int } else { 1int },
            final(self).snapshot_id == old(self).snapshot_id,
            final(self).status == old(self).status,
            final(self).verified_at == old(self).verified_at,
    {
        if check.passed {
            self.passed_count = self.passed_count + 1;
        } else {
            self.failed_count = self.failed_count + 1;
        }
        self.checks.push(check);
    }

    /// Marks the verification running.
    pub fn mark_verifying(&mut self)
        ensures
            final(self).status == VerificationStatus::Verifying,
            final(self).checks@ == old(self).checks@,
            final(self).passed_count == old(self).passed_count,
            final(self).failed_count == old(self).failed_count,
            final(self).snapshot_id == old(self).snapshot_id,
            final(self).verified_at == old(self).verified_at,
    {
        self.status = VerificationStatus::Verifying;
    }

    /// Finishes at `now`: passed when no check failed, failed otherwise.
    pub fn finalize_at(&mut self, now: i64)
        ensures
            final(self).status == (if old(self).failed_count == 0 {
                VerificationStatus::Passed
            } else {
                VerificationStatus::Failed
            }),
            final(self).verified_at == Some(now),
            final(self).checks@ == old(self).checks@,
            final(self).passed_count == old(self).passed_count,
            final(self).failed_count == old(self).failed_count,
            final(self).snapshot_id == old(self).snapshot_id,
    {
        self.status = if self.failed_count == 0 {
            VerificationStatus::Passed
        } else {
            VerificationStatus::Failed
        };
        self.verified_at = Some(now);
    }

    /// Finishes now.
    pub fn finalize(&mut self)
        ensures
            final(self).status == (if old(self).failed_count == 0 {
                VerificationStatus::Passed
            } else {
                VerificationStatus::Failed
            }),
            final(self).verified_at is Some,
            final(self).checks@ == old(self).checks@,
            final(self).passed_count == old(self).passed_count,
            final(self).failed_count == old(self).failed_count,
            final(self).snapshot_id == old(self).snapshot_id,
    {
        self.finalize_at(wall_clock_millis());
    }

    /// Whether the verification passed.
    pub fn is_passed(&self) -> (r: bool)
        ensures
            r == (self.status == VerificationStatus::Passed),
    {
        self.status == VerificationStatus::Passed
    }
}

/// Whether a rollback verifies against the snapshots `all`: its snapshot is
/// marked rolled back and every action succeeded.
pub open spec fn rollback_verified(all: Seq<crate::rollback::snapshot::Snapshot>, rr: RollbackResult) -> bool {
    snapshot_named(all, rr.snapshot_id@).status == SnapshotStatus::RolledBack && rr.success
}

/// The message of a snapshot that is not rolled back.
pub open spec fn not_rolled_back_message(s: SnapshotStatus) -> Seq<char> {
    "快照状态不是已回滚: "@ + snapshot_status_name(s)
}

/// Checks rollbacks against the snapshots of a manager.
#[derive(Debug, Clone, Copy)]
pub struct RollbackVerifier;

/// What verifying `rr` at `now` reports, the snapshots being `all`: four
/// checks in order (the snapshot's state, the actions, the data, the
/// resources), their counts, the status and the time.
pub open spec fn verification_report(all: Seq<Snapshot>, rr: RollbackResult, v: VerificationResult, now: i64) -> bool {
    let s = snapshot_named(all, rr.snapshot_id@);
    let state_ok = s.status == SnapshotStatus::RolledBack;
    &&& v.snapshot_id@ == rr.snapshot_id@
    &&& v.checks@.len() == 4
    &&& v.checks@[0].name@ == "快照状态检查"@
    &&& v.checks@[0].check_type == VerificationCheckType::StateConsistency
    &&& v.checks@[0].passed == state_ok
    &&& (state_ok ==> v.checks@[0].error is None)
    &&& (!state_ok ==> (v.checks@[0].error matches Some(t) && t@ == not_rolled_back_message(
        s.status,
    )))
    &&& v.checks@[1].name@ == "回滚动作检查"@
    &&& v.checks@[1].check_type == VerificationCheckType::Dependencies
    &&& v.checks@[1].passed == rr.success
    &&& v.checks@[1].error == (if rr.success {
        None
    } else {
        rr.error
    })
    &&& v.checks@[2].name@ == "数据一致性检查"@
    &&& v.checks@[2].check_type == VerificationCheckType::DataConsistency
    &&& v.checks@[2].passed && v.checks@[2].error is None
    &&& v.checks@[3].name@ == "资源完整性检查"@
    &&& v.checks@[3].check_type == VerificationCheckType::ResourceIntegrity
    &&& v.checks@[3].passed && v.checks@[3].error is None
    &&& v.passed_count == 2 + (if state_ok { 1int } else { 0int }) + (if rr.success {
        1int
    } else {
        0int
    })
    &&& v.failed_count == 4 - v.passed_count
    &&& (v.status == VerificationStatus::Passed) == rollback_verified(all, rr)
    &&& (v.status == VerificationStatus::Passed || v.status == VerificationStatus::Failed)
    &&& v.verified_at == Some(now)
}

impl RollbackVerifier {
    /// A verifier.
    pub fn new() -> (r: Self) {
        RollbackVerifier
    }

    fn check(name: &str, check_type: VerificationCheckType, passed: bool, error: Option<String>) -> (r:
        VerificationCheck)
        ensures
            r.name@ == name@,
            r.check_type == check_type,
            r.passed == passed,
            r.error == error,
    {
        VerificationCheck { name: string_of(name), check_type, passed, error }
    }

    /// Verifies `rollback_result` at `now`: the snapshot's state, the
    /// actions, the data and the resources, four checks in that order.
    pub fn verify_at(&self, manager: &SnapshotManager, rollback_result: &RollbackResult, now: i64) -> (r:
        Result<VerificationResult>)
        requires
            manager.wf(),
        ensures
            r is Ok <==> has_snapshot(manager.all(), rollback_result.snapshot_id@),
            r matches Err(e) ==> e matches Error::Rollback(m) && m@ == missing_snapshot_message(
                rollback_result.snapshot_id@,
            ),
            r matches Ok(v) ==> verification_report(manager.all(), *rollback_result, v, now),
    {
        let mut result = VerificationResult::new(string_of(rollback_result.snapshot_id.as_str()));
        result.mark_verifying();
        proof {
            manager.lemma_distinct();
        }
        let status = match manager.get_snapshot(rollback_result.snapshot_id.as_str()) {
            Ok(s) => {
                proof {
                    let j = choose|j: int| 0 <= j < manager.all().len() && manager.all()[j] == *s;
                    lemma_snapshot_named(manager.all(), rollback_result.snapshot_id@, j);
                }
                s.status
            },
            Err(e) => {
                return Err(e);
            },
        };
        let state_ok = status == SnapshotStatus::RolledBack;
        let state_error = if !state_ok {
            let mut m = string_of("快照状态不是已回滚: ");
            m.append(snapshot_status_text(status));
            Some(m)
        } else {
            None
        };
        result.add_check(Self::check("快照状态检查", VerificationCheckType::StateConsistency, state_ok, state_error));
        let action_error = if !rollback_result.success {
            match &rollback_result.error {
                Some(t) => Some(t.clone()),
                None => None,
            }
        } else {
            None
        };
        result.add_check(
            Self::check("回滚动作检查", VerificationCheckType::Dependencies, rollback_result.success, action_error),
        );
        result.add_check(Self::check("数据一致性检查", VerificationCheckType::DataConsistency, true, None));
        result.add_check(Self::check("资源完整性检查", VerificationCheckType::ResourceIntegrity, true, None));
        result.finalize_at(now);
        Ok(result)
    }

    /// Verifies `rollback_result` now.
    pub fn verify(&self, manager: &SnapshotManager, rollback_result: &RollbackResult) -> (r: Result<
        VerificationResult,
    >)
        requires
            manager.wf(),
        ensures
            r is Ok <==> has_snapshot(manager.all(), rollback_result.snapshot_id@),
            r matches Err(e) ==> e matches Error::Rollback(m) && m@ == missing_snapshot_message(
                rollback_result.snapshot_id@,
            ),
            r matches Ok(v) ==> v.snapshot_id@ == rollback_result.snapshot_id@ && v.checks@.len() == 4
                && v.passed_count + v.failed_count == 4 && (v.status == VerificationStatus::Passed)
                == rollback_verified(manager.all(), *rollback_result) && (v.status
                == VerificationStatus::Passed <==> v.failed_count == 0) && v.verified_at is Some,
            r matches Ok(v) ==> exists|now: i64| #[trigger] verification_report(manager.all(), *rollback_result, v, now),
    {
        self.verify_at(manager, rollback_result, wall_clock_millis())
    }

    /// Whether `rollback_result` verifies.
    pub fn quick_verify(&self, manager: &SnapshotManager, rollback_result: &RollbackResult) -> (r: Result<bool>)
        requires
            manager.wf(),
        ensures
            r is Ok <==> has_snapshot(manager.all(), rollback_result.snapshot_id@),
            r matches Err(e) ==> e matches Error::Rollback(m) && m@ == missing_snapshot_message(
                rollback_result.snapshot_id@,
            ),
            r matches Ok(b) ==> b == rollback_verified(manager.all(), *rollback_result),
    {
        match self.verify(manager, rollback_result) {
            Ok(v) => Ok(v.is_passed()),
            Err(e) => Err(e),
        }
    }

    /// Verifies each result in turn; stops at the first whose snapshot is
    /// unknown.
    pub fn verify_batch(&self, manager: &SnapshotManager, rollback_results: &[RollbackResult]) -> (r: Result<
        Vec<VerificationResult>,
    >)
        requires
            manager.wf(),
        ensures
            r is Ok <==> forall|i: int|
                0 <= i < rollback_results@.len() ==> has_snapshot(
                    manager.all(),
                    (#[trigger] rollback_results@[i]).snapshot_id@,
                ),
            r matches Err(e) ==> e matches Error::Rollback(m) && exists|i: int|
                0 <= i < rollback_results@.len() && m@ == missing_snapshot_message(
                    (#[trigger] rollback_results@[i]).snapshot_id@,
                ),
            r matches Ok(v) ==> v@.len() == rollback_results@.len() && forall|i: int|
                0 <= i < v@.len() ==> (#[trigger] v@[i]).snapshot_id@ == rollback_results@[i].snapshot_id@
                    && (v@[i].status == VerificationStatus::Passed) == rollback_verified(
                    manager.all(),
                    rollback_results@[i],
                ),
    {
        let mut results: Vec<VerificationResult> = Vec::new();
        let mut i: usize = 0;
        while i < rollback_results.len()
            invariant
                manager.wf(),
                i <= rollback_results@.len(),
                results@.len() == i,
                forall|j: int| 0 <= j < i ==> has_snapshot(manager.all(), (#[trigger] rollback_results@[j]).snapshot_id@),
                forall|j: int|
                    0 <= j < i ==> (#[trigger] results@[j]).snapshot_id@ == rollback_results@[j].snapshot_id@
                        && (results@[j].status == VerificationStatus::Passed) == rollback_verified(
                        manager.all(),
                        rollback_results@[j],
                    ),
            decreases rollback_results.len() - i,
        {
            match self.verify(manager, &rollback_results[i]) {
                Ok(v) => {
                    results.push(v);
                },
                Err(e) => {
                    return Err(e);
                },
            }
            i = i + 1;
        }
        Ok(results)
    }
}

impl Default for RollbackVerifier {
    fn default() -> (r: Self) {
        Self::new()
    }
}

/// A rollback that was done verifies: after a successful rollback to a
/// snapshot, the result verifies against the snapshots it left.
pub proof fn lemma_rollback_verifies(
    all: Seq<crate::rollback::snapshot::Snapshot>,
    rr: RollbackResult,
    now: i64,
)
    requires
        distinct_ids(all),
        rollback_refusal(all, rr.snapshot_id@, now) is None,
        rr.success,
    ensures
        has_snapshot(rolled_back(all, rr.snapshot_id@), rr.snapshot_id@),
        rollback_verified(rolled_back(all, rr.snapshot_id@), rr),
{
    lemma_rolled_back(all, rr.snapshot_id@);
}

} // verus!
