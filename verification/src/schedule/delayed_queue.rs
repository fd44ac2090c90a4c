//! Delayed jobs: jobs that run once at a given time, unless they expire,
//! and the queue that holds them.
//!
//! Times are milliseconds since the epoch; the handler of a job runs
//! outside, between `start_run` and `finish_run`.

use vstd::prelude::*;
use crate::clock::{wall_clock_millis, WALL_CLOCK_LIMIT};
use crate::schedule::error::{Error, Result};
use crate::schedule::job::{record_stats, stats_after, stats_have_room, JobResult, JobStats};
use crate::text::{str_equal, string_of};

verus! {

/// Status of a delayed job.
#[derive(Debug, Clone, Copy, PartialEq, Eq, Structural)]
pub enum DelayedJobStatus {
    /// Waiting for its time.
    Waiting,
    /// May run.
    Ready,
    /// Running.
    Running,
    /// Finished.
    Completed,
    /// Cancelled.
    Cancelled,
    /// Expired.
    Expired,
}

/// A job that runs once at a given time.
#[derive(Debug, Clone)]
pub struct DelayedJob {
    /// Identifier.
    pub id: String,
    /// Name.
    pub name: String,
    /// Description, if any.
    pub description: Option<String>,
    /// When it runs.
    pub execute_at: i64,
    /// When it expires, if ever.
    pub expires_at: Option<i64>,
    /// Most retries after a failure.
    pub max_retries: u32,
    /// Retries so far.
    pub current_retry: u32,
    /// Status.
    pub status: DelayedJobStatus,
    /// When it was made.
    pub created_at: i64,
    /// Statistics.
    pub stats: JobStats,
    /// What the last run returned.
    pub result: Option<JobResult>,
}

/// Whether a job is expired at `now`: it has an expiry time and `now` is past it.
/// Whether job `j` may run at time `now`: it is ready and not expired.
pub open spec fn executable_at(j: DelayedJob, now: i64) -> bool {
    j.status == DelayedJobStatus::Ready && !expired_at(j, now)
}

pub open spec fn expired_at(j: DelayedJob, now: i64) -> bool {
    j.expires_at matches Some(e) && now > e
}

/// Whether a job is ready at `now`: it is waiting and its time has come.
pub open spec fn ready_at(j: DelayedJob, now: i64) -> bool {
    j.status == DelayedJobStatus::Waiting && now >= j.execute_at
}

impl DelayedJob {
    /// A waiting job with up to three retries, made at `now`.
    pub fn new_at(id: String, name: String, execute_at: i64, now: i64) -> (r: Self)
        ensures
            r.id == id,
            r.name == name,
            r.description is None,
            r.execute_at == execute_at,
            r.expires_at is None,
            r.max_retries == 3,
            r.current_retry == 0,
            r.status == DelayedJobStatus::Waiting,
            r.created_at == now,
            r.stats == JobStats::default_spec(),
            r.result is None,
    {
        DelayedJob {
            id,
            name,
            description: None,
            execute_at,
            expires_at: None,
            max_retries: 3,
            current_retry: 0,
            status: DelayedJobStatus::Waiting,
            created_at: now,
            stats: JobStats {
                total_runs: 0,
                success_count: 0,
                failure_count: 0,
                total_execution_time_ms: 0,
                avg_execution_time_ms: 0,
            },
            result: None,
        }
    }

    /// A waiting job with up to three retries, made now.
    pub fn new(id: String, name: String, execute_at: i64) -> (r: Self)
        ensures
            r.id == id,
            r.name == name,
            r.description is None,
            r.execute_at == execute_at,
            r.expires_at is None,
            r.max_retries == 3,
            r.current_retry == 0,
            r.status == DelayedJobStatus::Waiting,
            r.stats == JobStats::default_spec(),
            r.result is None,
    {
        let now = wall_clock_millis();
        Self::new_at(id, name, execute_at, now)
    }

    /// The same job with a description.
    pub fn with_description(self, description: String) -> (r: Self)
        ensures
            r == (DelayedJob { description: Some(description), ..self }),
    {
        let mut j = self;
        j.description = Some(description);
        j
    }

    /// The same job with an expiry time.
    pub fn with_expires_at(self, expires_at: i64) -> (r: Self)
        ensures
            r == (DelayedJob { expires_at: Some(expires_at), ..self }),
    {
        let mut j = self;
        j.expires_at = Some(expires_at);
        j
    }

    /// The same job with another retry limit.
    pub fn with_max_retries(self, max_retries: u32) -> (r: Self)
        ensures
            r == (DelayedJob { max_retries, ..self }),
    {
        let mut j = self;
        j.max_retries = max_retries;
        j
    }

    /// Whether the job is ready at `now`.
    pub fn is_ready_at(&self, now: i64) -> (r: bool)
        ensures
            r == ready_at(*self, now),
    {
        if self.status != DelayedJobStatus::Waiting {
            return false;
        }
        now >= self.execute_at
    }

    /// Whether the job is expired at `now`.
    pub fn is_expired_at(&self, now: i64) -> (r: bool)
        ensures
            r == expired_at(*self, now),
    {
        match self.expires_at {
            Some(e) => now > e,
            None => false,
        }
    }

    /// Whether the job may run at `now`: it is ready to run and not expired.
    pub fn can_execute_at(&self, now: i64) -> (r: bool)
        ensures
            r == executable_at(*self, now),
    {
        if self.status != DelayedJobStatus::Ready {
            return false;
        }
        !self.is_expired_at(now)
    }

    /// Whether the job is ready now.
    pub fn is_ready(&self) -> (r: bool)
        ensures
            exists|now: i64| r == ready_at(*self, now),
            r ==> self.status == DelayedJobStatus::Waiting,
    {
        self.is_ready_at(wall_clock_millis())
    }

    /// Whether the job is expired now; one without an expiry time never is.
    pub fn is_expired(&self) -> (r: bool)
        ensures
            exists|now: i64| r == expired_at(*self, now),
            self.expires_at is None ==> !r,
    {
        self.is_expired_at(wall_clock_millis())
    }

    /// Whether the job may run now: only a ready job may, and a ready job
    /// without an expiry time always may.
    pub fn can_execute(&self) -> (r: bool)
        ensures
            exists|now: i64| r == #[trigger] executable_at(*self, now),
            r ==> self.status == DelayedJobStatus::Ready,
            self.status == DelayedJobStatus::Ready && self.expires_at is None ==> r,
    {
        let now = wall_clock_millis();
        let r = self.can_execute_at(now);
        assert(r == executable_at(*self, now));
        r
    }

    /// Records that a run begins.
    pub fn start_run(&mut self)
        ensures
            *final(self) == (DelayedJob { status: DelayedJobStatus::Running, ..*old(self) }),
    {
        self.status = DelayedJobStatus::Running;
    }

    /// Records the end of a run that returned `result` after `elapsed_ms`:
    /// the statistics count it; a success resets the retries and completes
    /// the job; a failure uses up a retry and makes the job ready again, or
    /// cancels it when none is left. The result is kept.
    pub fn finish_run(&mut self, result: JobResult, elapsed_ms: u64)
        requires
            stats_have_room(old(self).stats, elapsed_ms),
        ensures
            final(self).stats == stats_after(old(self).stats, result.success, elapsed_ms),
            result.success ==> final(self).current_retry == 0 && final(self).status
                == DelayedJobStatus::Completed,
            !result.success && old(self).current_retry < old(self).max_retries
                ==> final(self).current_retry == old(self).current_retry + 1
                && final(self).status == DelayedJobStatus::Ready,
            !result.success && old(self).current_retry >= old(self).max_retries
                ==> final(self).current_retry == old(self).current_retry
                && final(self).status == DelayedJobStatus::Cancelled,
            final(self).result == Some(result),
            final(self).id == old(self).id,
            final(self).execute_at == old(self).execute_at,
            final(self).expires_at == old(self).expires_at,
            final(self).max_retries == old(self).max_retries,
            old(self).current_retry <= old(self).max_retries ==> final(self).current_retry
                <= final(self).max_retries,
    {
        record_stats(&mut self.stats, result.success, elapsed_ms);
        if result.success {
            self.current_retry = 0;
            self.status = DelayedJobStatus::Completed;
        } else if self.current_retry < self.max_retries {
            self.current_retry = self.current_retry + 1;
            self.status = DelayedJobStatus::Ready;
        } else {
            self.status = DelayedJobStatus::Cancelled;
        }
        self.result = Some(result);
    }

    /// Cancels the job.
    pub fn cancel(&mut self)
        ensures
            *final(self) == (DelayedJob { status: DelayedJobStatus::Cancelled, ..*old(self) }),
    {
        self.status = DelayedJobStatus::Cancelled;
    }

    /// The status.
    pub fn get_status(&self) -> (r: DelayedJobStatus)
        ensures
            r == self.status,
    {
        self.status
    }

    /// The statistics.
    pub fn get_stats(&self) -> (r: JobStats)
        ensures
            r == self.stats,
    {
        self.stats
    }

    /// What the last run returned.
    pub fn get_result(&self) -> (r: &Option<JobResult>)
        ensures
            *r == self.result,
    {
        &self.result
    }

    /// The time left until the job runs, at `now`, in milliseconds; `None`
    /// once its time has come.
    pub fn remaining_time_at(&self, now: i64) -> (r: Option<u64>)
        ensures
            now < self.execute_at ==> r == Some((self.execute_at - now) as u64),
            now >= self.execute_at ==> r is None,
    {
        if now < self.execute_at {
            Some((self.execute_at as i128 - now as i128) as u64)
        } else {
            None
        }
    }

    /// The time left until the job runs, in milliseconds; `None` once its
    /// time has come. What is left is the distance to the job's time from a
    /// reading of the clock.
    pub fn remaining_time(&self) -> (r: Option<u64>)
        ensures
            r matches Some(d) ==> d >= 1 && -WALL_CLOCK_LIMIT <= self.execute_at - d <= WALL_CLOCK_LIMIT,
    {
        self.remaining_time_at(wall_clock_millis())
    }
}

/// Whether a job of identifier `id` is among `s`.
pub open spec fn has_job(s: Seq<DelayedJob>, id: Seq<char>) -> bool {
    exists|i: int| 0 <= i < s.len() && (#[trigger] s[i]).id@ == id
}

/// The jobs of `s` ready and not expired at `now`, in order.
pub open spec fn ready_jobs(s: Seq<DelayedJob>, now: i64) -> Seq<DelayedJob> {
    s.filter(|j: DelayedJob| ready_at(j, now) && !expired_at(j, now))
}

/// The jobs of `s` expired at `now`, in order.
pub open spec fn expired_jobs(s: Seq<DelayedJob>, now: i64) -> Seq<DelayedJob> {
    s.filter(|j: DelayedJob| expired_at(j, now))
}

/// The jobs of `s` not expired at `now`, in order.
pub open spec fn live_jobs(s: Seq<DelayedJob>, now: i64) -> Seq<DelayedJob> {
    s.filter(|j: DelayedJob| !expired_at(j, now))
}

/// The message for an unknown job.
pub open spec fn not_found_message(id: Seq<char>) -> Seq<char> {
    "Delayed job not found: "@ + id
}

/// Holds delayed jobs, one per identifier.
#[derive(Debug)]
pub struct DelayedQueue {
    jobs: Vec<DelayedJob>,
}

/// What adding `job` at time `now` does: a job whose time, or expiry, is
/// not in the future is refused and the jobs stay; otherwise the job takes
/// the place of the one of its identifier, or comes in addition.
pub open spec fn add_outcome(
    before: Seq<DelayedJob>,
    after: Seq<DelayedJob>,
    job: DelayedJob,
    now: i64,
    r: Result<()>,
) -> bool {
    &&& job.execute_at <= now ==> (r matches Err(Error::Schedule(m)) && m@
        == "Execute time must be in the future"@)
    &&& job.execute_at > now && (job.expires_at matches Some(e) && e <= now) ==> (r matches Err(
        Error::Schedule(m),
    ) && m@ == "Expires time must be in the future"@)
    &&& r is Ok <==> (job.execute_at > now && !(job.expires_at matches Some(e) && e <= now))
    &&& r is Err ==> after == before
    &&& r is Ok ==> has_job(after, job.id@) && (forall|i: int|
        0 <= i < after.len() && (#[trigger] after[i]).id@ == job.id@ ==> after[i] == job) && (forall|i: int|
        0 <= i < before.len() && (#[trigger] before[i]).id@ != job.id@ ==> after[i] == before[i])
    &&& r is Ok && has_job(before, job.id@) ==> after.len() == before.len()
    &&& r is Ok && !has_job(before, job.id@) ==> after.len() == before.len() + 1
}

impl DelayedQueue {
    /// The jobs, in the order their identifiers were first added.
    pub closed spec fn all(&self) -> Seq<DelayedJob> {
        self.jobs@
    }

    /// The queue's invariant: one job per identifier.
    pub open spec fn wf(&self) -> bool {
        forall|i: int, j: int|
            0 <= i < self.all().len() && 0 <= j < self.all().len() && i != j ==> (#[trigger] self.all()[i]).id@
                != (#[trigger] self.all()[j]).id@
    }

    /// An empty queue.
    pub fn new() -> (r: Self)
        ensures
            r.wf(),
            r.all().len() == 0,
    {
        DelayedQueue { jobs: Vec::new() }
    }

    fn position(&self, id: &str) -> (r: Option<usize>)
        ensures
            r is None <==> !has_job(self.all(), id@),
            r matches Some(i) ==> i < self.all().len() && self.all()[i as int].id@ == id@,
    {
        let mut i: usize = 0;
        while i < self.jobs.len()
            invariant
                i <= self.jobs@.len(),
                forall|j: int| 0 <= j < i ==> (#[trigger] self.jobs@[j]).id@ != id@,
            decreases self.jobs.len() - i,
        {
            if str_equal(self.jobs[i].id.as_str(), id) {
                return Some(i);
            }
            i = i + 1;
        }
        None
    }

    /// Adds a job at time `now`: its time and its expiry, if any, must be in
    /// the future; a job of the same identifier is replaced.
    pub fn add_at(&mut self, job: DelayedJob, now: i64) -> (r: Result<()>)
        requires
            old(self).wf(),
        ensures
            final(self).wf(),
            add_outcome(old(self).all(), final(self).all(), job, now, r),
    {
        if job.execute_at <= now {
            return Err(Error::Schedule(string_of("Execute time must be in the future")));
        }
        if let Some(e) = job.expires_at {
            if e <= now {
                return Err(Error::Schedule(string_of("Expires time must be in the future")));
            }
        }
        let ghost jid = job.id@;
        match self.position(job.id.as_str()) {
            Some(i) => {
                self.jobs.set(i, job);
                assert(self.all()[i as int].id@ == jid);
            },
            None => {
                self.jobs.push(job);
                assert(self.all()[self.all().len() - 1].id@ == jid);
            },
        }
        Ok(())
    }

    /// Adds a job; its time and expiry must be after now.
    pub fn add(&mut self, job: DelayedJob) -> (r: Result<()>)
        requires
            old(self).wf(),
        ensures
            final(self).wf(),
            exists|now: i64| add_outcome(old(self).all(), final(self).all(), job, now, r),
    {
        let now = wall_clock_millis();
        self.add_at(job, now)
    }

    /// Removes a job.
    pub fn remove(&mut self, job_id: &str) -> (r: Result<()>)
        requires
            old(self).wf(),
        ensures
            final(self).wf(),
            r is Ok <==> has_job(old(self).all(), job_id@),
            r matches Err(Error::Schedule(m)) ==> m@ == not_found_message(job_id@)
                && final(self).all() == old(self).all(),
            r is Ok ==> exists|i: int|
                0 <= i < old(self).all().len() && (#[trigger] old(self).all()[i]).id@ == job_id@
                    && final(self).all() == old(self).all().remove(i),
            !has_job(final(self).all(), job_id@),
    {
        match self.position(job_id) {
            Some(i) => {
                let ghost before = self.jobs@;
                let _ = self.jobs.remove(i);
                assert forall|k: int| 0 <= k < self.jobs@.len() implies (#[trigger] self.jobs@[k]).id@ != job_id@ by {
                    if k < i {
                        assert(self.jobs@[k] == before[k]);
                    } else {
                        assert(self.jobs@[k] == before[k + 1]);
                    }
                }
                assert forall|a: int, b: int|
                    0 <= a < self.all().len() && 0 <= b < self.all().len() && a != b implies (
                    #[trigger] self.all()[a]).id@ != (#[trigger] self.all()[b]).id@ by {
                    let a2 = if a < i { a } else { a + 1 };
                    let b2 = if b < i { b } else { b + 1 };
                    assert(self.all()[a] == before[a2]);
                    assert(self.all()[b] == before[b2]);
                }
                Ok(())
            },
            None => {
                let mut m = string_of("Delayed job not found: ");
                m.append(job_id);
                Err(Error::Schedule(m))
            },
        }
    }

    /// A job by identifier.
    pub fn get(&self, job_id: &str) -> (r: Result<&DelayedJob>)
        ensures
            r is Ok <==> has_job(self.all(), job_id@),
            r matches Ok(j) ==> j.id@ == job_id@ && self.all().contains(*j),
            r matches Err(Error::Schedule(m)) ==> m@ == not_found_message(job_id@),
    {
        match self.position(job_id) {
            Some(i) => Ok(&self.jobs[i]),
            None => {
                let mut m = string_of("Delayed job not found: ");
                m.append(job_id);
                Err(Error::Schedule(m))
            },
        }
    }

    /// Cancels a job.
    pub fn cancel(&mut self, job_id: &str) -> (r: Result<()>)
        requires
            old(self).wf(),
        ensures
            final(self).wf(),
            r is Ok <==> has_job(old(self).all(), job_id@),
            r matches Err(Error::Schedule(m)) ==> m@ == not_found_message(job_id@),
            r is Err ==> final(self).all() == old(self).all(),
            r is Ok ==> exists|i: int|
                0 <= i < old(self).all().len() && (#[trigger] old(self).all()[i]).id@ == job_id@
                    && final(self).all() == old(self).all().update(
                    i,
                    DelayedJob { status: DelayedJobStatus::Cancelled, ..old(self).all()[i] },
                ),
    {
        match self.position(job_id) {
            Some(i) => {
                let mut j = self.jobs.remove(i);
                j.cancel();
                self.jobs.insert(i, j);
                assert(self.jobs@ =~= old(self).jobs@.update(
                    i as int,
                    DelayedJob { status: DelayedJobStatus::Cancelled, ..old(self).jobs@[i as int] },
                ));
                assert forall|a: int, b: int|
                    0 <= a < self.all().len() && 0 <= b < self.all().len() && a != b implies (
                    #[trigger] self.all()[a]).id@ != (#[trigger] self.all()[b]).id@ by {
                    assert(self.all()[a].id@ == old(self).all()[a].id@);
                    assert(self.all()[b].id@ == old(self).all()[b].id@);
                }
                Ok(())
            },
            None => {
                let mut m = string_of("Delayed job not found: ");
                m.append(job_id);
                Err(Error::Schedule(m))
            },
        }
    }

    /// The jobs ready and not expired at `now`, in order.
    pub fn get_ready_jobs_at(&self, now: i64) -> (r: Vec<&DelayedJob>)
        ensures
            r@.len() == self.all().filter(|j: DelayedJob| ready_at(j, now) && !expired_at(j, now)).len(),
            forall|k: int|
                0 <= k < r@.len() ==> *(#[trigger] r@[k]) == self.all().filter(
                    |j: DelayedJob| ready_at(j, now) && !expired_at(j, now),
                )[k],
    {
        let ghost keep = |j: DelayedJob| ready_at(j, now) && !expired_at(j, now);
        let mut r: Vec<&DelayedJob> = Vec::new();
        let mut i: usize = 0;
        while i < self.jobs.len()
            invariant
                i <= self.jobs@.len(),
                keep == (|j: DelayedJob| ready_at(j, now) && !expired_at(j, now)),
                r@.len() == self.jobs@.subrange(0, i as int).filter(keep).len(),
                forall|k: int| 0 <= k < r@.len() ==> *(#[trigger] r@[k]) == self.jobs@.subrange(0, i as int).filter(keep)[k],
            decreases self.jobs.len() - i,
        {
            proof {
                assert(self.jobs@.subrange(0, i as int + 1) =~= self.jobs@.subrange(0, i as int).push(self.jobs@[i as int]));
                self.jobs@.subrange(0, i as int).lemma_filter_push(self.jobs@[i as int], keep);
            }
            if self.jobs[i].is_ready_at(now) && !self.jobs[i].is_expired_at(now) {
                r.push(&self.jobs[i]);
            }
            i = i + 1;
        }
        assert(self.jobs@.subrange(0, i as int) =~= self.jobs@);
        r
    }

    /// The jobs expired at `now`, in order.
    pub fn get_expired_jobs_at(&self, now: i64) -> (r: Vec<&DelayedJob>)
        ensures
            r@.len() == self.all().filter(|j: DelayedJob| expired_at(j, now)).len(),
            forall|k: int|
                0 <= k < r@.len() ==> *(#[trigger] r@[k]) == self.all().filter(
                    |j: DelayedJob| expired_at(j, now),
                )[k],
    {
        let ghost keep = |j: DelayedJob| expired_at(j, now);
        let mut r: Vec<&DelayedJob> = Vec::new();
        let mut i: usize = 0;
        while i < self.jobs.len()
            invariant
                i <= self.jobs@.len(),
                keep == (|j: DelayedJob| expired_at(j, now)),
                r@.len() == self.jobs@.subrange(0, i as int).filter(keep).len(),
                forall|k: int| 0 <= k < r@.len() ==> *(#[trigger] r@[k]) == self.jobs@.subrange(0, i as int).filter(keep)[k],
            decreases self.jobs.len() - i,
        {
            proof {
                assert(self.jobs@.subrange(0, i as int + 1) =~= self.jobs@.subrange(0, i as int).push(self.jobs@[i as int]));
                self.jobs@.subrange(0, i as int).lemma_filter_push(self.jobs@[i as int], keep);
            }
            if self.jobs[i].is_expired_at(now) {
                r.push(&self.jobs[i]);
            }
            i = i + 1;
        }
        assert(self.jobs@.subrange(0, i as int) =~= self.jobs@);
        r
    }

    /// Removes the jobs expired at `now` and says how many there were.
    pub fn remove_expired_at(&mut self, now: i64) -> (r: usize)
        requires
            old(self).wf(),
        ensures
            final(self).wf(),
            final(self).all() == old(self).all().filter(|j: DelayedJob| !expired_at(j, now)),
            r == old(self).all().len() - final(self).all().len(),
    {
        let ghost keep = |j: DelayedJob| !expired_at(j, now);
        let mut kept: Vec<DelayedJob> = Vec::new();
        let mut rest: Vec<DelayedJob> = Vec::new();
        std::mem::swap(&mut rest, &mut self.jobs);
        let ghost all = rest@;
        let n = rest.len();
        let mut i: usize = 0;
        while i < n
            invariant
                n == all.len(),
                i <= n,
                keep == (|j: DelayedJob| !expired_at(j, now)),
                rest@ == all.subrange(i as int, n as int),
                kept@ == all.subrange(0, i as int).filter(keep),
                forall|a: int, b: int|
                    0 <= a < all.len() && 0 <= b < all.len() && a != b ==> (#[trigger] all[a]).id@
                        != (#[trigger] all[b]).id@,
                forall|k: int| 0 <= k < kept@.len() ==> exists|q: int| 0 <= q < i && #[trigger] kept@[k] == all[q],
                forall|a: int, b: int|
                    0 <= a < kept@.len() && 0 <= b < kept@.len() && a != b ==> (#[trigger] kept@[a]).id@
                        != (#[trigger] kept@[b]).id@,
            decreases n - i,
        {
            let j = rest.remove(0);
            proof {
                assert(j == all[i as int]);
                assert(all.subrange(0, i as int + 1) =~= all.subrange(0, i as int).push(all[i as int]));
                all.subrange(0, i as int).lemma_filter_push(all[i as int], keep);
                assert(rest@ =~= all.subrange(i as int + 1, n as int));
            }
            let ghost prev = kept@;
            if !j.is_expired_at(now) {
                kept.push(j);
                assert forall|k: int| 0 <= k < kept@.len() implies exists|q: int| 0 <= q < i + 1 && #[trigger] kept@[k] == all[q] by {
                    if k < prev.len() {
                        assert(kept@[k] == prev[k]);
                    } else {
                        assert(kept@[k] == all[i as int]);
                    }
                }
                assert forall|a: int, b: int|
                    0 <= a < kept@.len() && 0 <= b < kept@.len() && a != b implies (#[trigger] kept@[a]).id@
                        != (#[trigger] kept@[b]).id@ by {
                    if a < prev.len() && b < prev.len() {
                        assert(kept@[a] == prev[a] && kept@[b] == prev[b]);
                    } else if a < prev.len() {
                        assert(kept@[a] == prev[a]);
                        let qa = choose|q: int| 0 <= q < i && #[trigger] prev[a] == all[q];
                        assert(all[qa].id@ != all[i as int].id@);
                    } else {
                        assert(kept@[b] == prev[b]);
                        let qb = choose|q: int| 0 <= q < i && #[trigger] prev[b] == all[q];
                        assert(all[qb].id@ != all[i as int].id@);
                    }
                }
            }
            i = i + 1;
        }
        assert(all.subrange(0, n as int) == all);
        proof {
            all.lemma_filter_len(keep);
        }
        let count = n - kept.len();
        self.jobs = kept;
        count
    }

    /// The jobs ready and not expired now, in order: each is a waiting job
    /// of the queue.
    pub fn get_ready_jobs(&self) -> (r: Vec<&DelayedJob>)
        ensures
            exists|now: i64|
                r@.len() == (#[trigger] ready_jobs(self.all(), now)).len() && forall|k: int|
                    0 <= k < r@.len() ==> *(#[trigger] r@[k]) == ready_jobs(self.all(), now)[k],
            r@.len() <= self.all().len(),
            forall|k: int|
                0 <= k < r@.len() ==> self.all().contains(*(#[trigger] r@[k])) && r@[k].status
                    == DelayedJobStatus::Waiting,
    {
        let now = wall_clock_millis();
        let r = self.get_ready_jobs_at(now);
        proof {
            let keep = |j: DelayedJob| ready_at(j, now) && !expired_at(j, now);
            assert(ready_jobs(self.all(), now) == self.all().filter(keep));
            self.all().lemma_filter_len(keep);
            assert forall|k: int| 0 <= k < r@.len() implies self.all().contains(*(#[trigger] r@[k]))
                && r@[k].status == DelayedJobStatus::Waiting by {
                self.all().lemma_filter_pred(keep, k);
                assert(self.all().filter(keep).contains(*r@[k]));
                self.all().lemma_filter_contains_rev(keep, *r@[k]);
            }
        }
        r
    }

    /// The jobs expired now, in order: each is a job of the queue with an
    /// expiry time.
    pub fn get_expired_jobs(&self) -> (r: Vec<&DelayedJob>)
        ensures
            exists|now: i64|
                r@.len() == (#[trigger] expired_jobs(self.all(), now)).len() && forall|k: int|
                    0 <= k < r@.len() ==> *(#[trigger] r@[k]) == expired_jobs(self.all(), now)[k],
            r@.len() <= self.all().len(),
            forall|k: int|
                0 <= k < r@.len() ==> self.all().contains(*(#[trigger] r@[k])) && r@[k].expires_at is Some,
    {
        let now = wall_clock_millis();
        let r = self.get_expired_jobs_at(now);
        proof {
            let keep = |j: DelayedJob| expired_at(j, now);
            assert(expired_jobs(self.all(), now) == self.all().filter(keep));
            self.all().lemma_filter_len(keep);
            assert forall|k: int| 0 <= k < r@.len() implies self.all().contains(*(#[trigger] r@[k]))
                && r@[k].expires_at is Some by {
                self.all().lemma_filter_pred(keep, k);
                assert(self.all().filter(keep).contains(*r@[k]));
                self.all().lemma_filter_contains_rev(keep, *r@[k]);
            }
        }
        r
    }

    /// Removes the jobs expired now and says how many there were; a job
    /// without an expiry time stays.
    pub fn remove_expired(&mut self) -> (r: usize)
        requires
            old(self).wf(),
        ensures
            final(self).wf(),
            exists|now: i64| final(self).all() == #[trigger] live_jobs(old(self).all(), now),
            r == old(self).all().len() - final(self).all().len(),
            forall|k: int| 0 <= k < final(self).all().len() ==> old(self).all().contains(#[trigger] final(self).all()[k]),
            forall|k: int|
                0 <= k < old(self).all().len() && (#[trigger] old(self).all()[k]).expires_at is None
                    ==> final(self).all().contains(old(self).all()[k]),
    {
        let now = wall_clock_millis();
        let ghost before = self.all();
        let r = self.remove_expired_at(now);
        proof {
            let keep = |j: DelayedJob| !expired_at(j, now);
            assert(live_jobs(before, now) == before.filter(keep));
            assert forall|k: int| 0 <= k < self.all().len() implies before.contains(#[trigger] self.all()[k]) by {
                assert(before.filter(keep).contains(self.all()[k]));
                before.lemma_filter_contains_rev(keep, self.all()[k]);
            }
            assert forall|k: int| 0 <= k < before.len() && (#[trigger] before[k]).expires_at is None
                implies self.all().contains(before[k]) by {
                before.lemma_filter_contains(keep, k);
            }
        }
        r
    }

    /// The identifiers of the jobs.
    pub fn list_jobs(&self) -> (r: Vec<String>)
        ensures
            r@.len() == self.all().len(),
            forall|i: int| 0 <= i < r@.len() ==> (#[trigger] r@[i])@ == self.all()[i].id@,
    {
        let mut r: Vec<String> = Vec::new();
        let mut i: usize = 0;
        while i < self.jobs.len()
            invariant
                i <= self.jobs@.len(),
                r@.len() == i,
                forall|k: int| 0 <= k < i ==> (#[trigger] r@[k])@ == self.jobs@[k].id@,
            decreases self.jobs.len() - i,
        {
            r.push(self.jobs[i].id.clone());
            i = i + 1;
        }
        r
    }

    /// How many jobs are queued.
    pub fn len(&self) -> (r: usize)
        ensures
            r == self.all().len(),
    {
        self.jobs.len()
    }

    /// Whether no job is queued.
    pub fn is_empty(&self) -> (r: bool)
        ensures
            r == (self.all().len() == 0),
    {
        self.jobs.len() == 0
    }

    /// Removes every job.
    pub fn clear(&mut self)
        ensures
            final(self).wf(),
            final(self).all().len() == 0,
    {
        self.jobs.clear();
    }
}

impl Default for DelayedQueue {
    fn default() -> (r: Self)
        ensures
            r.wf(),
            r.all().len() == 0,
    {
        Self::new()
    }
}

} // verus!
