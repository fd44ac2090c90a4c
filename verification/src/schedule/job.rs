//! Scheduled jobs: their status, statistics, retries and next run time.
//!
//! Running the job's handler is asynchronous and happens outside; a run is
//! recorded here in two steps, `start_run_at` before the handler and
//! `finish_run_at` with what it returned.

use vstd::prelude::*;
use crate::clock::wall_clock_millis;
use crate::schedule::cron::{lemma_time_key_order, CronExpression};

verus! {

/// Status of a job.
#[derive(Debug, Clone, Copy, PartialEq, Eq, Structural)]
pub enum JobStatus {
    /// Waiting to run.
    Pending,
    /// Running.
    Running,
    /// Finished.
    Completed,
    /// Cancelled.
    Cancelled,
    /// Failed for good.
    Failed,
}

/// What one run of a handler returned.
#[derive(Debug, Clone)]
pub struct JobResult {
    /// Whether it succeeded.
    pub success: bool,
    /// Its error, if any.
    pub error: Option<String>,
    /// How long it took, as the handler reports it, in milliseconds.
    pub execution_time_ms: u64,
}

/// Statistics of a job.
#[derive(Debug, Clone, Copy, PartialEq, Eq, Structural, Default)]
pub struct JobStats {
    /// Runs.
    pub total_runs: u64,
    /// Successful runs.
    pub success_count: u64,
    /// Failed runs.
    pub failure_count: u64,
    /// Total time spent, in milliseconds.
    pub total_execution_time_ms: u64,
    /// Average time per run, in milliseconds.
    pub avg_execution_time_ms: u64,
}

/// The statistics after a run that took `elapsed_ms` and succeeded or not.
pub open spec fn stats_after(s: JobStats, success: bool, elapsed_ms: u64) -> JobStats {
    let runs = s.total_runs + 1;
    let total = s.total_execution_time_ms + elapsed_ms;
    JobStats {
        total_runs: runs as u64,
        success_count: if success { (s.success_count + 1) as u64 } else { s.success_count },
        failure_count: if success { s.failure_count } else { (s.failure_count + 1) as u64 },
        total_execution_time_ms: total as u64,
        avg_execution_time_ms: (total / runs) as u64,
    }
}

/// Whether the counters leave room for one more run of `elapsed_ms`.
pub open spec fn stats_have_room(s: JobStats, elapsed_ms: u64) -> bool {
    &&& s.total_runs < u64::MAX
    &&& s.success_count < u64::MAX
    &&& s.failure_count < u64::MAX
    &&& s.total_execution_time_ms + elapsed_ms <= u64::MAX
}

/// Updates the statistics for a run.
pub fn record_stats(stats: &mut JobStats, success: bool, elapsed_ms: u64)
    requires
        stats_have_room(*old(stats), elapsed_ms),
    ensures
        *final(stats) == stats_after(*old(stats), success, elapsed_ms),
{
    stats.total_runs = stats.total_runs + 1;
    if success {
        stats.success_count = stats.success_count + 1;
    } else {
        stats.failure_count = stats.failure_count + 1;
    }
    stats.total_execution_time_ms = stats.total_execution_time_ms + elapsed_ms;
    stats.avg_execution_time_ms = stats.total_execution_time_ms / stats.total_runs;
}

/// Milliseconds in a day.
pub const DAY_MS: i64 = 86_400_000;

/// The first millisecond of the (UTC) day of `t`.
pub open spec fn day_start(t: int) -> int {
    (t / DAY_MS as int) * DAY_MS as int
}

/// Whether `x` is the least element of `s`.
pub open spec fn is_least(s: Set<u8>, x: u8) -> bool {
    s.contains(x) && forall|y: u8| #[trigger] s.contains(y) ==> x <= y
}

/// Whether `h:m:s` is a time that a day has.
pub open spec fn is_clock_time(s: u8, m: u8, h: u8) -> bool {
    h < 24 && m < 60 && s < 60
}

/// Milliseconds from the start of a day to `h:m:s`.
pub open spec fn clock_offset(s: u8, m: u8, h: u8) -> int {
    (h * 3600 + m * 60 + s) * 1000
}

/// The seconds since the start of the (UTC) day of `t`.
pub open spec fn seconds_of_day(t: int) -> int {
    (t - day_start(t)) / 1000
}

/// The second of the minute of `t`.
pub open spec fn clock_second(t: int) -> u8 {
    (seconds_of_day(t) % 60) as u8
}

/// The minute of the hour of `t`.
pub open spec fn clock_minute(t: int) -> u8 {
    ((seconds_of_day(t) / 60) % 60) as u8
}

/// The hour of the day of `t`.
pub open spec fn clock_hour(t: int) -> u8 {
    (seconds_of_day(t) / 3600) as u8
}

/// Whether `cron` names a time of day not before that of `from`.
pub open spec fn fires_later_today(cron: CronExpression, from: i64) -> bool {
    cron.fires_from(clock_second(from as int), clock_minute(from as int), clock_hour(from as int))
}

/// Whether `t` is the next run on the day of `from`: the earliest time of
/// day that `cron` names and that is not before the time of `from`; when
/// that is no time a day has, `t` is `from` itself.
pub open spec fn is_next_run(cron: CronExpression, from: i64, t: i64) -> bool {
    exists|s: u8, m: u8, h: u8|
        cron.is_next_time(
            clock_second(from as int),
            clock_minute(from as int),
            clock_hour(from as int),
            s,
            m,
            h,
        ) && t == if is_clock_time(s, m, h) {
            day_start(from as int) + clock_offset(s, m, h)
        } else {
            from as int
        }
}

/// Whether `r` is the first run on the day after that of `from`: the
/// earliest second, minute and hour of `cron`, or none where they are no
/// time a day has.
pub open spec fn is_first_run_tomorrow(cron: CronExpression, from: i64, r: Option<i64>) -> bool {
    exists|s: u8, m: u8, h: u8|
        is_least(cron.seconds@, s) && is_least(cron.minutes@, m) && is_least(cron.hours@, h) && r
            == if is_clock_time(s, m, h) {
            Some((day_start(from as int) + DAY_MS + clock_offset(s, m, h)) as i64)
        } else {
            None
        }
}

/// Whether `cron` has a second, a minute and an hour at all.
pub open spec fn has_time_of_day(cron: CronExpression) -> bool {
    cron.seconds@ != Set::<u8>::empty() && cron.minutes@ != Set::<u8>::empty() && cron.hours@ != Set::<
        u8,
    >::empty()
}

/// What computing the next run from `from` makes of the next run `old`:
/// the next time named today; else the first one tomorrow; else, where the
/// expression names no time of day, `old` unchanged.
pub open spec fn next_run_from(cron: CronExpression, from: i64, old: Option<i64>, new: Option<i64>) -> bool {
    if fires_later_today(cron, from) {
        new matches Some(t) && is_next_run(cron, from, t)
    } else if has_time_of_day(cron) {
        is_first_run_tomorrow(cron, from, new)
    } else {
        new == old
    }
}

/// The first millisecond of the day of `t`.
pub fn day_start_of(t: i64) -> (r: i64)
    requires
        i64::MIN + DAY_MS <= t,
    ensures
        r == day_start(t as int),
        r <= t < r + DAY_MS,
{
    if t >= 0 {
        let q: i64 = ((t as u64) / (DAY_MS as u64)) as i64;
        assert(q * DAY_MS <= t < q * DAY_MS + DAY_MS) by (nonlinear_arith)
            requires
                q == (t as u64) / (DAY_MS as u64),
                t >= 0,
        ;
        q * DAY_MS
    } else {
        let a: u64 = (-(t + 1)) as u64;
        let q: i64 = (a / (DAY_MS as u64)) as i64;
        let day: i64 = -q - 1;
        assert(day * DAY_MS <= t < day * DAY_MS + DAY_MS) by (nonlinear_arith)
            requires
                a == -(t + 1),
                q == a / (DAY_MS as u64),
                day == -q - 1,
                t < 0,
        ;
        assert(day == t as int / DAY_MS as int) by (nonlinear_arith)
            requires
                day * DAY_MS <= t < day * DAY_MS + DAY_MS,
        ;
        day * DAY_MS
    }
}

/// A scheduled job: what it is, when it runs, and how it went.
#[derive(Debug, Clone)]
pub struct Job {
    /// Identifier.
    pub id: String,
    /// Name.
    pub name: String,
    /// Description, if any.
    pub description: Option<String>,
    /// When it runs.
    pub cron: CronExpression,
    /// Whether it is enabled.
    pub enabled: bool,
    /// Most retries after a failure.
    pub max_retries: u32,
    /// Retries so far.
    pub current_retry: u32,
    /// Status.
    pub status: JobStatus,
    /// Start of the last run, in milliseconds since the epoch.
    pub last_run: Option<i64>,
    /// Next run, in milliseconds since the epoch.
    pub next_run: Option<i64>,
    /// Statistics.
    pub stats: JobStats,
}

impl Job {
    /// An enabled, pending job that has not run, with up to three retries.
    pub fn new(id: String, name: String, cron: CronExpression) -> (r: Self)
        ensures
            r.id == id,
            r.name == name,
            r.description is None,
            r.cron == cron,
            r.enabled,
            r.max_retries == 3,
            r.current_retry == 0,
            r.status == JobStatus::Pending,
            r.last_run is None,
            r.next_run is None,
            r.stats == JobStats::default_spec(),
    {
        Job {
            id,
            name,
            description: None,
            cron,
            enabled: true,
            max_retries: 3,
            current_retry: 0,
            status: JobStatus::Pending,
            last_run: None,
            next_run: None,
            stats: JobStats {
                total_runs: 0,
                success_count: 0,
                failure_count: 0,
                total_execution_time_ms: 0,
                avg_execution_time_ms: 0,
            },
        }
    }

    /// The same job with a description.
    pub fn with_description(self, description: String) -> (r: Self)
        ensures
            r == (Job { description: Some(description), ..self }),
    {
        let mut j = self;
        j.description = Some(description);
        j
    }

    /// The same job with another retry limit.
    pub fn with_max_retries(self, max_retries: u32) -> (r: Self)
        ensures
            r == (Job { max_retries, ..self }),
    {
        let mut j = self;
        j.max_retries = max_retries;
        j
    }

    /// Sets the next run from time `from`: the earliest time of day that
    /// the cron expression names and that is not before the time of `from`,
    /// on the day of `from`; when none is left that day, the earliest one on
    /// the next day. When the expression names no time of day at all, the
    /// next run is left as it was.
    pub fn calculate_next_run(&mut self, from: i64)
        requires
            i64::MIN + DAY_MS <= from <= i64::MAX - 2 * DAY_MS,
        ensures
            next_run_from(old(self).cron, from, old(self).next_run, final(self).next_run),
            *final(self) == (Job { next_run: final(self).next_run, ..*old(self) }),
    {
        let start = day_start_of(from);
        let secs: i64 = (from - start) / 1000;
        let cs: u8 = (secs % 60) as u8;
        let cm: u8 = ((secs / 60) % 60) as u8;
        let ch: u8 = (secs / 3600) as u8;
        assert(cs == clock_second(from as int) && cm == clock_minute(from as int) && ch == clock_hour(
            from as int,
        ));
        match self.cron.next_run(cs, cm, ch) {
            Some((s, m, h)) => {
                let later = h > ch || (h == ch && (m > cm || (m == cm && s >= cs)));
                proof {
                    lemma_time_key_order(cs, cm, ch, s, m, h);
                    if !self.cron.fires_from(cs, cm, ch) {
                        assert(self.cron.fires_at(s, m, h));
                    }
                }
                if later {
                    assert(self.cron.fires_from(cs, cm, ch)) by {
                        assert(self.cron.fires_at(s, m, h));
                    }
                    if h < 24 && m < 60 && s < 60 {
                        let offset: i64 = ((h as i64) * 3600 + (m as i64) * 60 + (s as i64)) * 1000;
                        self.next_run = Some(start + offset);
                    } else {
                        self.next_run = Some(from);
                    }
                    assert(is_next_run(self.cron, from, self.next_run->Some_0));
                } else {
                    assert(!self.cron.fires_from(cs, cm, ch));
                    assert(is_least(self.cron.seconds@, s));
                    assert(is_least(self.cron.minutes@, m));
                    assert(is_least(self.cron.hours@, h));
                    if h < 24 && m < 60 && s < 60 {
                        let offset: i64 = ((h as i64) * 3600 + (m as i64) * 60 + (s as i64)) * 1000;
                        assert(offset == clock_offset(s, m, h));
                        self.next_run = Some(start + DAY_MS + offset);
                        assert(self.next_run == Some((day_start(from as int) + DAY_MS + clock_offset(s, m, h)) as i64));
                    } else {
                        self.next_run = None;
                    }
                    assert(self.next_run == if is_clock_time(s, m, h) {
                        Some((day_start(from as int) + DAY_MS + clock_offset(s, m, h)) as i64)
                    } else {
                        None
                    });
                    assert(is_first_run_tomorrow(self.cron, from, self.next_run));
                }
            },
            None => {
                assert(!has_time_of_day(self.cron));
            },
        }
    }

    /// Whether the job has a next run and time `now` has reached it.
    pub open spec fn due_at(&self, now: i64) -> bool {
        self.next_run matches Some(t) && now >= t
    }

    /// Whether the job is due at time `now`: it has a next run, and that
    /// time has come.
    pub fn is_due_at(&self, now: i64) -> (r: bool)
        ensures
            r == (self.next_run matches Some(t) && now >= t),
    {
        match self.next_run {
            Some(t) => now >= t,
            None => false,
        }
    }

    /// Whether the job is due now; one without a next run never is.
    pub fn is_due(&self) -> (r: bool)
        ensures
            exists|now: i64| r == #[trigger] self.due_at(now),
            self.next_run is None ==> !r,
    {
        let now = wall_clock_millis();
        let r = self.is_due_at(now);
        assert(r == self.due_at(now));
        r
    }

    /// Records that a run begins at `now`.
    pub fn start_run_at(&mut self, now: i64)
        ensures
            *final(self) == (Job { status: JobStatus::Running, last_run: Some(now), ..*old(self) }),
    {
        self.status = JobStatus::Running;
        self.last_run = Some(now);
    }

    /// Records the end of a run that returned `result` after `elapsed_ms`:
    /// the statistics count it; a success resets the retries and completes
    /// the job; a failure uses up a retry and puts the job back to pending,
    /// or fails it when none is left. The next run is then computed from
    /// `now`.
    pub fn finish_run_at(&mut self, result: &JobResult, elapsed_ms: u64, now: i64)
        requires
            stats_have_room(old(self).stats, elapsed_ms),
            i64::MIN + DAY_MS <= now <= i64::MAX - 2 * DAY_MS,
        ensures
            final(self).stats == stats_after(old(self).stats, result.success, elapsed_ms),
            result.success ==> final(self).current_retry == 0 && final(self).status
                == JobStatus::Completed,
            !result.success && old(self).current_retry < old(self).max_retries
                ==> final(self).current_retry == old(self).current_retry + 1
                && final(self).status == JobStatus::Pending,
            !result.success && old(self).current_retry >= old(self).max_retries
                ==> final(self).current_retry == old(self).current_retry
                && final(self).status == JobStatus::Failed,
            next_run_from(old(self).cron, now, old(self).next_run, final(self).next_run),
            final(self).id == old(self).id,
            final(self).cron == old(self).cron,
            final(self).max_retries == old(self).max_retries,
            final(self).last_run == old(self).last_run,
            final(self).enabled == old(self).enabled,
            old(self).current_retry <= old(self).max_retries ==> final(self).current_retry
                <= final(self).max_retries,
    {
        record_stats(&mut self.stats, result.success, elapsed_ms);
        if result.success {
            self.current_retry = 0;
            self.status = JobStatus::Completed;
        } else if self.current_retry < self.max_retries {
            self.current_retry = self.current_retry + 1;
            self.status = JobStatus::Pending;
        } else {
            self.status = JobStatus::Failed;
        }
        self.calculate_next_run(now);
    }

    /// Cancels the job.
    pub fn cancel(&mut self)
        ensures
            *final(self) == (Job { status: JobStatus::Cancelled, ..*old(self) }),
    {
        self.status = JobStatus::Cancelled;
    }

    /// The status.
    pub fn get_status(&self) -> (r: JobStatus)
        ensures
            r == self.status,
    {
        self.status
    }

    /// The statistics.
    pub fn get_stats(&self) -> (r: JobStats)
        ensures
            r == self.stats,
    {
        self.stats
    }

    /// The next run, if computed.
    pub fn get_next_run(&self) -> (r: Option<i64>)
        ensures
            r == self.next_run,
    {
        self.next_run
    }

    /// The start of the last run, if any.
    pub fn get_last_run(&self) -> (r: Option<i64>)
        ensures
            r == self.last_run,
    {
        self.last_run
    }
}

impl JobStats {
    /// No runs yet.
    pub open spec fn default_spec() -> JobStats {
        JobStats {
            total_runs: 0,
            success_count: 0,
            failure_count: 0,
            total_execution_time_ms: 0,
            avg_execution_time_ms: 0,
        }
    }
}

} // verus!
