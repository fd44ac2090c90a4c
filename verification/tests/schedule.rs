use fos::schedule::config::Config;
use fos::schedule::cron::{CronError, CronExpression};
use fos::schedule::delayed_queue::{DelayedJob, DelayedJobStatus, DelayedQueue};
use fos::schedule::job::{day_start_of, Job, JobResult, JobStatus, DAY_MS};
use fos::schedule::Error;

#[test]
fn test_parse_wildcard() {
    let cron = CronExpression::parse("0 * * * * *").unwrap();
    assert_eq!(cron.seconds.len(), 1);
    assert!(cron.seconds.contains(&0));
    assert_eq!(cron.minutes.len(), 60);
}

#[test]
fn test_parse_single_values() {
    let cron = CronExpression::parse("0 30 12 * * *").unwrap();
    assert!(cron.seconds.contains(&0));
    assert!(cron.minutes.contains(&30));
    assert!(cron.hours.contains(&12));
}

#[test]
fn test_parse_list() {
    let cron = CronExpression::parse("0 0,15,30,45 * * * *").unwrap();
    assert!(cron.minutes.contains(&0));
    assert!(cron.minutes.contains(&15));
    assert!(cron.minutes.contains(&30));
    assert!(cron.minutes.contains(&45));
}

#[test]
fn test_parse_range() {
    let cron = CronExpression::parse("0 10-20 * * * *").unwrap();
    for i in 10..=20 {
        assert!(cron.minutes.contains(&i));
    }
}

#[test]
fn test_parse_step() {
    let cron = CronExpression::parse("0 */10 * * * *").unwrap();
    assert!(cron.minutes.contains(&0));
    assert!(cron.minutes.contains(&10));
    assert!(cron.minutes.contains(&20));
    assert!(cron.minutes.contains(&30));
}

#[test]
fn test_matches_exact() {
    let cron = CronExpression::parse("0 30 12 1 1 1").unwrap();
    assert!(cron.matches(0, 30, 12, 1, 1, 1));
    assert!(!cron.matches(1, 30, 12, 1, 1, 1));
}

#[test]
fn test_matches_wildcard() {
    let cron = CronExpression::parse("0 * * * * *").unwrap();
    assert!(cron.matches(0, 30, 12, 1, 1, 1));
}

#[test]
fn test_validate_valid() {
    let cron = CronExpression::parse("0 30 12 * * *").unwrap();
    assert!(cron.validate().is_ok());
}

#[test]
fn cron_error_messages() {
    assert_eq!(
        CronExpression::parse("0 * * *").err(),
        Some("Invalid cron expression: expected 6 parts, got 4".to_string())
    );
    assert_eq!(
        CronExpression::parse("0 61 * * * *").err(),
        Some("Value 61 out of range [0, 59]".to_string())
    );
    assert_eq!(CronExpression::parse("0 a * * * *").err(), Some("Invalid value: a".to_string()));
    assert_eq!(
        CronExpression::parse("0 1-2-3 * * * *").err(),
        Some("Invalid range: 1-2-3".to_string())
    );
    assert_eq!(
        CronExpression::parse("0 x-3 * * * *").err(),
        Some("Invalid range start: x".to_string())
    );
    assert_eq!(
        CronExpression::parse("0 1-y * * * *").err(),
        Some("Invalid range end: y".to_string())
    );
    assert_eq!(CronExpression::parse("0 1-5/z * * * *").err(), Some("Invalid step: z".to_string()));
    assert_eq!(
        CronExpression::parse("0 9-3 * * * *").err(),
        Some("No valid values found".to_string())
    );
}

#[test]
fn cron_stepped_and_unchecked_ranges() {
    let cron = CronExpression::parse("1-59/20 5/25 +7 * 1-12/5 *").unwrap();
    assert_eq!(cron.seconds.len(), 3);
    assert!(cron.seconds.contains(&1) && cron.seconds.contains(&21) && cron.seconds.contains(&41));
    assert_eq!(cron.minutes.len(), 3);
    assert!(cron.minutes.contains(&55));
    assert!(cron.hours.contains(&7));
    assert_eq!(cron.months.len(), 3);
    assert!(cron.months.contains(&11));
    // Ranges and steps must stay within the field's bounds.
    assert_eq!(
        CronExpression::parse("0 50-70 * * * *").unwrap_err(),
        "Value 70 out of range [0, 59]"
    );
    assert_eq!(
        CronExpression::parse("0 0 0 0/5 * *").unwrap_err(),
        "Value 0 out of range [1, 31]"
    );
    assert_eq!(
        CronExpression::parse("0 0 30-40/2 * * *").unwrap_err(),
        "Value 30 out of range [0, 23]"
    );
    assert_eq!(cron.next_run(0, 0, 0), Some((1, 5, 7)));
    assert_eq!(cron.next_run(2, 5, 7), Some((21, 5, 7)));
    assert_eq!(cron.next_run(42, 5, 7), Some((1, 30, 7)));
    // none left today: the earliest time, which comes next tomorrow
    assert_eq!(cron.next_run(42, 55, 7), Some((1, 5, 7)));
}

#[test]
fn cron_zero_step_is_reported_by_parse_checked() {
    assert!(matches!(CronExpression::parse_checked("*/0 * * * * *"), Err(CronError::ZeroStep)));
    assert!(matches!(
        CronExpression::parse_checked("0 * * * *"),
        Err(CronError::Invalid(_))
    ));
    assert!(CronExpression::parse_checked("0 0 0 1 1 0").is_ok());
}

#[test]
fn cron_default_and_validate() {
    let cron = CronExpression::default();
    assert!(cron.matches(0, 0, 0, 1, 7, 1));
    assert_eq!(cron.months.len(), 12);
    assert!(cron.validate().is_ok());
    let config = Config::default();
    assert_eq!(config.max_concurrent_jobs, 100);
    assert!(!config.persistent);
}

const NOW: i64 = 1_700_000_000_000;

fn ok_result() -> JobResult {
    JobResult { success: true, error: None, execution_time_ms: 100 }
}

fn fail_result() -> JobResult {
    JobResult { success: false, error: Some("Test error".to_string()), execution_time_ms: 0 }
}

fn waiting_job(id: &str, delay_ms: i64) -> DelayedJob {
    DelayedJob::new_at(id.to_string(), "Test Delayed Job".to_string(), NOW + delay_ms, NOW)
}

fn schedule_message(e: Error) -> String {
    match e {
        Error::Schedule(m) => m,
    }
}

#[test]
fn test_job_creation() {
    let cron = CronExpression::parse("0 * * * * *").unwrap();
    let mut job = Job::new("test-job".to_string(), "Test Job".to_string(), cron);
    job.calculate_next_run(NOW);
    assert_eq!(job.id, "test-job");
    assert_eq!(job.name, "Test Job");
    assert_eq!(job.max_retries, 3);
    // NOW is 22:13:20 UTC: the next whole minute is 22:14:00
    assert_eq!(job.get_next_run(), Some(day_start_of(NOW) + (22 * 3600 + 14 * 60) * 1000));
}

#[test]
fn job_runs_are_counted() {
    let cron = CronExpression::parse("0 * * * * *").unwrap();
    let mut job = Job::new("test-job".to_string(), "Test Job".to_string(), cron);
    job.calculate_next_run(NOW);
    job.start_run_at(NOW);
    assert_eq!(job.get_status(), JobStatus::Running);
    assert_eq!(job.get_last_run(), Some(NOW));
    let result = ok_result();
    job.finish_run_at(&result, 100, NOW);
    assert!(result.success);
    let stats = job.get_stats();
    assert_eq!(stats.total_runs, 1);
    assert_eq!(stats.success_count, 1);
    assert_eq!(job.get_status(), JobStatus::Completed);
}

#[test]
fn test_job_with_description() {
    let cron = CronExpression::parse("0 * * * * *").unwrap();
    let job = Job::new("test-job".to_string(), "Test Job".to_string(), cron)
        .with_description("A test job".to_string());
    assert_eq!(job.description, Some("A test job".to_string()));
}

#[test]
fn test_job_with_max_retries() {
    let cron = CronExpression::parse("0 * * * * *").unwrap();
    let job = Job::new("test-job".to_string(), "Test Job".to_string(), cron).with_max_retries(5);
    assert_eq!(job.max_retries, 5);
}

#[test]
fn test_job_cancel() {
    let cron = CronExpression::parse("0 * * * * *").unwrap();
    let mut job = Job::new("test-job".to_string(), "Test Job".to_string(), cron);
    job.cancel();
    assert_eq!(job.get_status(), JobStatus::Cancelled);
}

#[test]
fn test_job_stats_tracking() {
    let cron = CronExpression::parse("0 0 * * * *").unwrap();
    let mut job = Job::new("test-job".to_string(), "Test Job".to_string(), cron);
    for i in 0..5 {
        job.start_run_at(NOW + i);
        job.finish_run_at(&ok_result(), 100, NOW + i);
    }
    let stats = job.get_stats();
    assert_eq!(stats.total_runs, 5);
    assert_eq!(stats.success_count, 5);
    assert!(stats.avg_execution_time_ms > 0);
    assert_eq!(stats.avg_execution_time_ms, 100);
}

#[test]
fn job_retries_then_fails() {
    let cron = CronExpression::parse("0 0 0 * * *").unwrap();
    let mut job = Job::new("j".to_string(), "J".to_string(), cron).with_max_retries(1);
    job.finish_run_at(&fail_result(), 0, NOW);
    assert_eq!(job.get_status(), JobStatus::Pending);
    assert_eq!(job.current_retry, 1);
    job.finish_run_at(&fail_result(), 0, NOW);
    assert_eq!(job.get_status(), JobStatus::Failed);
    assert_eq!(job.current_retry, 1);
    assert_eq!(job.get_stats().failure_count, 2);
    job.finish_run_at(&ok_result(), 30, NOW);
    assert_eq!(job.current_retry, 0);
    assert_eq!(job.get_stats().avg_execution_time_ms, 10);
}

#[test]
fn job_next_run_is_on_the_day_of_the_reading() {
    let cron = CronExpression::parse("15 30 23 * * *").unwrap();
    let mut job = Job::new("j".to_string(), "J".to_string(), cron);
    job.calculate_next_run(NOW);
    let expected = day_start_of(NOW) + ((23 * 3600 + 30 * 60 + 15) * 1000);
    assert_eq!(job.get_next_run(), Some(expected));
    assert!(job.is_due_at(expected));
    assert!(!job.is_due_at(expected - 1));
    assert_eq!(day_start_of(DAY_MS + 5), DAY_MS);
    assert_eq!(day_start_of(-1), -DAY_MS);
}

#[test]
fn test_delayed_queue_creation() {
    let queue = DelayedQueue::new();
    assert!(queue.is_empty());
    assert_eq!(queue.len(), 0);
}

#[test]
fn test_add_delayed_job() {
    let mut queue = DelayedQueue::new();
    queue.add_at(waiting_job("test-job", 10_000), NOW).unwrap();
    assert_eq!(queue.len(), 1);
    assert!(queue.list_jobs().contains(&"test-job".to_string()));
    let live = DelayedJob::new("live".to_string(), "Live".to_string(), i64::MAX / 2);
    queue.add(live).unwrap();
    assert_eq!(queue.len(), 2);
}

#[test]
fn test_add_job_in_past() {
    let mut queue = DelayedQueue::new();
    let job = waiting_job("test-job", -10_000);
    let result = queue.add_at(job, NOW);
    assert!(result.is_err());
    assert_eq!(schedule_message(result.unwrap_err()), "Execute time must be in the future");
    let expiring = waiting_job("e", 10_000).with_expires_at(NOW);
    assert_eq!(
        schedule_message(queue.add_at(expiring, NOW).unwrap_err()),
        "Expires time must be in the future"
    );
    assert!(queue.is_empty());
}

#[test]
fn test_remove_delayed_job() {
    let mut queue = DelayedQueue::new();
    queue.add_at(waiting_job("test-job", 10_000), NOW).unwrap();
    queue.remove("test-job").unwrap();
    assert!(queue.is_empty());
    assert_eq!(schedule_message(queue.remove("test-job").unwrap_err()), "Delayed job not found: test-job");
}

#[test]
fn test_remove_expired() {
    let mut queue = DelayedQueue::new();
    let job = waiting_job("test-job", 2_000).with_expires_at(NOW + 500);
    queue.add_at(job, NOW).unwrap();
    queue.add_at(waiting_job("keep", 2_000), NOW).unwrap();
    let count = queue.remove_expired_at(NOW + 600);
    assert_eq!(count, 1);
    assert_eq!(queue.len(), 1);
    assert_eq!(queue.list_jobs(), vec!["keep".to_string()]);
}

#[test]
fn test_cancel_job() {
    let mut queue = DelayedQueue::new();
    queue.add_at(waiting_job("test-job", 10_000), NOW).unwrap();
    queue.cancel("test-job").unwrap();
    let job = queue.get("test-job").unwrap();
    assert_eq!(job.get_status(), DelayedJobStatus::Cancelled);
}

#[test]
fn test_get_ready_jobs() {
    let mut queue = DelayedQueue::new();
    queue.add_at(waiting_job("job-1", 50), NOW).unwrap();
    queue.add_at(waiting_job("job-2", 10_000), NOW).unwrap();
    let ready = queue.get_ready_jobs_at(NOW + 100);
    assert_eq!(ready.len(), 1);
    assert_eq!(ready[0].id, "job-1");
}

#[test]
fn test_get_expired_jobs() {
    let mut queue = DelayedQueue::new();
    let job = waiting_job("test-job", 1_000).with_expires_at(NOW + 500);
    queue.add_at(job, NOW).unwrap();
    let expired = queue.get_expired_jobs_at(NOW + 600);
    assert_eq!(expired.len(), 1);
    assert!(expired[0].is_expired_at(NOW + 600));
    assert_eq!(expired[0].get_status(), DelayedJobStatus::Waiting);
}

#[test]
fn test_job_execution() {
    let mut job = waiting_job("test-job", 100);
    assert!(job.is_ready_at(NOW + 150));
    job.start_run();
    assert_eq!(job.get_status(), DelayedJobStatus::Running);
    job.finish_run(ok_result(), 100);
    assert_eq!(job.get_status(), DelayedJobStatus::Completed);
    assert_eq!(job.get_stats().total_runs, 1);
    assert!(job.get_result().as_ref().unwrap().success);
}

#[test]
fn delayed_job_failure_retries_then_cancels() {
    let mut job = waiting_job("j", 100).with_max_retries(1);
    job.finish_run(fail_result(), 0);
    assert_eq!(job.get_status(), DelayedJobStatus::Ready);
    assert!(job.can_execute_at(NOW));
    job.finish_run(fail_result(), 0);
    assert_eq!(job.get_status(), DelayedJobStatus::Cancelled);
    assert!(!job.can_execute_at(NOW));
}

#[test]
fn test_remaining_time() {
    let mut queue = DelayedQueue::new();
    queue.add_at(waiting_job("test-job", 10_000), NOW).unwrap();
    let job = queue.get("test-job").unwrap();
    let remaining = job.remaining_time_at(NOW + 500);
    assert!(remaining.is_some());
    assert!(remaining.unwrap() < 11_000);
    assert!(remaining.unwrap() > 9_000);
    assert_eq!(remaining, Some(9_500));
    assert_eq!(job.remaining_time_at(NOW + 10_000), None);
}

#[test]
fn test_clear_queue() {
    let mut queue = DelayedQueue::new();
    for i in 1..=3i64 {
        let job = DelayedJob::new_at(format!("test-job-{}", i), format!("Test Job {}", i), NOW + 10_000 * i, NOW);
        queue.add_at(job, NOW).unwrap();
    }
    assert_eq!(queue.len(), 3);
    queue.clear();
    assert!(queue.is_empty());
}

#[test]
fn job_next_run_moves_to_the_next_day_when_none_is_left() {
    let cron = CronExpression::parse("15 30 12 * * *").unwrap();
    let mut job = Job::new("j".to_string(), "J".to_string(), cron);
    job.calculate_next_run(NOW);
    let expected = day_start_of(NOW) + DAY_MS + ((12 * 3600 + 30 * 60 + 15) * 1000);
    assert_eq!(job.get_next_run(), Some(expected));
}

#[test]
fn cron_next_run_is_not_before_the_current_time() {
    let cron = CronExpression::parse("0 0 0,12 * * *").unwrap();
    assert_eq!(cron.next_run(0, 0, 6), Some((0, 0, 12)));
    assert_eq!(cron.next_run(0, 0, 12), Some((0, 0, 12)));
    assert_eq!(cron.next_run(1, 0, 12), Some((0, 0, 0)));
    let midnight = CronExpression::parse("0 0 0 * * *").unwrap();
    assert_eq!(midnight.next_run(1, 0, 0), Some((0, 0, 0)));
    let mut empty = CronExpression::default();
    empty.hours.clear();
    assert_eq!(empty.next_run(0, 0, 0), None);
    assert!(cron.validate().is_ok());
}

#[test]
fn cron_fields_split_on_unicode_white_space() {
    let cron = CronExpression::parse("5\u{3000}4\u{00A0}3\t* * *").unwrap();
    assert!(cron.seconds.contains(&5) && cron.minutes.contains(&4) && cron.hours.contains(&3));
    assert!(fos::text::char_is_whitespace('\u{2028}'));
    assert!(!fos::text::char_is_whitespace('\u{200B}'));
    assert_eq!(fos::text::decimal_string(0), "0");
    assert_eq!(fos::text::decimal_string(u64::MAX), u64::MAX.to_string());
}
