use fang::instant::Instant;
use fang::model::QueueError;
use fang::queue::bytes_equal;
use fang::queue::Queue;
use fang::queue::Selector;
use fang::registry::Registry;
use fang::runnable::common_type;
use fang::runnable::default_backoff;
use fang::runnable::schedule_once;
use fang::runnable::NewTask;
use fang::runnable::Runnable;
use fang::runnable::Scheduled;
use fang::runnable::COMMON_TYPE;
use fang::runnable::DEFAULT_MAX_RETRIES;
use fang::samples::AyratTask;
use fang::samples::PepeTask;
use fang::samples::ScheduledPepeTask;
use fang::task::FangTaskState;
use sha2::Digest;

fn plain(metadata: &str, task_type: &str) -> NewTask {
    NewTask {
        metadata: metadata.as_bytes().to_vec(),
        task_type: task_type.to_string(),
        uniq: false,
        schedule: None,
    }
}

fn unique(metadata: &str, task_type: &str) -> NewTask {
    NewTask {
        metadata: metadata.as_bytes().to_vec(),
        task_type: task_type.to_string(),
        uniq: true,
        schedule: None,
    }
}

fn recurring(metadata: &str, pattern: &str) -> NewTask {
    NewTask {
        metadata: metadata.as_bytes().to_vec(),
        task_type: COMMON_TYPE.to_string(),
        uniq: false,
        schedule: Some(Scheduled::CronPattern(pattern.to_string())),
    }
}

#[test]
fn instants_are_ordered_by_seconds_then_nanoseconds() {
    let early = Instant::new(10, 999_999_999);
    let late = Instant::new(11, 0);
    assert!(early.is_before(&late));
    assert!(early.is_at_or_before(&late));
    assert!(!late.is_before(&early));
    assert!(!late.is_at_or_before(&early));
    assert!(early.is_at_or_before(&early));
    assert!(!early.is_before(&early));
    assert!(Instant::new(10, 1).is_before(&Instant::new(10, 2)));
    assert!(Instant::new(-5, 0).is_before(&Instant::new(-4, 0)));
}

#[test]
fn plus_seconds_adds_and_saturates() {
    assert_eq!(Instant::new(100, 7).plus_seconds(8), Instant::new(108, 7));
    assert_eq!(Instant::new(-3, 0).plus_seconds(3), Instant::new(0, 0));
    assert_eq!(Instant::new(i64::MAX, 5).plus_seconds(1), Instant::new(i64::MAX, 5));
    assert_eq!(
        Instant::new(i64::MAX - 10, 0).plus_seconds(u32::MAX),
        Instant::new(i64::MAX, 0)
    );
    assert_eq!(Instant::new(i64::MAX - 10, 0).plus_seconds(10), Instant::new(i64::MAX, 0));
}

#[test]
fn default_backoff_doubles_and_saturates() {
    assert_eq!(default_backoff(0), 1);
    assert_eq!(default_backoff(1), 2);
    assert_eq!(default_backoff(5), 32);
    assert_eq!(default_backoff(31), 2_147_483_648);
    assert_eq!(default_backoff(32), u32::MAX);
    assert_eq!(default_backoff(u32::MAX), u32::MAX);
}

#[test]
fn bytes_equal_compares_contents() {
    assert!(bytes_equal(&vec![], &vec![]));
    assert!(bytes_equal(&vec![1, 2, 3], &vec![1, 2, 3]));
    assert!(!bytes_equal(&vec![1, 2, 3], &vec![1, 2, 4]));
    assert!(!bytes_equal(&vec![1, 2, 3], &vec![1, 2]));
}

#[test]
fn sample_tasks_declare_what_they_are() {
    let pepe = PepeTask { number: 1 };
    assert!(pepe.uniq());
    assert_eq!(pepe.task_type(), "common");
    assert_eq!(pepe.cron(), None);
    assert_eq!(pepe.max_retries(), 20);
    assert_eq!(pepe.backoff(3), 8);

    let ayrat = AyratTask { number: 1 };
    assert!(ayrat.uniq());
    assert_eq!(ayrat.task_type(), "weirdo");
    assert_eq!(ayrat.cron(), None);
    assert_eq!(ayrat.max_retries(), DEFAULT_MAX_RETRIES);

    let scheduled = ScheduledPepeTask { number: 1, datetime: "nonsense".to_string() };
    assert!(scheduled.uniq());
    assert_eq!(scheduled.task_type(), "scheduled");
    assert_eq!(scheduled.cron(), None);
    assert_eq!(common_type(), COMMON_TYPE);
}

#[test]
fn scheduled_pepe_reads_its_datetime() {
    let task = ScheduledPepeTask { number: 1, datetime: "2015-05-15 00:00:07 UTC".to_string() };
    assert_eq!(task.cron(), Some(Scheduled::ScheduleOnce(Instant::new(1_431_648_007, 0))));

    let task = ScheduledPepeTask { number: 1, datetime: "2015-05-15T00:00:00.25Z".to_string() };
    assert_eq!(task.cron(), Some(Scheduled::ScheduleOnce(Instant::new(1_431_648_000, 250_000_000))));

    let task = ScheduledPepeTask { number: 1, datetime: "2015-05-15 02:00:00+02:00".to_string() };
    assert_eq!(task.cron(), Some(Scheduled::ScheduleOnce(Instant::new(1_431_648_000, 0))));

    let task = ScheduledPepeTask { number: 1, datetime: "2015-05-15".to_string() };
    assert_eq!(task.cron(), None);
}

#[test]
fn schedule_once_wraps_an_instant() {
    assert_eq!(schedule_once(None), None);
    assert_eq!(
        schedule_once(Some(Instant::new(5, 6))),
        Some(Scheduled::ScheduleOnce(Instant::new(5, 6)))
    );
}

#[test]
fn a_new_record_starts_clean() {
    let mut queue = Queue::new();
    let now = Instant::new(1_000, 5);
    let task = queue.insert_task(&plain("{}", "mail"), now).unwrap();
    assert_eq!(task.id, 0);
    assert_eq!(task.metadata, b"{}".to_vec());
    assert_eq!(task.error_message, None);
    assert_eq!(task.state, FangTaskState::New);
    assert_eq!(task.task_type, "mail");
    assert_eq!(task.uniq_hash, None);
    assert_eq!(task.retries, 0);
    assert_eq!(task.scheduled_at, now);
    assert_eq!(task.created_at, now);
    assert_eq!(task.updated_at, now);
    assert_eq!(queue.len(), 1);
    assert_eq!(queue.find_task_by_id(0), Some(task));

    let second = queue.insert_task(&plain("{}", "mail"), now).unwrap();
    assert_eq!(second.id, 1);
}

#[test]
fn a_unique_task_carries_the_sha256_of_its_payload() {
    let mut queue = Queue::new();
    let task = queue.insert_task(&unique("abc", "mail"), Instant::new(1, 0)).unwrap();
    let expected: Vec<u8> = vec![
        0xba, 0x78, 0x16, 0xbf, 0x8f, 0x01, 0xcf, 0xea, 0x41, 0x41, 0x40, 0xde, 0x5d, 0xae, 0x22,
        0x23, 0xb0, 0x03, 0x61, 0xa3, 0x96, 0x17, 0x7a, 0x9c, 0xb4, 0x10, 0xff, 0x61, 0xf2, 0x00,
        0x15, 0xad,
    ];
    assert_eq!(task.uniq_hash, Some(expected));
}

#[test]
fn an_occurrence_carries_the_sha256_of_payload_and_due_instant() {
    let mut queue = Queue::new();
    let due = Instant::new(1_704_067_260, 0);
    let task = queue
        .schedule_occurrence(&recurring("abc", "0 * * * * *"), Some(due), Instant::new(1, 0))
        .unwrap();
    let mut key = b"abc".to_vec();
    key.extend_from_slice(&(1_704_067_260u64 + (1u64 << 63)).to_le_bytes());
    key.extend_from_slice(&0u32.to_le_bytes());
    assert_eq!(task.uniq_hash, Some(sha2::Sha256::digest(&key).to_vec()));
    assert_eq!(task.scheduled_at, due);
    assert_eq!(task.created_at, Instant::new(1, 0));
    assert_eq!(task.state, FangTaskState::New);

    let negative = Instant::new(-1, 7);
    let task = queue
        .schedule_occurrence(&recurring("abc", "0 * * * * *"), Some(negative), Instant::new(1, 0))
        .unwrap();
    let mut key = b"abc".to_vec();
    key.extend_from_slice(&((1u64 << 63) - 1).to_le_bytes());
    key.extend_from_slice(&7u32.to_le_bytes());
    assert_eq!(task.uniq_hash, Some(sha2::Sha256::digest(&key).to_vec()));
}

#[test]
fn a_recurring_task_is_scheduled_for_the_next_firing() {
    let mut queue = Queue::new();
    let now = Instant::new(1_704_067_230, 500);
    let task = queue.schedule_task(&recurring("{}", "0 * * * * *"), now).unwrap();
    assert_eq!(task.scheduled_at, Instant::new(1_704_067_260, 0));
    assert_eq!(task.created_at, now);

    let hourly = queue.schedule_task(&recurring("{}", "0 0 * * * *"), now).unwrap();
    assert_eq!(hourly.scheduled_at, Instant::new(1_704_070_800, 0));
}

#[test]
fn schedule_task_refuses_what_it_cannot_schedule() {
    let mut queue = Queue::new();
    let now = Instant::new(1_704_067_230, 0);
    assert_eq!(queue.schedule_task(&plain("{}", "mail"), now), Err(QueueError::NotSchedulable));
    assert_eq!(
        queue.schedule_task(&recurring("{}", "not a pattern"), now),
        Err(QueueError::NoUpcomingOccurrence)
    );
    assert_eq!(
        queue.schedule_task(&recurring("{}", "0 * * * * * 2000"), now),
        Err(QueueError::NoUpcomingOccurrence)
    );
    assert_eq!(
        queue.schedule_task(&recurring("{}", "0 * * * * *"), Instant::new(253_402_300_800, 0)),
        Err(QueueError::ClockOutOfRange)
    );
    assert_eq!(
        queue.schedule_occurrence(&recurring("{}", "0 * * * * *"), None, now),
        Err(QueueError::NoUpcomingOccurrence)
    );
    assert_eq!(queue.len(), 0);
}

#[test]
fn the_last_second_of_the_calendar_is_still_served() {
    let mut queue = Queue::new();
    assert_eq!(
        queue.schedule_task(&recurring("{}", "0 * * * * *"), Instant::new(253_402_300_799, 0)),
        Err(QueueError::NoUpcomingOccurrence)
    );
}

#[test]
fn a_task_due_once_is_scheduled_for_its_instant() {
    let mut queue = Queue::new();
    let at = Instant::new(2_000, 0);
    let once = NewTask {
        metadata: b"{}".to_vec(),
        task_type: "mail".to_string(),
        uniq: false,
        schedule: Some(Scheduled::ScheduleOnce(at)),
    };
    let task = queue.schedule_task(&once, Instant::new(1_000, 0)).unwrap();
    assert_eq!(task.scheduled_at, at);
    assert_eq!(task.created_at, Instant::new(1_000, 0));
    assert_eq!(task.uniq_hash, None);
}

#[test]
fn operations_on_a_missing_task_report_it() {
    let mut queue = Queue::new();
    let now = Instant::new(1, 0);
    let task = queue.insert_task(&plain("{}", "mail"), now).unwrap();
    assert_eq!(queue.remove_task(task.id), 1);
    assert_eq!(
        queue.update_task_state(&task, FangTaskState::Finished, now),
        Err(QueueError::TaskNotFound)
    );
    assert_eq!(queue.fail_task(&task, "boom", now), Err(QueueError::TaskNotFound));
    assert_eq!(queue.schedule_retry(&task, 5, "boom", now), Err(QueueError::TaskNotFound));
    assert_eq!(queue.find_task_by_id(task.id), None);
    assert_eq!(queue.remove_task(task.id), 0);
}

#[test]
fn schedule_retry_sends_the_task_back() {
    let mut queue = Queue::new();
    let task = queue.insert_task(&plain("{}", "mail"), Instant::new(10, 3)).unwrap();
    let claimed = queue.fetch_and_touch_task("mail".to_string(), Instant::new(11, 0)).unwrap();
    let retried = queue.schedule_retry(&claimed, 30, "boom", Instant::new(12, 4)).unwrap();
    assert_eq!(retried.id, task.id);
    assert_eq!(retried.state, FangTaskState::New);
    assert_eq!(retried.retries, 1);
    assert_eq!(retried.error_message, Some("boom".to_string()));
    assert_eq!(retried.scheduled_at, Instant::new(42, 4));
    assert_eq!(retried.created_at, Instant::new(10, 3));
    assert_eq!(retried.updated_at, Instant::new(12, 4));
    assert_eq!(queue.find_task_by_id(task.id), Some(retried));
}

#[test]
fn update_task_state_is_unconditional() {
    let mut queue = Queue::new();
    let task = queue.insert_task(&plain("{}", "mail"), Instant::new(10, 0)).unwrap();
    let done = queue.update_task_state(&task, FangTaskState::Finished, Instant::new(11, 0)).unwrap();
    assert_eq!(done.state, FangTaskState::Finished);
    assert_eq!(done.updated_at, Instant::new(11, 0));
    let again = queue.update_task_state(&task, FangTaskState::New, Instant::new(12, 0)).unwrap();
    assert_eq!(again.state, FangTaskState::New);
    assert_eq!(again.scheduled_at, Instant::new(10, 0));
    assert_eq!(again.retries, 0);
}

#[test]
fn selectors_pick_by_column() {
    let mut queue = Queue::new();
    let now = Instant::new(100, 0);
    let mail = queue.insert_task(&unique("a", "mail"), now).unwrap();
    let report = queue.insert_task(&plain("b", "report"), now).unwrap();
    assert!(Selector::Id(mail.id).holds_of(&mail));
    assert!(!Selector::Id(mail.id).holds_of(&report));
    assert!(Selector::Type("report".to_string()).holds_of(&report));
    assert!(!Selector::Type("report".to_string()).holds_of(&mail));
    assert!(Selector::Metadata(b"a".to_vec()).holds_of(&mail));
    assert!(!Selector::Metadata(b"a".to_vec()).holds_of(&report));
    assert!(Selector::UniqHash(mail.uniq_hash.clone().unwrap()).holds_of(&mail));
    assert!(!Selector::UniqHash(mail.uniq_hash.clone().unwrap()).holds_of(&report));
    assert!(Selector::DueAfter(Instant::new(99, 0)).holds_of(&mail));
    assert!(!Selector::DueAfter(Instant::new(100, 0)).holds_of(&mail));
    assert!(Selector::All.holds_of(&mail));

    assert_eq!(queue.remove_where(&Selector::UniqHash(mail.uniq_hash.clone().unwrap())), 1);
    assert_eq!(queue.find_task_by_id(mail.id), None);
    assert_eq!(queue.find_task_by_id(report.id), Some(report));
}

#[test]
fn removal_keeps_the_order_of_the_rest() {
    let mut queue = Queue::new();
    let now = Instant::new(100, 0);
    let a = queue.insert_task(&plain("a", "mail"), now).unwrap();
    let b = queue.insert_task(&plain("b", "report"), now).unwrap();
    let c = queue.insert_task(&plain("c", "mail"), now).unwrap();
    let d = queue.insert_task(&plain("d", "report"), now).unwrap();
    assert_eq!(queue.remove_tasks_of_type("report"), 2);
    assert_eq!(queue.len(), 2);
    assert_eq!(queue.find_task_by_id(b.id), None);
    assert_eq!(queue.find_task_by_id(d.id), None);
    let first = queue.fetch_and_touch_task("mail".to_string(), now).unwrap();
    let second = queue.fetch_and_touch_task("mail".to_string(), now).unwrap();
    assert_eq!(first.id, a.id);
    assert_eq!(second.id, c.id);
    let next = queue.insert_task(&plain("e", "mail"), now).unwrap();
    assert_eq!(next.id, 4);
}

#[test]
fn remove_all_scheduled_tasks_spares_what_is_due() {
    let mut queue = Queue::new();
    let now = Instant::new(100, 0);
    let due = queue.insert_task(&plain("a", "mail"), now).unwrap();
    let later = NewTask {
        metadata: b"b".to_vec(),
        task_type: "mail".to_string(),
        uniq: false,
        schedule: Some(Scheduled::ScheduleOnce(Instant::new(100, 1))),
    };
    let later = queue.schedule_task(&later, now).unwrap();
    assert_eq!(queue.remove_all_scheduled_tasks(now), 1);
    assert_eq!(queue.find_task_by_id(later.id), None);
    assert_eq!(queue.find_task_by_id(due.id), Some(due));
}

#[test]
fn the_registry_numbers_discriminators() {
    let mut registry = Registry::new();
    assert_eq!(registry.len(), 0);
    assert_eq!(registry.lookup("PepeTask"), None);
    assert_eq!(registry.register("PepeTask"), Some(0));
    assert_eq!(registry.register("AyratTask"), Some(1));
    assert_eq!(registry.register("PepeTask"), None);
    assert_eq!(registry.len(), 2);
    assert_eq!(registry.lookup("PepeTask"), Some(0));
    assert_eq!(registry.lookup("AyratTask"), Some(1));
    assert_eq!(registry.lookup("ScheduledPepeTask"), None);
}

#[test]
fn ids_run_out_at_the_last_one() {
    let mut queue = Queue::starting_at(u128::MAX - 1);
    let now = Instant::new(1, 0);
    let last = queue.insert_task(&unique("a", "mail"), now).unwrap();
    assert_eq!(last.id, u128::MAX - 1);
    assert_eq!(queue.insert_task(&plain("b", "mail"), now), Err(QueueError::IdsExhausted));
    assert_eq!(queue.insert_task(&unique("a", "mail"), now), Ok(last));
    assert_eq!(queue.len(), 1);
}
