use chrono::Duration;
use chrono::SubsecRound;
use chrono::Utc;
use fang::instant::Instant;
use fang::queue::Queue;
use fang::runnable::NewTask;
use fang::runnable::COMMON_TYPE;
use fang::samples::AyratTask;
use fang::samples::PepeTask;
use fang::samples::ScheduledPepeTask;
use fang::task::FangTaskState;
use fang::task::Task;

fn payload(kind: &str, number: u16) -> Vec<u8> {
    let mut object = serde_json::Map::new();
    object.insert("type".to_string(), serde_json::Value::from(kind));
    object.insert("number".to_string(), serde_json::Value::from(number));
    serde_json::to_vec(&serde_json::Value::Object(object)).unwrap()
}

fn scheduled_payload(number: u16, datetime: &str) -> Vec<u8> {
    let mut object = serde_json::Map::new();
    object.insert("type".to_string(), serde_json::Value::from("ScheduledPepeTask"));
    object.insert("number".to_string(), serde_json::Value::from(number));
    object.insert("datetime".to_string(), serde_json::Value::from(datetime));
    serde_json::to_vec(&serde_json::Value::Object(object)).unwrap()
}

fn pepe(number: u16) -> NewTask {
    NewTask::describe(&PepeTask { number }, payload("PepeTask", number))
}

fn ayrat(number: u16) -> NewTask {
    NewTask::describe(&AyratTask { number }, payload("AyratTask", number))
}

fn scheduled_pepe(number: u16, datetime: &str) -> NewTask {
    let task = ScheduledPepeTask { number, datetime: datetime.to_string() };
    NewTask::describe(&task, scheduled_payload(number, datetime))
}

fn metadata_of(task: &Task) -> serde_json::Value {
    serde_json::from_slice(&task.metadata).unwrap()
}

fn now() -> Instant {
    let moment = Utc::now();
    Instant::new(moment.timestamp(), moment.timestamp_subsec_nanos())
}

#[test]
fn insert_task_test() {
    let task = pepe(10);

    let mut queue = Queue::new();

    let task = queue.insert_task(&task, now()).unwrap();

    let metadata = metadata_of(&task);
    let metadata = metadata.as_object().unwrap();
    let number = metadata["number"].as_u64();
    let type_task = metadata["type"].as_str();

    assert_eq!(task.error_message, None);
    assert_eq!(FangTaskState::New, task.state);
    assert_eq!(Some(10), number);
    assert_eq!(Some("PepeTask"), type_task);
}

#[test]
fn fetch_task_fetches_the_oldest_task() {
    let task1 = pepe(10);
    let task2 = pepe(11);

    let mut queue = Queue::new();

    let task1 = queue.insert_task(&task1, now()).unwrap();
    let _task2 = queue.insert_task(&task2, now()).unwrap();

    let found_task = queue.fetch_and_touch_task(COMMON_TYPE.to_string(), now()).unwrap();

    assert_eq!(found_task.id, task1.id);
}

#[test]
fn update_task_state_test() {
    let task = pepe(10);

    let mut queue = Queue::new();

    let task = queue.insert_task(&task, now()).unwrap();

    let found_task = queue.update_task_state(&task, FangTaskState::Finished, now()).unwrap();

    let metadata = metadata_of(&found_task);
    let metadata = metadata.as_object().unwrap();
    let number = metadata["number"].as_u64();
    let type_task = metadata["type"].as_str();

    assert_eq!(found_task.id, task.id);
    assert_eq!(found_task.state, FangTaskState::Finished);
    assert_eq!(Some(10), number);
    assert_eq!(Some("PepeTask"), type_task);
}

#[test]
fn fail_task_updates_state_field_and_sets_error_message() {
    let task = pepe(10);

    let mut queue = Queue::new();

    let task = queue.insert_task(&task, now()).unwrap();

    let error = "Failed";

    let found_task = queue.fail_task(&task, error, now()).unwrap();

    let metadata = metadata_of(&found_task);
    let metadata = metadata.as_object().unwrap();
    let number = metadata["number"].as_u64();
    let type_task = metadata["type"].as_str();

    assert_eq!(found_task.id, task.id);
    assert_eq!(found_task.state, FangTaskState::Failed);
    assert_eq!(Some(10), number);
    assert_eq!(Some("PepeTask"), type_task);
    assert_eq!(found_task.error_message.unwrap(), error);
}

#[test]
fn fetch_and_touch_updates_state() {
    let task = pepe(10);

    let mut queue = Queue::new();

    let task = queue.insert_task(&task, now()).unwrap();

    let found_task = queue.fetch_and_touch_task(COMMON_TYPE.to_string(), now()).unwrap();

    let metadata = metadata_of(&found_task);
    let metadata = metadata.as_object().unwrap();
    let number = metadata["number"].as_u64();
    let type_task = metadata["type"].as_str();

    assert_eq!(found_task.id, task.id);
    assert_eq!(found_task.state, FangTaskState::InProgress);
    assert_eq!(Some(10), number);
    assert_eq!(Some("PepeTask"), type_task);
}

#[test]
fn fetch_and_touch_returns_none() {
    let mut queue = Queue::new();

    let found_task = queue.fetch_and_touch_task(COMMON_TYPE.to_string(), now());

    assert_eq!(None, found_task);
}

#[test]
fn insert_task_uniq_test() {
    let task = pepe(10);

    let mut queue = Queue::new();

    let task1 = queue.insert_task(&task, now()).unwrap();
    let task2 = queue.insert_task(&task, now()).unwrap();
    assert_eq!(task2.id, task1.id);
}

#[test]
fn schedule_task_test() {
    let mut queue = Queue::new();
    let datetime = (Utc::now() + Duration::seconds(7)).round_subsecs(0);

    let task = scheduled_pepe(10, &datetime.to_string());
    let task = queue.schedule_task(&task, now()).unwrap();

    let metadata = metadata_of(&task);
    let metadata = metadata.as_object().unwrap();
    let number = metadata["number"].as_u64();
    let type_task = metadata["type"].as_str();

    assert_eq!(Some(10), number);
    assert_eq!(Some("ScheduledPepeTask"), type_task);
    assert_eq!(task.scheduled_at, Instant::new(datetime.timestamp(), 0));
}

#[test]
fn remove_all_scheduled_tasks_test() {
    let mut queue = Queue::new();
    let datetime = (Utc::now() + Duration::seconds(7)).round_subsecs(0);

    let task1 = scheduled_pepe(10, &datetime.to_string());

    let task2 = scheduled_pepe(11, &datetime.to_string());

    queue.schedule_task(&task1, now()).unwrap();
    queue.schedule_task(&task2, now()).unwrap();

    let number = queue.remove_all_scheduled_tasks(now());
    assert_eq!(2, number);
}

#[test]
fn remove_all_tasks_test() {
    let task1 = pepe(10);
    let task2 = pepe(11);

    let mut queue = Queue::new();

    let task1 = queue.insert_task(&task1, now()).unwrap();
    let task2 = queue.insert_task(&task2, now()).unwrap();

    let result = queue.remove_all_tasks();

    assert_eq!(2, result);
    assert_eq!(None, queue.find_task_by_id(task1.id));
    assert_eq!(None, queue.find_task_by_id(task2.id));
}

#[test]
fn remove_task() {
    let task1 = pepe(10);
    let task2 = pepe(11);

    let mut queue = Queue::new();

    let task1 = queue.insert_task(&task1, now()).unwrap();
    let task2 = queue.insert_task(&task2, now()).unwrap();

    assert!(queue.find_task_by_id(task1.id).is_some());
    assert!(queue.find_task_by_id(task2.id).is_some());

    queue.remove_task(task1.id);

    assert!(queue.find_task_by_id(task1.id).is_none());
    assert!(queue.find_task_by_id(task2.id).is_some());
}

#[test]
fn remove_task_of_type() {
    let task1 = pepe(10);
    let task2 = ayrat(10);

    let mut queue = Queue::new();

    let task1 = queue.insert_task(&task1, now()).unwrap();
    let task2 = queue.insert_task(&task2, now()).unwrap();

    assert!(queue.find_task_by_id(task1.id).is_some());
    assert!(queue.find_task_by_id(task2.id).is_some());

    queue.remove_tasks_of_type("weirdo");

    assert!(queue.find_task_by_id(task1.id).is_some());
    assert!(queue.find_task_by_id(task2.id).is_none());
}

#[test]
fn remove_task_by_metadata() {
    let m_task1 = pepe(10);
    let m_task2 = pepe(11);
    let m_task3 = ayrat(10);

    let mut queue = Queue::new();

    let task1 = queue.insert_task(&m_task1, now()).unwrap();
    let task2 = queue.insert_task(&m_task2, now()).unwrap();
    let task3 = queue.insert_task(&m_task3, now()).unwrap();

    assert!(queue.find_task_by_id(task1.id).is_some());
    assert!(queue.find_task_by_id(task2.id).is_some());
    assert!(queue.find_task_by_id(task3.id).is_some());

    queue.remove_task_by_metadata(&m_task1.metadata);

    assert!(queue.find_task_by_id(task1.id).is_none());
    assert!(queue.find_task_by_id(task2.id).is_some());
    assert!(queue.find_task_by_id(task3.id).is_some());
}
