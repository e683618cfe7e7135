use schedule_task::clock::parse_timestamp;
use schedule_task::{
    CancelStep, CancelTaskRequest, Delay, Error, Instant, Parameters, PingRequest,
    ScheduleTask, ScheduleTaskRequest, ScheduleTime, TaskStatus, TriggerHandle,
};

fn at_now() -> Instant {
    Instant { secs: 1_800_000_000, nanos: 500 }
}

fn request(name: &str, time: ScheduleTime, parameters: Option<Parameters>) -> ScheduleTaskRequest {
    ScheduleTaskRequest { task_name: name.to_string(), schedule_time: time, parameters }
}

fn cleanup_parameters() -> Parameters {
    let mut p = Parameters::new();
    p.insert("max_age_days".to_string(), "7".to_string());
    p
}

fn status_of(engine: &ScheduleTask, task_id: &str) -> Option<TaskStatus> {
    let tasks = engine.list_tasks().unwrap().tasks;
    tasks.iter().find(|t| t.task_id == task_id).map(|t| t.status)
}

#[test]
fn ping_answers_with_the_value() {
    let engine = ScheduleTask::new();
    let response = engine.ping(PingRequest { value: Some("hello".to_string()) }).unwrap();
    assert_eq!(response.value, Some("hello".to_string()));
    let response = engine.ping(PingRequest { value: None }).unwrap();
    assert_eq!(response.value, None);
}

#[test]
fn a_new_engine_lists_nothing() {
    let engine = ScheduleTask::new();
    assert!(engine.list_tasks().unwrap().tasks.is_empty());
}

#[test]
fn schedule_then_list_shows_the_task_once_as_scheduled() {
    let mut engine = ScheduleTask::new();
    let arm = engine
        .schedule_task_at(
            request("cleanup", ScheduleTime::Duration(60), Some(cleanup_parameters())),
            at_now(),
            "task-1".to_string(),
        )
        .unwrap();
    assert_eq!(arm.task_id, "task-1");
    assert_eq!(arm.fire_at, Instant { secs: 1_800_000_060, nanos: 500 });
    assert_eq!(arm.delay, Delay { secs: 60, nanos: 0 });
    let tasks = engine.list_tasks().unwrap().tasks;
    assert_eq!(tasks.len(), 1);
    assert_eq!(tasks[0].task_id, "task-1");
    assert_eq!(tasks[0].task_name, "cleanup");
    assert_eq!(tasks[0].status, TaskStatus::Scheduled);
    assert_eq!(parse_timestamp(&tasks[0].scheduled_time), Ok(arm.fire_at));
    let parameters = tasks[0].parameters.as_ref().unwrap();
    assert_eq!(parameters.get("max_age_days"), Some(&"7".to_string()));
}

#[test]
fn schedule_with_a_datetime_fires_at_that_instant() {
    let mut engine = ScheduleTask::new();
    let arm = engine
        .schedule_task_at(
            request("backup", ScheduleTime::DateTime("2027-01-15T10:40:01Z".to_string()), None),
            at_now(),
            "task-2".to_string(),
        )
        .unwrap();
    assert_eq!(arm.fire_at, Instant { secs: 1_800_009_601, nanos: 0 });
    assert_eq!(arm.delay, Delay { secs: 9_600, nanos: 999_999_500 });
    let tasks = engine.list_tasks().unwrap().tasks;
    assert_eq!(parse_timestamp(&tasks[0].scheduled_time), Ok(arm.fire_at));
    assert!(tasks[0].parameters.is_none());
}

#[test]
fn schedule_for_a_past_instant_has_no_delay() {
    let mut engine = ScheduleTask::new();
    let arm = engine
        .schedule_task_at(
            request("backup", ScheduleTime::DateTime("2001-01-01T00:00:00Z".to_string()), None),
            at_now(),
            "old".to_string(),
        )
        .unwrap();
    assert_eq!(arm.delay, Delay { secs: 0, nanos: 0 });
    assert_eq!(status_of(&engine, "old"), Some(TaskStatus::Scheduled));
}

#[test]
fn schedule_with_an_unreadable_datetime_fails_and_leaves_no_record() {
    let mut engine = ScheduleTask::new();
    let failed = engine.schedule_task_at(
        request("cleanup", ScheduleTime::DateTime("not-a-date".to_string()), None),
        at_now(),
        "task-3".to_string(),
    );
    assert_eq!(failed.unwrap_err(), Error::InvalidTimestamp);
    assert!(engine.list_tasks().unwrap().tasks.is_empty());
    let failed = engine.schedule_task(request(
        "cleanup",
        ScheduleTime::DateTime("not-a-date".to_string()),
        None,
    ));
    assert_eq!(failed.unwrap_err(), Error::InvalidTimestamp);
    assert!(engine.list_tasks().unwrap().tasks.is_empty());
}

#[test]
fn schedule_under_a_used_identifier_is_refused() {
    let mut engine = ScheduleTask::new();
    engine
        .schedule_task_at(request("a", ScheduleTime::Duration(1), None), at_now(), "same".to_string())
        .unwrap();
    let failed = engine.schedule_task_at(
        request("b", ScheduleTime::Duration(2), None),
        at_now(),
        "same".to_string(),
    );
    assert_eq!(failed.unwrap_err(), Error::DuplicateTaskId);
    let tasks = engine.list_tasks().unwrap().tasks;
    assert_eq!(tasks.len(), 1);
    assert_eq!(tasks[0].task_name, "a");
}

#[test]
fn an_unreadable_datetime_is_reported_before_a_used_identifier() {
    let mut engine = ScheduleTask::new();
    engine
        .schedule_task_at(request("a", ScheduleTime::Duration(1), None), at_now(), "same".to_string())
        .unwrap();
    let failed = engine.schedule_task_at(
        request("b", ScheduleTime::DateTime("tomorrow".to_string()), None),
        at_now(),
        "same".to_string(),
    );
    assert_eq!(failed.unwrap_err(), Error::InvalidTimestamp);
}

#[test]
fn schedule_task_draws_identifiers_of_its_own() {
    let mut engine = ScheduleTask::new();
    let first = engine.schedule_task(request("a", ScheduleTime::Duration(5), None)).unwrap();
    let second = engine.schedule_task(request("a", ScheduleTime::Duration(5), None)).unwrap();
    assert_ne!(first.task_id, second.task_id);
    assert_eq!(first.task_id.len(), 36);
    assert!(first.delay.secs <= 5);
    assert!(first.delay.secs >= 4);
    let tasks = engine.list_tasks().unwrap().tasks;
    assert_eq!(tasks.len(), 2);
    assert_eq!(tasks[0].task_id, first.task_id);
    assert_eq!(tasks[1].task_id, second.task_id);
    assert_eq!(parse_timestamp(&tasks[0].scheduled_time), Ok(first.fire_at));
}

#[test]
fn a_hundred_schedules_give_a_hundred_distinct_tasks() {
    let mut engine = ScheduleTask::new();
    let mut ids: Vec<String> = Vec::new();
    for i in 0..100u64 {
        let arm = engine.schedule_task(request("job", ScheduleTime::Duration(i), None)).unwrap();
        assert!(!ids.contains(&arm.task_id));
        ids.push(arm.task_id);
    }
    let tasks = engine.list_tasks().unwrap().tasks;
    assert_eq!(tasks.len(), 100);
    for (i, task) in tasks.iter().enumerate() {
        assert_eq!(task.task_id, ids[i]);
        assert_eq!(task.status, TaskStatus::Scheduled);
    }
}

#[test]
fn the_cleanup_task_runs_once_and_completes() {
    let mut engine = ScheduleTask::new();
    let arm = engine
        .schedule_task_at(
            request("cleanup", ScheduleTime::Duration(1), Some(cleanup_parameters())),
            at_now(),
            "c-1".to_string(),
        )
        .unwrap();
    assert_eq!(arm.delay, Delay { secs: 1, nanos: 0 });
    let response = engine.trigger_armed("c-1", Ok(TriggerHandle::InProcess(77)));
    assert!(response.success);
    assert_eq!(response.task_id, "c-1");
    assert_eq!(response.message, Some("Task scheduled successfully".to_string()));

    let fired = engine.trigger_fired("c-1").unwrap();
    assert_eq!(fired.task_id, "c-1");
    assert_eq!(fired.task_name, "cleanup");
    assert_eq!(fired.parameters.to_pairs(), cleanup_parameters().to_pairs());
    assert_eq!(status_of(&engine, "c-1"), Some(TaskStatus::Running));

    assert!(engine.trigger_fired("c-1").is_none());
    engine.task_finished("c-1", Ok(()));
    assert_eq!(status_of(&engine, "c-1"), Some(TaskStatus::Completed));
    assert!(engine.trigger_fired("c-1").is_none());
    assert_eq!(status_of(&engine, "c-1"), Some(TaskStatus::Completed));
}

#[test]
fn a_task_without_parameters_is_handed_none() {
    let mut engine = ScheduleTask::new();
    engine
        .schedule_task_at(request("backup", ScheduleTime::Duration(1), None), at_now(), "b".to_string())
        .unwrap();
    let fired = engine.trigger_fired("b").unwrap();
    assert_eq!(fired.parameters.len(), 0);
}

#[test]
fn a_handler_error_marks_the_task_failed() {
    let mut engine = ScheduleTask::new();
    engine
        .schedule_task_at(request("nope", ScheduleTime::Duration(1), None), at_now(), "f".to_string())
        .unwrap();
    assert!(engine.trigger_fired("f").is_some());
    engine.task_finished("f", Err(Error::UnknownTask));
    assert_eq!(status_of(&engine, "f"), Some(TaskStatus::Failed));
    engine.task_finished("f", Ok(()));
    assert_eq!(status_of(&engine, "f"), Some(TaskStatus::Failed));
}

#[test]
fn a_handler_result_for_a_task_that_is_not_running_changes_nothing() {
    let mut engine = ScheduleTask::new();
    engine
        .schedule_task_at(request("t", ScheduleTime::Duration(1), None), at_now(), "s".to_string())
        .unwrap();
    engine.task_finished("s", Err(Error::UnknownTask));
    assert_eq!(status_of(&engine, "s"), Some(TaskStatus::Scheduled));
    engine.task_finished("s", Ok(()));
    assert_eq!(status_of(&engine, "s"), Some(TaskStatus::Scheduled));
    engine.task_finished("unknown", Ok(()));
    assert_eq!(engine.list_tasks().unwrap().tasks.len(), 1);
}

#[test]
fn a_trigger_that_cannot_be_armed_fails_the_task_softly() {
    let mut engine = ScheduleTask::new();
    engine
        .schedule_task_at(request("t", ScheduleTime::Duration(9), None), at_now(), "x".to_string())
        .unwrap();
    let response = engine.trigger_armed("x", Err(Error::SchedulingBackendFailure));
    assert!(!response.success);
    assert_eq!(response.task_id, "x");
    assert_eq!(
        response.message,
        Some("Failed to schedule task: The trigger backend could not arm the trigger".to_string())
    );
    assert_eq!(status_of(&engine, "x"), Some(TaskStatus::Failed));
    assert!(engine.trigger_fired("x").is_none());
}

#[test]
fn cancelling_a_scheduled_task_hands_its_trigger_out_and_keeps_it_from_running() {
    let mut engine = ScheduleTask::new();
    engine
        .schedule_task_at(
            request("far", ScheduleTime::DateTime("2999-01-01T00:00:00Z".to_string()), None),
            at_now(),
            "far-1".to_string(),
        )
        .unwrap();
    engine.trigger_armed("far-1", Ok(TriggerHandle::InProcess(5)));
    let step = engine.cancel_task(CancelTaskRequest { task_id: "far-1".to_string() });
    match step {
        CancelStep::Disarm(handle) => assert_eq!(handle, TriggerHandle::InProcess(5)),
        CancelStep::Done(_) => panic!("the trigger was live"),
    }
    assert_eq!(status_of(&engine, "far-1"), Some(TaskStatus::Cancelled));
    assert!(engine.trigger_fired("far-1").is_none());
    engine.task_finished("far-1", Ok(()));
    assert_eq!(status_of(&engine, "far-1"), Some(TaskStatus::Cancelled));
    let again = engine.cancel_task(CancelTaskRequest { task_id: "far-1".to_string() });
    match again {
        CancelStep::Done(response) => assert!(response.success),
        CancelStep::Disarm(_) => panic!("the trigger was handed out before"),
    }
}

#[test]
fn cancelling_an_os_job_hands_the_job_out() {
    let mut engine = ScheduleTask::new();
    engine
        .schedule_task_at(request("t", ScheduleTime::Duration(30), None), at_now(), "os".to_string())
        .unwrap();
    engine.trigger_armed("os", Ok(TriggerHandle::OsJob));
    match engine.cancel_task(CancelTaskRequest { task_id: "os".to_string() }) {
        CancelStep::Disarm(handle) => assert_eq!(handle, TriggerHandle::OsJob),
        CancelStep::Done(_) => panic!("the job was live"),
    }
}

#[test]
fn cancelling_an_unknown_task_succeeds() {
    let mut engine = ScheduleTask::new();
    let step = engine.cancel_task(CancelTaskRequest { task_id: "nobody".to_string() });
    match step {
        CancelStep::Done(response) => {
            assert!(response.success);
            assert_eq!(response.message, Some("Task cancelled successfully".to_string()));
        },
        CancelStep::Disarm(_) => panic!("no trigger was armed"),
    }
    assert!(engine.list_tasks().unwrap().tasks.is_empty());
}

#[test]
fn cancelling_a_task_without_a_trigger_is_done_at_once() {
    let mut engine = ScheduleTask::new();
    engine
        .schedule_task_at(request("t", ScheduleTime::Duration(30), None), at_now(), "n".to_string())
        .unwrap();
    match engine.cancel_task(CancelTaskRequest { task_id: "n".to_string() }) {
        CancelStep::Done(response) => assert!(response.success),
        CancelStep::Disarm(_) => panic!("no trigger was armed"),
    }
    assert_eq!(status_of(&engine, "n"), Some(TaskStatus::Cancelled));
}

#[test]
fn cancelling_a_running_or_finished_task_leaves_its_status() {
    let mut engine = ScheduleTask::new();
    engine
        .schedule_task_at(request("t", ScheduleTime::Duration(1), None), at_now(), "r".to_string())
        .unwrap();
    engine.trigger_armed("r", Ok(TriggerHandle::InProcess(1)));
    engine.trigger_fired("r");
    match engine.cancel_task(CancelTaskRequest { task_id: "r".to_string() }) {
        CancelStep::Done(response) => assert!(response.success),
        CancelStep::Disarm(_) => panic!("the trigger had fired"),
    }
    assert_eq!(status_of(&engine, "r"), Some(TaskStatus::Running));
    engine.task_finished("r", Ok(()));
    engine.cancel_task(CancelTaskRequest { task_id: "r".to_string() });
    assert_eq!(status_of(&engine, "r"), Some(TaskStatus::Completed));
}

#[test]
fn cancel_response_follows_the_backend() {
    let ok = ScheduleTask::cancel_response(Ok(()));
    assert!(ok.success);
    assert_eq!(ok.message, Some("Task cancelled successfully".to_string()));
    let failed = ScheduleTask::cancel_response(Err(Error::CancellationFailure));
    assert!(!failed.success);
    assert_eq!(
        failed.message,
        Some("Failed to cancel task: The trigger backend could not disarm the trigger".to_string())
    );
}

#[test]
fn an_armed_trigger_for_a_task_that_no_longer_waits_is_not_kept() {
    let mut engine = ScheduleTask::new();
    engine
        .schedule_task_at(request("t", ScheduleTime::Duration(1), None), at_now(), "late".to_string())
        .unwrap();
    engine.cancel_task(CancelTaskRequest { task_id: "late".to_string() });
    let response = engine.trigger_armed("late", Ok(TriggerHandle::InProcess(3)));
    assert!(response.success);
    match engine.cancel_task(CancelTaskRequest { task_id: "late".to_string() }) {
        CancelStep::Done(_) => {},
        CancelStep::Disarm(_) => panic!("the trigger was not kept"),
    }
    let response = engine.trigger_armed("ghost", Ok(TriggerHandle::InProcess(4)));
    assert!(response.success);
    assert!(engine.list_tasks().unwrap().tasks.is_empty() == false);
}

#[test]
fn tasks_are_listed_in_the_order_they_came() {
    let mut engine = ScheduleTask::new();
    for id in ["one", "two", "three"] {
        engine
            .schedule_task_at(request(id, ScheduleTime::Duration(1), None), at_now(), id.to_string())
            .unwrap();
    }
    engine.trigger_fired("two");
    let tasks = engine.list_tasks().unwrap().tasks;
    let ids: Vec<&str> = tasks.iter().map(|t| t.task_id.as_str()).collect();
    assert_eq!(ids, vec!["one", "two", "three"]);
    assert_eq!(tasks[1].status, TaskStatus::Running);
    assert_eq!(tasks[0].status, TaskStatus::Scheduled);
}
