use schedule_task::{Error, TaskInfo, TaskRegistry, TaskStatus, TriggerHandle, TriggerHandles};

fn record(id: &str, status: TaskStatus) -> TaskInfo {
    TaskInfo {
        task_id: id.to_string(),
        task_name: "job".to_string(),
        scheduled_time: "2030-01-01T00:00:00+00:00".to_string(),
        status,
        parameters: None,
    }
}

#[test]
fn insert_and_find_records() {
    let mut registry = TaskRegistry::new();
    assert_eq!(registry.len(), 0);
    assert!(!registry.contains("a"));
    registry.insert(record("a", TaskStatus::Scheduled));
    registry.insert(record("b", TaskStatus::Running));
    assert_eq!(registry.len(), 2);
    assert!(registry.contains("a"));
    assert!(!registry.contains("c"));
    assert_eq!(registry.get("b").unwrap().task_id, "b");
    assert!(registry.get("c").is_none());
    assert_eq!(registry.status("a"), Some(TaskStatus::Scheduled));
    assert_eq!(registry.status("c"), None);
}

#[test]
fn get_all_is_a_copy_in_order() {
    let mut registry = TaskRegistry::new();
    registry.insert(record("a", TaskStatus::Scheduled));
    registry.insert(record("b", TaskStatus::Scheduled));
    let all = registry.get_all();
    assert_eq!(all.len(), 2);
    assert_eq!(all[0].task_id, "a");
    assert_eq!(all[1].task_id, "b");
    registry.update_status("a", TaskStatus::Cancelled);
    assert_eq!(all[0].status, TaskStatus::Scheduled);
    assert_eq!(registry.get_all()[0].status, TaskStatus::Cancelled);
}

#[test]
fn update_status_takes_allowed_steps_only() {
    let mut registry = TaskRegistry::new();
    registry.insert(record("a", TaskStatus::Scheduled));
    assert!(!registry.update_status("a", TaskStatus::Completed));
    assert_eq!(registry.status("a"), Some(TaskStatus::Scheduled));
    assert!(!registry.update_status("a", TaskStatus::Scheduled));
    assert!(registry.update_status("a", TaskStatus::Running));
    assert!(!registry.update_status("a", TaskStatus::Cancelled));
    assert!(!registry.update_status("a", TaskStatus::Scheduled));
    assert_eq!(registry.status("a"), Some(TaskStatus::Running));
    assert!(registry.update_status("a", TaskStatus::Completed));
    for next in [
        TaskStatus::Scheduled,
        TaskStatus::Running,
        TaskStatus::Completed,
        TaskStatus::Failed,
        TaskStatus::Cancelled,
    ] {
        assert!(!registry.update_status("a", next));
        assert_eq!(registry.status("a"), Some(TaskStatus::Completed));
    }
}

#[test]
fn update_status_of_an_unknown_task_is_a_no_op() {
    let mut registry = TaskRegistry::new();
    registry.insert(record("a", TaskStatus::Scheduled));
    assert!(!registry.update_status("zz", TaskStatus::Running));
    assert_eq!(registry.len(), 1);
    assert_eq!(registry.status("a"), Some(TaskStatus::Scheduled));
}

#[test]
fn the_steps_of_a_status() {
    let all = [
        TaskStatus::Scheduled,
        TaskStatus::Running,
        TaskStatus::Completed,
        TaskStatus::Failed,
        TaskStatus::Cancelled,
    ];
    for from in all {
        for to in all {
            let allowed = matches!(
                (from, to),
                (TaskStatus::Scheduled, TaskStatus::Running)
                    | (TaskStatus::Scheduled, TaskStatus::Cancelled)
                    | (TaskStatus::Scheduled, TaskStatus::Failed)
                    | (TaskStatus::Running, TaskStatus::Completed)
                    | (TaskStatus::Running, TaskStatus::Failed)
            );
            assert_eq!(from.can_become(to), allowed);
        }
    }
    assert!(!TaskStatus::Scheduled.terminal());
    assert!(!TaskStatus::Running.terminal());
    assert!(TaskStatus::Completed.terminal());
    assert!(TaskStatus::Failed.terminal());
    assert!(TaskStatus::Cancelled.terminal());
}

#[test]
fn trigger_handles_hold_one_handle_for_each_task() {
    let mut handles = TriggerHandles::new();
    assert_eq!(handles.get("a"), None);
    handles.insert("a".to_string(), TriggerHandle::InProcess(1));
    handles.insert("b".to_string(), TriggerHandle::OsJob);
    handles.insert("a".to_string(), TriggerHandle::InProcess(2));
    assert_eq!(handles.get("a"), Some(TriggerHandle::InProcess(2)));
    assert_eq!(handles.get("b"), Some(TriggerHandle::OsJob));
    assert_eq!(handles.remove("a"), Some(TriggerHandle::InProcess(2)));
    assert_eq!(handles.remove("a"), None);
    assert_eq!(handles.get("a"), None);
    assert_eq!(handles.get("b"), Some(TriggerHandle::OsJob));
}

#[test]
fn every_error_has_its_message() {
    assert_eq!(Error::InvalidTimestamp.message(), "Invalid datetime format");
    assert_eq!(Error::DuplicateTaskId.message(), "Task identifier already in use");
    assert_eq!(
        Error::SchedulingBackendFailure.message(),
        "The trigger backend could not arm the trigger"
    );
    assert_eq!(
        Error::CancellationFailure.message(),
        "The trigger backend could not disarm the trigger"
    );
    assert_eq!(Error::UnknownTask.message(), "Unknown task");
}
