use schedule_task::{decode_event, event_from_fields, Actor, ActorMessage};

#[test]
fn decodes_a_full_event() {
    let event = decode_event(
        r#"{"task_name":"cleanup","task_id":"abc-1","parameters":{"max_age_days":"7","path":"/tmp"}}"#,
    );
    assert_eq!(event.task_name, "cleanup");
    assert_eq!(event.task_id, "abc-1");
    assert_eq!(event.parameters.len(), 2);
    assert_eq!(event.parameters.get("max_age_days"), Some(&"7".to_string()));
    assert_eq!(event.parameters.get("path"), Some(&"/tmp".to_string()));
}

#[test]
fn what_is_no_json_gives_an_empty_event() {
    let event = decode_event("task_name");
    assert_eq!(event.task_name, "");
    assert_eq!(event.task_id, "");
    assert_eq!(event.parameters.len(), 0);
    let event = decode_event("");
    assert_eq!(event.task_name, "");
}

#[test]
fn missing_and_mistyped_fields_are_empty() {
    let event = decode_event(r#"{"task_name":5,"parameters":["a"]}"#);
    assert_eq!(event.task_name, "");
    assert_eq!(event.task_id, "");
    assert_eq!(event.parameters.len(), 0);
    let event = decode_event(r#"["task_name"]"#);
    assert_eq!(event.task_name, "");
}

#[test]
fn a_parameter_that_is_no_string_is_the_empty_text() {
    let event = decode_event(r#"{"task_name":"t","task_id":"i","parameters":{"n":5,"s":"x","z":null}}"#);
    assert_eq!(event.parameters.len(), 3);
    assert_eq!(event.parameters.get("n"), Some(&String::new()));
    assert_eq!(event.parameters.get("s"), Some(&"x".to_string()));
    assert_eq!(event.parameters.get("z"), Some(&String::new()));
}

#[test]
fn event_from_fields_fills_in_what_is_missing() {
    let event = event_from_fields(None, None, None);
    assert_eq!(event.task_name, "");
    assert_eq!(event.task_id, "");
    assert_eq!(event.parameters.len(), 0);
    let event = event_from_fields(
        Some("backup".to_string()),
        Some("id-9".to_string()),
        Some(vec![
            ("k".to_string(), Some("1".to_string())),
            ("gone".to_string(), None),
            ("k".to_string(), Some("2".to_string())),
        ]),
    );
    assert_eq!(event.task_name, "backup");
    assert_eq!(event.task_id, "id-9");
    assert_eq!(event.parameters.len(), 2);
    assert_eq!(event.parameters.get("k"), Some(&"2".to_string()));
    assert_eq!(event.parameters.get("gone"), Some(&String::new()));
}

#[test]
fn the_actor_counts_up_from_one() {
    let mut actor = Actor::new();
    assert!(actor.has_next());
    assert_eq!(actor.handle_message(ActorMessage::GetUniqueId), 1);
    assert_eq!(actor.handle_message(ActorMessage::GetUniqueId), 2);
    assert_eq!(actor.handle_message(ActorMessage::GetUniqueId), 3);
}
