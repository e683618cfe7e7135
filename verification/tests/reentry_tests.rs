use schedule_task::{check_scheduled_task_args, job_name, relaunch_arguments, Parameters};

fn args(list: &[&str]) -> Vec<String> {
    list.iter().map(|a| a.to_string()).collect()
}

#[test]
fn no_run_task_flag_means_an_ordinary_launch() {
    assert!(check_scheduled_task_args(&args(&[])).is_none());
    assert!(check_scheduled_task_args(&args(&["app", "--verbose"])).is_none());
    assert!(check_scheduled_task_args(&args(&["app", "--task-param=a=b"])).is_none());
    assert!(check_scheduled_task_args(&args(&["app", "--run-task"])).is_none());
}

#[test]
fn run_task_flag_names_the_task() {
    let (name, parameters) = check_scheduled_task_args(&args(&["app", "--run-task=backup"])).unwrap();
    assert_eq!(name, "backup");
    assert_eq!(parameters.len(), 0);
}

#[test]
fn task_params_are_collected() {
    let found = check_scheduled_task_args(&args(&[
        "app",
        "--run-task=cleanup",
        "--task-param=max_age_days=7",
        "--task-param=path=/tmp/a=b",
    ]));
    let (name, parameters) = found.unwrap();
    assert_eq!(name, "cleanup");
    assert_eq!(parameters.len(), 2);
    assert_eq!(parameters.get("max_age_days"), Some(&"7".to_string()));
    assert_eq!(parameters.get("path"), Some(&"/tmp/a=b".to_string()));
}

#[test]
fn the_last_flag_wins() {
    let found = check_scheduled_task_args(&args(&[
        "--task-param=k=1",
        "--run-task=first",
        "--task-param=k=2",
        "--run-task=second",
    ]));
    let (name, parameters) = found.unwrap();
    assert_eq!(name, "second");
    assert_eq!(parameters.len(), 1);
    assert_eq!(parameters.get("k"), Some(&"2".to_string()));
}

#[test]
fn a_task_param_without_a_value_sign_is_passed_over() {
    let found = check_scheduled_task_args(&args(&[
        "--run-task=report",
        "--task-param=novalue",
        "--task-param==empty-key",
        "--task-param=empty-value=",
    ]));
    let (name, parameters) = found.unwrap();
    assert_eq!(name, "report");
    assert_eq!(parameters.len(), 2);
    assert_eq!(parameters.get(""), Some(&"empty-key".to_string()));
    assert_eq!(parameters.get("empty-value"), Some(&String::new()));
    assert!(parameters.get("novalue").is_none());
}

#[test]
fn an_empty_task_name_is_still_a_task() {
    let (name, _) = check_scheduled_task_args(&args(&["--run-task="])).unwrap();
    assert_eq!(name, "");
}

#[test]
fn relaunch_arguments_spell_the_task_out() {
    let mut parameters = Parameters::new();
    parameters.insert("max_age_days".to_string(), "7".to_string());
    parameters.insert("path".to_string(), "/var/tmp".to_string());
    let made = relaunch_arguments("cleanup", &parameters);
    assert_eq!(
        made,
        args(&["--run-task=cleanup", "--task-param=max_age_days=7", "--task-param=path=/var/tmp"])
    );
    assert_eq!(relaunch_arguments("backup", &Parameters::new()), args(&["--run-task=backup"]));
}

#[test]
fn relaunch_arguments_are_read_back_as_the_same_task() {
    let mut parameters = Parameters::new();
    parameters.insert("email".to_string(), "admin@example.com".to_string());
    parameters.insert("note".to_string(), "a=b c".to_string());
    parameters.insert("empty".to_string(), String::new());
    let made = relaunch_arguments("send_report", &parameters);
    let (name, read) = check_scheduled_task_args(&made).unwrap();
    assert_eq!(name, "send_report");
    assert_eq!(read.to_pairs(), parameters.to_pairs());
}

#[test]
fn a_key_with_a_value_sign_does_not_come_back() {
    let mut parameters = Parameters::new();
    parameters.insert("a=b".to_string(), "c".to_string());
    let made = relaunch_arguments("t", &parameters);
    let (_, read) = check_scheduled_task_args(&made).unwrap();
    assert_eq!(read.get("a"), Some(&"b=c".to_string()));
    assert!(read.get("a=b").is_none());
}

#[test]
fn job_name_holds_the_task_id() {
    assert_eq!(job_name("1234-abcd"), "scheduled-task-1234-abcd");
    assert_eq!(job_name(""), "scheduled-task-");
    assert_ne!(job_name("a"), job_name("b"));
}
