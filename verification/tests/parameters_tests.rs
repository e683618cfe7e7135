use schedule_task::text::{split_once, str_equal, strip_prefix};
use schedule_task::Parameters;

fn pair(key: &str, value: &str) -> (String, String) {
    (key.to_string(), value.to_string())
}

#[test]
fn new_parameters_are_empty() {
    let p = Parameters::new();
    assert_eq!(p.len(), 0);
    assert!(!p.contains_key("a"));
    assert!(p.get("a").is_none());
    assert!(p.to_pairs().is_empty());
}

#[test]
fn insert_adds_a_new_key_at_the_end() {
    let mut p = Parameters::new();
    p.insert("path".to_string(), "/tmp".to_string());
    p.insert("mode".to_string(), "full".to_string());
    assert_eq!(p.len(), 2);
    assert_eq!(p.get("path"), Some(&"/tmp".to_string()));
    assert_eq!(p.get("mode"), Some(&"full".to_string()));
    assert_eq!(p.to_pairs(), vec![pair("path", "/tmp"), pair("mode", "full")]);
    assert_eq!(p.key_at(1), "mode");
    assert_eq!(p.value_at(1), "full");
}

#[test]
fn insert_replaces_the_value_of_a_known_key_in_place() {
    let mut p = Parameters::new();
    p.insert("a".to_string(), "1".to_string());
    p.insert("b".to_string(), "2".to_string());
    p.insert("a".to_string(), "3".to_string());
    assert_eq!(p.len(), 2);
    assert_eq!(p.get("a"), Some(&"3".to_string()));
    assert_eq!(p.to_pairs(), vec![pair("a", "3"), pair("b", "2")]);
}

#[test]
fn from_pairs_lets_the_later_pair_win() {
    let p = Parameters::from_pairs(vec![pair("k", "old"), pair("x", "y"), pair("k", "new")]);
    assert_eq!(p.len(), 2);
    assert_eq!(p.get("k"), Some(&"new".to_string()));
    assert_eq!(p.get("x"), Some(&"y".to_string()));
    assert!(p.contains_key("k"));
    assert!(!p.contains_key("K"));
}

#[test]
fn clone_copies_every_pair() {
    let p = Parameters::from_pairs(vec![pair("max_age_days", "7"), pair("", "")]);
    let q = p.clone();
    assert_eq!(q.to_pairs(), p.to_pairs());
    assert_eq!(q.get(""), Some(&String::new()));
}

#[test]
fn keys_are_told_apart_character_by_character() {
    let mut p = Parameters::new();
    p.insert("é".to_string(), "1".to_string());
    p.insert("e".to_string(), "2".to_string());
    p.insert("ab".to_string(), "3".to_string());
    p.insert("a".to_string(), "4".to_string());
    assert_eq!(p.len(), 4);
    assert_eq!(p.get("é"), Some(&"1".to_string()));
    assert_eq!(p.get("a"), Some(&"4".to_string()));
}

#[test]
fn str_equal_compares_whole_strings() {
    assert!(str_equal("", ""));
    assert!(str_equal("task", "task"));
    assert!(!str_equal("task", "tasks"));
    assert!(!str_equal("tasks", "task"));
    assert!(!str_equal("task", "tasK"));
    assert!(str_equal("päivä", "päivä"));
}

#[test]
fn strip_prefix_gives_what_follows() {
    assert_eq!(strip_prefix("--run-task=backup", "--run-task="), Some("backup"));
    assert_eq!(strip_prefix("--run-task=", "--run-task="), Some(""));
    assert_eq!(strip_prefix("--run-task", "--run-task="), None);
    assert_eq!(strip_prefix("x--run-task=a", "--run-task="), None);
    assert_eq!(strip_prefix("anything", ""), Some("anything"));
    assert_eq!(strip_prefix("éa", "é"), Some("a"));
}

#[test]
fn split_once_cuts_at_the_first_mark() {
    assert_eq!(split_once("key=value", '='), Some(("key", "value")));
    assert_eq!(split_once("a=b=c", '='), Some(("a", "b=c")));
    assert_eq!(split_once("=v", '='), Some(("", "v")));
    assert_eq!(split_once("k=", '='), Some(("k", "")));
    assert_eq!(split_once("novalue", '='), None);
    assert_eq!(split_once("", '='), None);
    assert_eq!(split_once("ключ=значение", '='), Some(("ключ", "значение")));
}
