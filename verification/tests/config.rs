use dropwatch::config::{CopyTaskConf, MoveTaskConf, Rule, RunConfig, TaskConf, TryUnpackTaskConf};

fn copy_to(target: &str) -> TaskConf {
    TaskConf::Copy(CopyTaskConf { target: target.to_string() })
}

fn move_to(target: &str) -> TaskConf {
    TaskConf::Move(MoveTaskConf { target: target.to_string() })
}

fn rule(emit: Option<&str>, execute: Option<TaskConf>) -> Rule {
    Rule {
        test: ".*".to_string(),
        watch_dir: "/in".to_string(),
        emit: emit.map(|name| name.to_string()),
        priority: None,
        execute,
    }
}

#[test]
fn new_config_is_empty() {
    let config = RunConfig::new(2);
    assert_eq!(config.debounce_time(), 2);
    assert_eq!(config.rule_count(), 0);
    assert_eq!(config.rule(0), None);
    assert_eq!(config.task("any"), None);
}

#[test]
fn add_task_then_find_it() {
    let mut config = RunConfig::new(1);
    config.add_task("backup".to_string(), copy_to("/backup"));
    config.add_task("stage".to_string(), move_to("/stage"));
    assert_eq!(config.task("backup"), Some(&copy_to("/backup")));
    assert_eq!(config.task("stage"), Some(&move_to("/stage")));
    assert_eq!(config.task("other"), None);
}

#[test]
fn add_task_replaces_the_task_of_a_name() {
    let mut config = RunConfig::new(1);
    config.add_task("backup".to_string(), copy_to("/old"));
    config.add_task("stage".to_string(), move_to("/stage"));
    config.add_task("backup".to_string(), copy_to("/new"));
    assert_eq!(config.task("backup"), Some(&copy_to("/new")));
    assert_eq!(config.task("stage"), Some(&move_to("/stage")));
}

#[test]
fn rules_keep_their_order() {
    let mut config = RunConfig::new(1);
    config.add_rule(rule(Some("first"), None));
    config.add_rule(rule(Some("second"), None));
    assert_eq!(config.rule_count(), 2);
    assert_eq!(config.rule(0).unwrap().emit, Some("first".to_string()));
    assert_eq!(config.rule(1).unwrap().emit, Some("second".to_string()));
    assert_eq!(config.rule(2), None);
}

#[test]
fn resolve_prefers_the_task_of_the_rule() {
    let mut config = RunConfig::new(1);
    config.add_task("named".to_string(), copy_to("/named"));
    let both = rule(Some("named"), Some(move_to("/inline")));
    assert_eq!(config.resolve(&both), Some(&move_to("/inline")));
}

#[test]
fn resolve_falls_back_to_the_named_task() {
    let mut config = RunConfig::new(1);
    config.add_task("named".to_string(), copy_to("/named"));
    let named = rule(Some("named"), None);
    assert_eq!(config.resolve(&named), Some(&copy_to("/named")));
}

#[test]
fn resolve_finds_nothing_for_an_unknown_name() {
    let mut config = RunConfig::new(1);
    config.add_task("named".to_string(), copy_to("/named"));
    assert_eq!(config.resolve(&rule(Some("missing"), None)), None);
}

#[test]
fn resolve_finds_nothing_for_a_rule_without_task() {
    let config = RunConfig::new(1);
    assert_eq!(config.resolve(&rule(None, None)), None);
}

#[test]
fn tasks_clone_to_equal_values() {
    let tasks = [
        copy_to("/a"),
        move_to("/b"),
        TaskConf::TryUnpack(TryUnpackTaskConf { pwd: "/c".to_string() }),
    ];
    for task in tasks.iter() {
        assert_eq!(&task.clone(), task);
    }
    let full = rule(Some("x"), Some(copy_to("/a")));
    assert_eq!(full.clone(), full);
}
