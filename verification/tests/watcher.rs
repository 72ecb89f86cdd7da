use dropwatch::config::{CopyTaskConf, MoveTaskConf, Rule, RunConfig, TaskConf};
use dropwatch::dispatcher::{Dispatch, Scheduled};
use dropwatch::pattern::compile;
use dropwatch::watcher::{
    decide, transition, Decision, EventKind, EventOutcome, FsEvent, RuleWatcher, Signal, Skip,
    WatcherState,
};

fn copy_to(target: &str) -> TaskConf {
    TaskConf::Copy(CopyTaskConf { target: target.to_string() })
}

fn csv_rule(emit: Option<&str>, execute: Option<TaskConf>) -> Rule {
    Rule {
        test: "^report-.*\\.csv$".to_string(),
        watch_dir: "/in".to_string(),
        emit: emit.map(|name| name.to_string()),
        priority: Some(3),
        execute,
    }
}

fn event(kind: EventKind, paths: &[Option<&str>]) -> FsEvent {
    FsEvent { kind, paths: paths.iter().map(|p| p.map(|text| text.to_string())).collect() }
}

fn created(path: &str) -> FsEvent {
    event(EventKind::Create, &[Some(path)])
}

fn decide_with(rule: &Rule, config: &RunConfig, event: &FsEvent) -> Decision {
    decide(&compile(&rule.test).unwrap(), rule, config, event)
}

fn watching(rule: Rule, debounce_time: u32) -> RuleWatcher {
    let mut watcher = RuleWatcher::new(rule, debounce_time).unwrap();
    assert_eq!(watcher.signal(Signal::Registered), WatcherState::Watching);
    watcher
}

#[test]
fn decide_submits_a_matching_creation() {
    let rule = csv_rule(None, Some(copy_to("/out")));
    let decision = decide_with(&rule, &RunConfig::new(2), &created("/in/report-jan.csv"));
    assert_eq!(
        decision,
        Decision::Submit {
            path: "/in/report-jan.csv".to_string(),
            file_name: "report-jan.csv".to_string(),
            task: copy_to("/out"),
        }
    );
}

#[test]
fn decide_submits_a_matching_modification() {
    let rule = csv_rule(None, Some(copy_to("/out")));
    let modified = event(EventKind::Modify, &[Some("/in/report-q1.csv")]);
    assert!(matches!(decide_with(&rule, &RunConfig::new(2), &modified), Decision::Submit { .. }));
}

#[test]
fn decide_skips_other_kinds() {
    let rule = csv_rule(None, Some(copy_to("/out")));
    let removed = event(EventKind::Other, &[Some("/in/report-jan.csv")]);
    assert_eq!(decide_with(&rule, &RunConfig::new(2), &removed), Decision::Skip(Skip::OtherKind));
}

#[test]
fn decide_skips_an_event_without_paths() {
    let rule = csv_rule(None, Some(copy_to("/out")));
    let bare = event(EventKind::Create, &[]);
    assert_eq!(decide_with(&rule, &RunConfig::new(2), &bare), Decision::Skip(Skip::NoPath));
}

#[test]
fn decide_skips_a_path_that_is_not_text() {
    let rule = csv_rule(None, Some(copy_to("/out")));
    let odd = event(EventKind::Create, &[None, Some("/in/report-jan.csv")]);
    assert_eq!(decide_with(&rule, &RunConfig::new(2), &odd), Decision::Skip(Skip::NotText));
}

#[test]
fn decide_skips_a_path_without_file_name() {
    let rule = csv_rule(None, Some(copy_to("/out")));
    for path in ["/", "", "/in/.."] {
        assert_eq!(
            decide_with(&rule, &RunConfig::new(2), &created(path)),
            Decision::Skip(Skip::NoFileName)
        );
    }
}

#[test]
fn decide_skips_a_name_that_does_not_match() {
    let rule = csv_rule(None, Some(copy_to("/out")));
    assert_eq!(
        decide_with(&rule, &RunConfig::new(2), &created("/in/summary.csv")),
        Decision::Skip(Skip::NoMatch)
    );
}

#[test]
fn decide_matches_the_file_name_not_the_path() {
    let rule = csv_rule(None, Some(copy_to("/out")));
    let config = RunConfig::new(2);
    // The directory matches the pattern, the name does not.
    assert_eq!(
        decide_with(&rule, &config, &created("report-x.csv/other.txt")),
        Decision::Skip(Skip::NoMatch)
    );
    // The name matches, the path as a whole would not.
    assert!(matches!(
        decide_with(&rule, &config, &created("/deep/er/report-x.csv")),
        Decision::Submit { .. }
    ));
}

#[test]
fn decide_reads_only_the_first_path() {
    let rule = csv_rule(None, Some(copy_to("/out")));
    let two = event(EventKind::Create, &[Some("/in/other.txt"), Some("/in/report-jan.csv")]);
    assert_eq!(decide_with(&rule, &RunConfig::new(2), &two), Decision::Skip(Skip::NoMatch));
}

#[test]
fn decide_skips_a_match_without_task() {
    let config = RunConfig::new(2);
    let created = created("/in/report-jan.csv");
    assert_eq!(decide_with(&csv_rule(None, None), &config, &created), Decision::Skip(Skip::NoTask));
    assert_eq!(
        decide_with(&csv_rule(Some("missing"), None), &config, &created),
        Decision::Skip(Skip::NoTask)
    );
}

#[test]
fn decide_takes_the_named_task() {
    let mut config = RunConfig::new(2);
    config.add_task("backup".to_string(), copy_to("/backup"));
    let decision = decide_with(&csv_rule(Some("backup"), None), &config, &created("/in/report-a.csv"));
    assert!(matches!(decision, Decision::Submit { task, .. } if task == copy_to("/backup")));
}

#[test]
fn transitions_follow_the_life_of_a_watcher() {
    let (starting, watching) = (WatcherState::Starting, WatcherState::Watching);
    let (stopped, failed) = (WatcherState::Stopped, WatcherState::Failed);
    assert_eq!(transition(starting, Signal::Registered), watching);
    assert_eq!(transition(starting, Signal::RegistrationFailed), failed);
    assert_eq!(transition(watching, Signal::StreamClosed), stopped);
    assert_eq!(transition(watching, Signal::StreamError), failed);
    assert_eq!(transition(starting, Signal::StreamClosed), starting);
    assert_eq!(transition(starting, Signal::StreamError), starting);
    assert_eq!(transition(watching, Signal::Registered), watching);
    assert_eq!(transition(watching, Signal::RegistrationFailed), watching);
    let signals = [
        Signal::Registered,
        Signal::RegistrationFailed,
        Signal::StreamClosed,
        Signal::StreamError,
    ];
    for signal in signals {
        assert_eq!(transition(stopped, signal), stopped);
        assert_eq!(transition(failed, signal), failed);
    }
}

#[test]
fn new_watcher_is_starting() {
    let watcher = RuleWatcher::new(csv_rule(None, Some(copy_to("/out"))), 2).unwrap();
    assert_eq!(watcher.state(), WatcherState::Starting);
    assert_eq!(watcher.watch_dir(), "/in");
    assert_eq!(watcher.rule().priority, Some(3));
    assert!(!watcher.is_finished());
}

#[test]
fn new_watcher_refuses_an_invalid_pattern() {
    let mut rule = csv_rule(None, Some(copy_to("/out")));
    rule.test = "report-(".to_string();
    let error = RuleWatcher::new(rule, 2).err().unwrap();
    assert_eq!(error.pattern, "report-(");
}

#[test]
fn watcher_takes_no_event_before_it_watches() {
    let mut watcher = RuleWatcher::new(csv_rule(None, Some(copy_to("/out"))), 2).unwrap();
    let outcome = watcher.on_event(&RunConfig::new(2), &created("/in/report-jan.csv"), 0);
    assert_eq!(outcome, EventOutcome::Skipped(Skip::NotWatching));
    assert_eq!(watcher.on_timer("/in/report-jan.csv", 10_000), None);
}

#[test]
fn watcher_schedules_a_match() {
    let mut watcher = watching(csv_rule(None, Some(copy_to("/out"))), 2);
    let outcome = watcher.on_event(&RunConfig::new(2), &created("/in/report-jan.csv"), 5000);
    assert_eq!(
        outcome,
        EventOutcome::Scheduled {
            path: "/in/report-jan.csv".to_string(),
            scheduled: Scheduled { due: 7000, delay: 2000, replaced: false },
        }
    );
    assert_eq!(watcher.on_timer("/in/report-jan.csv", 6999), None);
    assert_eq!(
        watcher.on_timer("/in/report-jan.csv", 7000),
        Some(Dispatch {
            path: "/in/report-jan.csv".to_string(),
            file_name: "report-jan.csv".to_string(),
            task: copy_to("/out"),
        })
    );
}

#[test]
fn watcher_skips_what_does_not_match() {
    let mut watcher = watching(csv_rule(None, Some(copy_to("/out"))), 2);
    let outcome = watcher.on_event(&RunConfig::new(2), &created("/in/notes.txt"), 0);
    assert_eq!(outcome, EventOutcome::Skipped(Skip::NoMatch));
    assert_eq!(watcher.on_timer("/in/notes.txt", 10_000), None);
}

#[test]
fn watcher_stops_when_the_stream_closes() {
    let mut watcher = watching(csv_rule(None, Some(copy_to("/out"))), 2);
    assert_eq!(watcher.signal(Signal::StreamClosed), WatcherState::Stopped);
    assert!(watcher.is_finished());
    let outcome = watcher.on_event(&RunConfig::new(2), &created("/in/report-jan.csv"), 0);
    assert_eq!(outcome, EventOutcome::Skipped(Skip::NotWatching));
}

#[test]
fn watcher_fails_when_the_stream_breaks() {
    let mut watcher = watching(csv_rule(None, Some(copy_to("/out"))), 2);
    assert_eq!(watcher.signal(Signal::StreamError), WatcherState::Failed);
    assert!(watcher.is_finished());
    assert_eq!(watcher.signal(Signal::Registered), WatcherState::Failed);
}

#[test]
fn watcher_fails_when_registration_fails() {
    let mut watcher = RuleWatcher::new(csv_rule(None, Some(copy_to("/out"))), 2).unwrap();
    assert_eq!(watcher.signal(Signal::RegistrationFailed), WatcherState::Failed);
    assert!(watcher.is_finished());
}

#[test]
fn what_was_scheduled_still_runs_after_the_watch_has_ended() {
    let mut watcher = watching(csv_rule(None, Some(copy_to("/out"))), 1);
    watcher.on_event(&RunConfig::new(1), &created("/in/report-jan.csv"), 0);
    watcher.signal(Signal::StreamClosed);
    assert!(watcher.on_timer("/in/report-jan.csv", 1000).is_some());
}

#[test]
fn a_later_match_takes_the_task_of_its_own_time() {
    let mut config = RunConfig::new(1);
    config.add_task("route".to_string(), copy_to("/one"));
    let mut watcher = watching(csv_rule(Some("route"), None), 1);
    watcher.on_event(&config, &created("/in/report-jan.csv"), 0);
    config.add_task("route".to_string(), TaskConf::Move(MoveTaskConf { target: "/two".to_string() }));
    watcher.on_event(&config, &created("/in/report-feb.csv"), 0);
    let first = watcher.on_timer("/in/report-jan.csv", 1000).unwrap();
    let second = watcher.on_timer("/in/report-feb.csv", 1000).unwrap();
    assert_eq!(first.task, copy_to("/one"));
    assert_eq!(second.task, TaskConf::Move(MoveTaskConf { target: "/two".to_string() }));
}
