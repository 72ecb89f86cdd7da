use dropwatch::config::{CopyTaskConf, MoveTaskConf, Rule, RunConfig, TaskConf};
use dropwatch::dispatcher::Scheduled;
use dropwatch::engine::{Engine, EnginePhase, StartupError};
use dropwatch::watcher::{EventKind, EventOutcome, FsEvent, Signal, Skip, WatcherState};

fn copy_to(target: &str) -> TaskConf {
    TaskConf::Copy(CopyTaskConf { target: target.to_string() })
}

fn rule(test: &str, watch_dir: &str, execute: TaskConf) -> Rule {
    Rule {
        test: test.to_string(),
        watch_dir: watch_dir.to_string(),
        emit: None,
        priority: None,
        execute: Some(execute),
    }
}

fn config_of(tests: &[&str]) -> RunConfig {
    let mut config = RunConfig::new(2);
    for (i, test) in tests.iter().enumerate() {
        config.add_rule(rule(test, &format!("/in{}", i), copy_to("/out")));
    }
    config
}

fn created(path: &str) -> FsEvent {
    FsEvent { kind: EventKind::Create, paths: vec![Some(path.to_string())] }
}

fn running(config: &RunConfig) -> Engine {
    let mut engine = Engine::new(config).unwrap();
    for index in 0..engine.watcher_count() {
        engine.signal(index, Signal::Registered);
    }
    assert_eq!(engine.phase(), EnginePhase::Running);
    engine
}

fn state_of(engine: &Engine, index: usize) -> WatcherState {
    engine.watcher(index).unwrap().state()
}

#[test]
fn engine_has_one_watcher_per_rule() {
    let engine = Engine::new(&config_of(&["a", "b", "c"])).unwrap();
    assert_eq!(engine.watcher_count(), 3);
    assert_eq!(engine.phase(), EnginePhase::Starting);
    for index in 0..3 {
        let watcher = engine.watcher(index).unwrap();
        assert_eq!(watcher.state(), WatcherState::Starting);
        assert_eq!(watcher.watch_dir(), format!("/in{}", index));
    }
    assert!(engine.watcher(3).is_none());
    assert!(!engine.is_finished());
}

#[test]
fn engine_without_rules_runs_and_is_finished() {
    let engine = Engine::new(&RunConfig::new(2)).unwrap();
    assert_eq!(engine.watcher_count(), 0);
    assert_eq!(engine.phase(), EnginePhase::Running);
    assert!(engine.is_finished());
}

#[test]
fn invalid_pattern_keeps_the_engine_from_starting() {
    let config = config_of(&["^a$", "b(", "c", "d["]);
    match Engine::new(&config) {
        Err(StartupError::InvalidPattern { rule, error }) => {
            assert_eq!(rule, 1);
            assert_eq!(error.pattern, "b(");
        }
        Ok(_) => panic!("the engine started on an invalid pattern"),
    }
}

#[test]
fn engine_runs_when_every_directory_is_registered() {
    let mut engine = Engine::new(&config_of(&["a", "b"])).unwrap();
    assert_eq!(engine.signal(1, Signal::Registered), EnginePhase::Starting);
    assert_eq!(state_of(&engine, 1), WatcherState::Watching);
    assert_eq!(engine.signal(0, Signal::Registered), EnginePhase::Running);
}

#[test]
fn engine_takes_no_event_before_it_runs() {
    let config = config_of(&["a", "b"]);
    let mut engine = Engine::new(&config).unwrap();
    engine.signal(0, Signal::Registered);
    let outcome = engine.on_event(&config, 0, &created("/in0/a"), 0);
    assert_eq!(outcome, EventOutcome::Skipped(Skip::NotRunning));
    assert_eq!(engine.on_timer(0, "/in0/a", 10_000), None);
}

#[test]
fn registration_failure_at_startup_ends_the_engine() {
    let config = config_of(&["a", "b"]);
    let mut engine = Engine::new(&config).unwrap();
    engine.signal(0, Signal::Registered);
    assert_eq!(engine.signal(1, Signal::RegistrationFailed), EnginePhase::Aborted);
    assert_eq!(state_of(&engine, 1), WatcherState::Failed);
    assert!(engine.is_finished());
    // Given up for good: nothing moves any more.
    assert_eq!(engine.signal(0, Signal::StreamClosed), EnginePhase::Aborted);
    assert_eq!(state_of(&engine, 0), WatcherState::Watching);
    assert_eq!(
        engine.on_event(&config, 0, &created("/in0/a"), 0),
        EventOutcome::Skipped(Skip::NotRunning)
    );
}

#[test]
fn failure_of_a_running_watcher_is_its_own() {
    let config = config_of(&["a", "b"]);
    let mut engine = running(&config);
    assert_eq!(engine.signal(0, Signal::StreamError), EnginePhase::Running);
    assert_eq!(state_of(&engine, 0), WatcherState::Failed);
    assert_eq!(state_of(&engine, 1), WatcherState::Watching);
    assert!(!engine.is_finished());
    assert!(matches!(
        engine.on_event(&config, 1, &created("/in1/b"), 0),
        EventOutcome::Scheduled { .. }
    ));
    assert_eq!(
        engine.on_event(&config, 0, &created("/in0/a"), 0),
        EventOutcome::Skipped(Skip::NotWatching)
    );
}

#[test]
fn engine_is_finished_when_every_watcher_has_ended() {
    let mut engine = running(&config_of(&["a", "b"]));
    engine.signal(0, Signal::StreamClosed);
    assert!(!engine.is_finished());
    engine.signal(1, Signal::StreamError);
    assert!(engine.is_finished());
    assert_eq!(engine.phase(), EnginePhase::Running);
}

#[test]
fn inputs_for_a_watcher_that_is_not_there_change_nothing() {
    let config = config_of(&["a"]);
    let mut engine = running(&config);
    assert_eq!(engine.signal(7, Signal::StreamError), EnginePhase::Running);
    assert_eq!(
        engine.on_event(&config, 7, &created("/in0/a"), 0),
        EventOutcome::Skipped(Skip::NoSuchRule)
    );
    assert_eq!(engine.on_timer(7, "/in0/a", 0), None);
    assert_eq!(state_of(&engine, 0), WatcherState::Watching);
}

#[test]
fn watchers_keep_their_own_paths() {
    let mut config = RunConfig::new(1);
    config.add_rule(rule("\\.csv$", "/in", copy_to("/csv")));
    config.add_rule(rule("^report", "/in", TaskConf::Move(MoveTaskConf { target: "/reports".to_string() })));
    let mut engine = running(&config);
    // Both rules watch the same directory and match the same file.
    let event = created("/in/report.csv");
    assert!(matches!(engine.on_event(&config, 0, &event, 0), EventOutcome::Scheduled { .. }));
    assert_eq!(
        engine.on_event(&config, 1, &event, 400),
        EventOutcome::Scheduled {
            path: "/in/report.csv".to_string(),
            scheduled: Scheduled { due: 1400, delay: 1000, replaced: false },
        }
    );
    assert_eq!(engine.on_timer(1, "/in/report.csv", 1000), None);
    let first = engine.on_timer(0, "/in/report.csv", 1000).unwrap();
    assert_eq!(first.task, copy_to("/csv"));
    let second = engine.on_timer(1, "/in/report.csv", 1400).unwrap();
    assert_eq!(second.task, TaskConf::Move(MoveTaskConf { target: "/reports".to_string() }));
}
