use dropwatch::config::{CopyTaskConf, MoveTaskConf, TaskConf};
use dropwatch::dispatcher::{Dispatch, Dispatcher, Scheduled};

fn copy_to(target: &str) -> TaskConf {
    TaskConf::Copy(CopyTaskConf { target: target.to_string() })
}

fn move_to(target: &str) -> TaskConf {
    TaskConf::Move(MoveTaskConf { target: target.to_string() })
}

fn submit(d: &mut Dispatcher, now: u64, path: &str, task: TaskConf) -> Scheduled {
    let name = path.rsplit('/').next().unwrap().to_string();
    d.submit(now, path.to_string(), name, task)
}

fn dispatched(path: &str, task: TaskConf) -> Dispatch {
    Dispatch {
        path: path.to_string(),
        file_name: path.rsplit('/').next().unwrap().to_string(),
        task,
    }
}

#[test]
fn new_dispatcher_waits_for_nothing() {
    let mut d = Dispatcher::new(2);
    assert_eq!(d.delay(), 2000);
    assert_eq!(d.pending_count(), 0);
    assert_eq!(d.due_of("/in/a"), None);
    assert_eq!(d.fire(u64::MAX, "/in/a"), None);
}

#[test]
fn delay_is_in_milliseconds() {
    assert_eq!(Dispatcher::new(0).delay(), 0);
    assert_eq!(Dispatcher::new(u32::MAX).delay(), 4_294_967_295_000);
}

#[test]
fn submit_schedules_after_the_quiet_time() {
    let mut d = Dispatcher::new(2);
    let scheduled = submit(&mut d, 10_000, "/in/a", copy_to("/out"));
    assert_eq!(scheduled, Scheduled { due: 12_000, delay: 2000, replaced: false });
    assert_eq!(d.due_of("/in/a"), Some(12_000));
    assert_eq!(d.pending_count(), 1);
}

#[test]
fn nothing_runs_before_the_quiet_time_has_passed() {
    let mut d = Dispatcher::new(2);
    submit(&mut d, 10_000, "/in/a", copy_to("/out"));
    assert_eq!(d.fire(10_000, "/in/a"), None);
    assert_eq!(d.fire(11_999, "/in/a"), None);
    assert_eq!(d.pending_count(), 1);
    assert_eq!(d.fire(12_000, "/in/a"), Some(dispatched("/in/a", copy_to("/out"))));
    assert_eq!(d.pending_count(), 0);
}

#[test]
fn a_task_runs_once() {
    let mut d = Dispatcher::new(1);
    submit(&mut d, 0, "/in/a", copy_to("/out"));
    assert!(d.fire(1000, "/in/a").is_some());
    assert_eq!(d.fire(1000, "/in/a"), None);
    assert_eq!(d.fire(9000, "/in/a"), None);
}

#[test]
fn burst_runs_the_last_event_once() {
    let mut d = Dispatcher::new(2);
    let mut runs = Vec::new();
    let first = submit(&mut d, 0, "/in/a", copy_to("/one"));
    assert!(!first.replaced);
    for (now, target) in [(500, "/two"), (1900, "/three"), (3899, "/four")] {
        runs.extend(d.fire(now, "/in/a"));
        let scheduled = submit(&mut d, now, "/in/a", copy_to(target));
        assert!(scheduled.replaced);
        assert_eq!(scheduled.due, now + 2000);
    }
    // The delays of the earlier events run out, one after the other.
    for now in [2000, 2500, 3900, 5898] {
        runs.extend(d.fire(now, "/in/a"));
    }
    assert!(runs.is_empty());
    for now in [5899, 5900, 9000] {
        runs.extend(d.fire(now, "/in/a"));
    }
    assert_eq!(runs, vec![dispatched("/in/a", copy_to("/four"))]);
    assert_eq!(d.pending_count(), 0);
}

#[test]
fn events_further_apart_than_the_quiet_time_run_separately() {
    let mut d = Dispatcher::new(2);
    let mut runs = Vec::new();
    submit(&mut d, 0, "/in/a", copy_to("/one"));
    runs.extend(d.fire(2000, "/in/a"));
    let second = submit(&mut d, 2001, "/in/a", move_to("/two"));
    assert!(!second.replaced);
    runs.extend(d.fire(4001, "/in/a"));
    assert_eq!(
        runs,
        vec![dispatched("/in/a", copy_to("/one")), dispatched("/in/a", move_to("/two"))]
    );
}

#[test]
fn paths_wait_apart() {
    let mut d = Dispatcher::new(1);
    submit(&mut d, 0, "/in/a", copy_to("/out"));
    submit(&mut d, 600, "/in/b", move_to("/out"));
    submit(&mut d, 900, "/in/a", copy_to("/late"));
    assert_eq!(d.pending_count(), 2);
    assert_eq!(d.due_of("/in/a"), Some(1900));
    assert_eq!(d.due_of("/in/b"), Some(1600));
    assert_eq!(d.fire(1600, "/in/a"), None);
    assert_eq!(d.fire(1600, "/in/b"), Some(dispatched("/in/b", move_to("/out"))));
    assert_eq!(d.due_of("/in/a"), Some(1900));
    assert_eq!(d.fire(1900, "/in/a"), Some(dispatched("/in/a", copy_to("/late"))));
    assert_eq!(d.pending_count(), 0);
}

#[test]
fn firing_a_path_that_does_not_wait_changes_nothing() {
    let mut d = Dispatcher::new(1);
    submit(&mut d, 0, "/in/a", copy_to("/out"));
    assert_eq!(d.fire(5000, "/in/other"), None);
    assert_eq!(d.due_of("/in/a"), Some(1000));
    assert_eq!(d.pending_count(), 1);
}

#[test]
fn zero_quiet_time_runs_at_once() {
    let mut d = Dispatcher::new(0);
    let scheduled = submit(&mut d, 77, "/in/a", copy_to("/out"));
    assert_eq!(scheduled, Scheduled { due: 77, delay: 0, replaced: false });
    assert!(d.fire(77, "/in/a").is_some());
}

#[test]
fn deadline_stops_at_the_end_of_time() {
    let mut d = Dispatcher::new(1);
    let scheduled = submit(&mut d, u64::MAX - 5, "/in/a", copy_to("/out"));
    assert_eq!(scheduled.due, u64::MAX);
    assert_eq!(d.fire(u64::MAX - 1, "/in/a"), None);
    assert!(d.fire(u64::MAX, "/in/a").is_some());
}

#[test]
fn the_dispatch_is_the_snapshot_of_the_last_event() {
    let mut d = Dispatcher::new(1);
    d.submit(0, "/in/a".to_string(), "first-name".to_string(), copy_to("/one"));
    d.submit(10, "/in/a".to_string(), "second-name".to_string(), move_to("/two"));
    let dispatch = d.fire(1010, "/in/a").unwrap();
    assert_eq!(dispatch.path, "/in/a");
    assert_eq!(dispatch.file_name, "second-name");
    assert_eq!(dispatch.task, move_to("/two"));
}
