//! One rule at work on one directory.
//!
//! A watcher is told what happens to its directory and answers with what is
//! to be done. It never waits and never touches the disk: registering the
//! directory, reading its events and running the delays are the caller's,
//! who reports each outcome here.

use vstd::prelude::*;
use crate::config::{Rule, RuleView, RunConfig, TaskConf, TaskView, spec_resolve};
use crate::dispatcher::{
    Dispatch,
    Dispatcher,
    DispatcherView,
    Scheduled,
    spec_deadline,
    spec_fire,
    spec_fired,
    spec_submit,
};
use crate::paths::{base_name, law_base_name_is_a_file_name, spec_base_name, spec_is_file_name};
use crate::pattern::{CompileError, CompiledPattern, compile, regex_accepts, regex_finds};

verus! {

/// What kind of thing happened to a file. Only creations and modifications
/// set a rule to work.
#[derive(Debug, Clone, Copy, PartialEq, Eq, Structural)]
pub enum EventKind {
    Create,
    Modify,
    Other,
}

/// One raw event: its kind and the paths it is about, each as text where it
/// is text, and `None` where it is not.
#[derive(Debug, Clone, PartialEq, Eq)]
pub struct FsEvent {
    pub kind: EventKind,
    pub paths: Vec<Option<String>>,
}

/// An event as a plain value.
pub struct FsEventView {
    pub kind: EventKind,
    pub paths: Seq<Option<Seq<char>>>,
}

pub open spec fn spec_path_text(path: Option<String>) -> Option<Seq<char>> {
    match path {
        Some(text) => Some(text@),
        None => None,
    }
}

impl View for FsEvent {
    type V = FsEventView;

    open spec fn view(&self) -> FsEventView {
        FsEventView {
            kind: self.kind,
            paths: Seq::new(self.paths.len() as nat, |i: int| spec_path_text(self.paths[i])),
        }
    }
}

/// Why an event sets nothing to work. None of these is an error.
#[derive(Debug, Clone, Copy, PartialEq, Eq, Structural)]
pub enum Skip {
    /// The watcher is not watching (not yet, or no longer).
    NotWatching,
    /// The event is neither a creation nor a modification.
    OtherKind,
    /// The event names no path.
    NoPath,
    /// The first path is not text.
    NotText,
    /// The first path ends in no file name.
    NoFileName,
    /// The file name does not match the rule's pattern.
    NoMatch,
    /// The rule has no task of its own, and names none that exists.
    NoTask,
    /// There is no watcher of that number.
    NoSuchRule,
    /// The engine has not begun to watch, or has given up.
    NotRunning,
}

/// What an event comes to under a rule.
#[derive(Debug, PartialEq, Eq)]
pub enum Decision {
    Skip(Skip),
    Submit { path: String, file_name: String, task: TaskConf },
}

/// A decision as a plain value.
pub enum DecisionView {
    Skip(Skip),
    Submit { path: Seq<char>, file_name: Seq<char>, task: TaskView },
}

impl View for Decision {
    type V = DecisionView;

    open spec fn view(&self) -> DecisionView {
        match self {
            Decision::Skip(why) => DecisionView::Skip(*why),
            Decision::Submit { path, file_name, task } => DecisionView::Submit {
                path: path@,
                file_name: file_name@,
                task: task@,
            },
        }
    }
}

/// What `event` comes to under `rule`, whose pattern is `pattern`, with the
/// tasks `tasks`. Only the kind and the first path are read; the pattern is
/// tried on the file name alone, never on the path.
pub open spec fn spec_decide(
    pattern: Seq<char>,
    rule: RuleView,
    tasks: Map<Seq<char>, TaskView>,
    event: FsEventView,
) -> DecisionView {
    if event.kind == EventKind::Other {
        DecisionView::Skip(Skip::OtherKind)
    } else if event.paths.len() == 0 {
        DecisionView::Skip(Skip::NoPath)
    } else {
        match event.paths[0] {
            None => DecisionView::Skip(Skip::NotText),
            Some(path) => match spec_base_name(path) {
                None => DecisionView::Skip(Skip::NoFileName),
                Some(file_name) => if !regex_finds(pattern, file_name) {
                    DecisionView::Skip(Skip::NoMatch)
                } else {
                    match spec_resolve(rule, tasks) {
                        None => DecisionView::Skip(Skip::NoTask),
                        Some(task) => DecisionView::Submit { path, file_name, task },
                    }
                },
            },
        }
    }
}

/// Decides what `event` comes to under `rule`.
pub fn decide(
    pattern: &CompiledPattern,
    rule: &Rule,
    config: &RunConfig,
    event: &FsEvent,
) -> (decision: Decision)
    ensures
        decision@ == spec_decide(pattern@, rule@, config@.tasks, event@),
{
    match event.kind {
        EventKind::Other => {
            return Decision::Skip(Skip::OtherKind);
        },
        _ => {},
    }
    if event.paths.len() == 0 {
        return Decision::Skip(Skip::NoPath);
    }
    assert(event@.paths[0] == spec_path_text(event.paths[0]));
    let path = match &event.paths[0] {
        None => {
            return Decision::Skip(Skip::NotText);
        },
        Some(path) => path,
    };
    let file_name = match base_name(path.as_str()) {
        None => {
            return Decision::Skip(Skip::NoFileName);
        },
        Some(file_name) => file_name,
    };
    if !pattern.is_match(file_name.as_str()) {
        return Decision::Skip(Skip::NoMatch);
    }
    match config.resolve(rule) {
        None => Decision::Skip(Skip::NoTask),
        Some(task) => Decision::Submit { path: path.clone(), file_name, task: task.clone() },
    }
}

/// Whatever is submitted is the first path of a creation or modification,
/// under the name of the file it ends in, and that name, not the path, is
/// what the pattern found a match in.
pub proof fn law_submitted_name_is_the_matching_file_name(
    pattern: Seq<char>,
    rule: RuleView,
    tasks: Map<Seq<char>, TaskView>,
    event: FsEventView,
)
    ensures
        spec_decide(pattern, rule, tasks, event) matches DecisionView::Submit {
            path,
            file_name,
            task,
        } ==> {
            &&& event.kind != EventKind::Other
            &&& event.paths.len() > 0
            &&& event.paths[0] == Some(path)
            &&& spec_base_name(path) == Some(file_name)
            &&& spec_is_file_name(file_name)
            &&& regex_finds(pattern, file_name)
            &&& spec_resolve(rule, tasks) == Some(task)
        },
{
    if event.kind != EventKind::Other && event.paths.len() > 0 && event.paths[0] is Some {
        law_base_name_is_a_file_name(event.paths[0]->0);
    }
}

/// Where a watcher stands. It starts by registering its directory, watches
/// until the stream of events ends, and then never changes again.
#[derive(Debug, Clone, Copy, PartialEq, Eq, Structural)]
pub enum WatcherState {
    Starting,
    Watching,
    Stopped,
    Failed,
}

/// What is reported to a watcher besides events and elapsed delays.
#[derive(Debug, Clone, Copy, PartialEq, Eq, Structural)]
pub enum Signal {
    /// The directory is registered with the source of events.
    Registered,
    /// The directory could not be registered.
    RegistrationFailed,
    /// The stream of events has ended.
    StreamClosed,
    /// The stream of events has broken.
    StreamError,
}

/// The state that follows `state` on `signal`. A signal that does not belong
/// to the state changes nothing; `Stopped` and `Failed` are final.
pub open spec fn spec_transition(state: WatcherState, signal: Signal) -> WatcherState {
    match (state, signal) {
        (WatcherState::Starting, Signal::Registered) => WatcherState::Watching,
        (WatcherState::Starting, Signal::RegistrationFailed) => WatcherState::Failed,
        (WatcherState::Watching, Signal::StreamClosed) => WatcherState::Stopped,
        (WatcherState::Watching, Signal::StreamError) => WatcherState::Failed,
        _ => state,
    }
}

/// The state that follows `state` on `signal`.
pub fn transition(state: WatcherState, signal: Signal) -> (next: WatcherState)
    ensures
        next == spec_transition(state, signal),
{
    match (state, signal) {
        (WatcherState::Starting, Signal::Registered) => WatcherState::Watching,
        (WatcherState::Starting, Signal::RegistrationFailed) => WatcherState::Failed,
        (WatcherState::Watching, Signal::StreamClosed) => WatcherState::Stopped,
        (WatcherState::Watching, Signal::StreamError) => WatcherState::Failed,
        _ => state,
    }
}

/// What became of an event.
#[derive(Debug, PartialEq, Eq)]
pub enum EventOutcome {
    /// Nothing is to be done.
    Skipped(Skip),
    /// The task of `path` waits until `scheduled.due`; the caller comes back
    /// for the path when that moment has come.
    Scheduled { path: String, scheduled: Scheduled },
}

/// A watcher as a plain value.
pub struct WatcherView {
    pub rule: RuleView,
    /// The text of the pattern that names are tried on: the rule's.
    pub pattern: Seq<char>,
    pub state: WatcherState,
    pub dispatcher: DispatcherView,
}

/// What a watcher in the state of `w` makes of `event`.
pub open spec fn spec_event_decision(
    w: WatcherView,
    tasks: Map<Seq<char>, TaskView>,
    event: FsEventView,
) -> DecisionView {
    if w.state == WatcherState::Watching {
        spec_decide(w.pattern, w.rule, tasks, event)
    } else {
        DecisionView::Skip(Skip::NotWatching)
    }
}

/// The watcher after `event` at `now`: a match makes its path wait, anything
/// else changes nothing.
pub open spec fn spec_on_event(
    w: WatcherView,
    tasks: Map<Seq<char>, TaskView>,
    event: FsEventView,
    now: u64,
) -> WatcherView {
    match spec_event_decision(w, tasks, event) {
        DecisionView::Skip(_) => w,
        DecisionView::Submit { path, file_name, task } => WatcherView {
            dispatcher: spec_submit(w.dispatcher, now, path, file_name, task),
            ..w
        },
    }
}

/// A watcher for `rule` on which nothing has happened yet.
pub open spec fn spec_new_watcher(rule: RuleView, debounce_time: u32) -> WatcherView {
    WatcherView {
        rule,
        pattern: rule.test,
        state: WatcherState::Starting,
        dispatcher: DispatcherView {
            delay: (debounce_time * 1000) as u64,
            pending: Map::empty(),
        },
    }
}

/// One rule bound to its directory: the rule, its compiled pattern, the state
/// of the watch and the paths that wait.
pub struct RuleWatcher {
    rule: Rule,
    pattern: CompiledPattern,
    state: WatcherState,
    dispatcher: Dispatcher,
}

impl View for RuleWatcher {
    type V = WatcherView;

    closed spec fn view(&self) -> WatcherView {
        WatcherView {
            rule: self.rule@,
            pattern: self.pattern@,
            state: self.state,
            dispatcher: self.dispatcher@,
        }
    }
}

impl RuleWatcher {
    /// A watcher for `rule` that has yet to register its directory, with a
    /// quiet time of `debounce_time` seconds. The rule's pattern is compiled
    /// here, once; a pattern that the engine refuses gives no watcher.
    pub fn new(rule: Rule, debounce_time: u32) -> (r: Result<RuleWatcher, CompileError>)
        ensures
            r is Ok <==> regex_accepts(rule@.test),
            r matches Ok(w) ==> w@ == spec_new_watcher(rule@, debounce_time),
            r matches Err(e) ==> e.pattern@ == rule@.test,
    {
        match compile(rule.test.as_str()) {
            Ok(pattern) => Ok(
                RuleWatcher {
                    rule,
                    pattern,
                    state: WatcherState::Starting,
                    dispatcher: Dispatcher::new(debounce_time),
                },
            ),
            Err(e) => Err(e),
        }
    }

    /// Where the watcher stands.
    pub fn state(&self) -> (state: WatcherState)
        ensures
            state == self@.state,
    {
        self.state
    }

    /// The rule that the watcher works for.
    pub fn rule(&self) -> (rule: &Rule)
        ensures
            rule@ == self@.rule,
    {
        &self.rule
    }

    /// The directory that the watcher is to be registered for.
    pub fn watch_dir(&self) -> (dir: &str)
        ensures
            dir@ == self@.rule.watch_dir,
    {
        self.rule.watch_dir.as_str()
    }

    /// Whether the watcher has ended, in `Stopped` or in `Failed`.
    pub fn is_finished(&self) -> (finished: bool)
        ensures
            finished == (self@.state == WatcherState::Stopped || self@.state
                == WatcherState::Failed),
    {
        match self.state {
            WatcherState::Stopped => true,
            WatcherState::Failed => true,
            _ => false,
        }
    }

    /// Takes a report on the registration or on the stream, and returns the
    /// state that the watcher is in from now on. Nothing that waits is lost.
    pub fn signal(&mut self, signal: Signal) -> (state: WatcherState)
        ensures
            state == spec_transition(old(self)@.state, signal),
            final(self)@ == (WatcherView { state, ..old(self)@ }),
    {
        self.state = transition(self.state, signal);
        self.state
    }

    /// Takes an event that the source delivered at `now`. While the watcher
    /// is watching, a creation or modification of a file whose name matches
    /// the rule, and for which the rule has a task, makes the file's path wait
    /// for that task. Everything else is skipped, with the reason.
    pub fn on_event(&mut self, config: &RunConfig, event: &FsEvent, now: u64) -> (outcome:
        EventOutcome)
        ensures
            final(self)@ == spec_on_event(old(self)@, config@.tasks, event@, now),
            match spec_event_decision(old(self)@, config@.tasks, event@) {
                DecisionView::Skip(why) => outcome == EventOutcome::Skipped(why),
                DecisionView::Submit { path, .. } => {
                    &&& outcome matches EventOutcome::Scheduled { path: p, scheduled }
                    &&& p@ == path
                    &&& scheduled.due == spec_deadline(now, old(self)@.dispatcher.delay)
                    &&& scheduled.delay == old(self)@.dispatcher.delay
                    &&& scheduled.replaced == old(self)@.dispatcher.pending.contains_key(path)
                },
            },
    {
        match self.state {
            WatcherState::Watching => {},
            _ => {
                return EventOutcome::Skipped(Skip::NotWatching);
            },
        }
        match decide(&self.pattern, &self.rule, config, event) {
            Decision::Skip(why) => EventOutcome::Skipped(why),
            Decision::Submit { path, file_name, task } => {
                let scheduled = self.dispatcher.submit(now, path.clone(), file_name, task);
                EventOutcome::Scheduled { path, scheduled }
            },
        }
    }

    /// Takes the news, at `now`, that a delay on `path` has run out. If the
    /// path still waits and its quiet time has passed, its task is handed out
    /// to run; if a later event has put it off, or it has run already, nothing
    /// is. This holds in every state: what was scheduled while the watcher
    /// watched still runs after the watch has ended.
    pub fn on_timer(&mut self, path: &str, now: u64) -> (dispatch: Option<Dispatch>)
        ensures
            final(self)@ == (WatcherView {
                dispatcher: spec_fire(old(self)@.dispatcher, now, path@),
                ..old(self)@
            }),
            dispatch is Some <==> spec_fired(old(self)@.dispatcher, now, path@) is Some,
            dispatch matches Some(d) ==> Some(d@) == spec_fired(
                old(self)@.dispatcher,
                now,
                path@,
            ),
    {
        self.dispatcher.fire(now, path)
    }
}

} // verus!
