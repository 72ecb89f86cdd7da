//! All rules of a configuration at work, each on its own.
//!
//! The engine holds one watcher per rule. It starts only if every rule's
//! pattern compiles, begins to watch only when every directory is
//! registered, and from then on keeps the watchers apart: what happens to
//! one, a failure too, changes no other.

use vstd::prelude::*;
use crate::config::{RunConfig, TaskView};
use crate::dispatcher::{Dispatch, DispatchView, spec_deadline, spec_fire, spec_fired};
use crate::pattern::{CompileError, regex_accepts};
use crate::watcher::{
    DecisionView,
    EventOutcome,
    FsEvent,
    FsEventView,
    RuleWatcher,
    Signal,
    Skip,
    WatcherState,
    WatcherView,
    spec_event_decision,
    spec_new_watcher,
    spec_on_event,
    spec_transition,
};

verus! {

/// Where the engine stands.
#[derive(Debug, Clone, Copy, PartialEq, Eq, Structural)]
pub enum EnginePhase {
    /// Directories are being registered; no event is taken yet.
    Starting,
    /// Every directory is registered; events are taken.
    Running,
    /// A watcher failed before the engine ran: the engine has given up, for
    /// good.
    Aborted,
}

/// Why the engine did not start.
#[derive(Debug, PartialEq, Eq)]
pub enum StartupError {
    /// The pattern of the rule at index `rule` does not compile.
    InvalidPattern { rule: usize, error: CompileError },
}

/// The engine as a plain value.
pub struct EngineView {
    pub watchers: Seq<WatcherView>,
    pub phase: EnginePhase,
}

/// Whether every watcher has left `Starting`.
pub open spec fn spec_all_started(watchers: Seq<WatcherView>) -> bool {
    forall|i: int| 0 <= i < watchers.len() ==> (#[trigger] watchers[i]).state
        != WatcherState::Starting
}

/// The phase after the watcher at `index` went from `before` to `after`,
/// the others being `watchers`. While the engine starts, one failure ends
/// it; once it runs, a failure is the watcher's alone.
pub open spec fn spec_next_phase(
    phase: EnginePhase,
    before: WatcherState,
    after: WatcherState,
    watchers: Seq<WatcherView>,
) -> EnginePhase {
    match phase {
        EnginePhase::Starting => if after == WatcherState::Failed && before
            != WatcherState::Failed {
            EnginePhase::Aborted
        } else if spec_all_started(watchers) {
            EnginePhase::Running
        } else {
            EnginePhase::Starting
        },
        _ => phase,
    }
}

/// The engine after `signal` for the watcher at `index`. An engine that has
/// given up, and a number that names no watcher, change nothing.
pub open spec fn spec_engine_signal(e: EngineView, index: int, signal: Signal) -> EngineView {
    if e.phase == EnginePhase::Aborted || !(0 <= index < e.watchers.len()) {
        e
    } else {
        let before = e.watchers[index];
        let after = WatcherView { state: spec_transition(before.state, signal), ..before };
        let watchers = e.watchers.update(index, after);
        EngineView {
            watchers,
            phase: spec_next_phase(e.phase, before.state, after.state, watchers),
        }
    }
}

/// What the engine makes of `event` for the watcher at `index`.
pub open spec fn spec_engine_decision(
    e: EngineView,
    tasks: Map<Seq<char>, TaskView>,
    index: int,
    event: FsEventView,
) -> DecisionView {
    if !(0 <= index < e.watchers.len()) {
        DecisionView::Skip(Skip::NoSuchRule)
    } else if e.phase != EnginePhase::Running {
        DecisionView::Skip(Skip::NotRunning)
    } else {
        spec_event_decision(e.watchers[index], tasks, event)
    }
}

/// The engine after `event` at `now` for the watcher at `index`.
pub open spec fn spec_engine_event(
    e: EngineView,
    tasks: Map<Seq<char>, TaskView>,
    index: int,
    event: FsEventView,
    now: u64,
) -> EngineView {
    match spec_engine_decision(e, tasks, index, event) {
        DecisionView::Skip(_) => e,
        DecisionView::Submit { .. } => EngineView {
            watchers: e.watchers.update(
                index,
                spec_on_event(e.watchers[index], tasks, event, now),
            ),
            ..e
        },
    }
}

/// Whether a delay that ran out is still listened to.
pub open spec fn spec_engine_hears_timer(e: EngineView, index: int) -> bool {
    e.phase != EnginePhase::Aborted && 0 <= index < e.watchers.len()
}

/// The engine after the news, at `now`, that a delay on `path` has run out
/// for the watcher at `index`.
pub open spec fn spec_engine_timer(
    e: EngineView,
    index: int,
    path: Seq<char>,
    now: u64,
) -> EngineView {
    if spec_engine_hears_timer(e, index) {
        let w = e.watchers[index];
        EngineView {
            watchers: e.watchers.update(
                index,
                WatcherView { dispatcher: spec_fire(w.dispatcher, now, path), ..w },
            ),
            ..e
        }
    } else {
        e
    }
}

/// What is handed out to run on that news.
pub open spec fn spec_engine_fired(
    e: EngineView,
    index: int,
    path: Seq<char>,
    now: u64,
) -> Option<DispatchView> {
    if spec_engine_hears_timer(e, index) {
        spec_fired(e.watchers[index].dispatcher, now, path)
    } else {
        None
    }
}

/// The watchers of a configuration, one per rule and in the order of the
/// rules.
pub struct Engine {
    watchers: Vec<RuleWatcher>,
    phase: EnginePhase,
}

impl View for Engine {
    type V = EngineView;

    closed spec fn view(&self) -> EngineView {
        EngineView {
            watchers: Seq::new(self.watchers.len() as nat, |i: int| self.watchers[i]@),
            phase: self.phase,
        }
    }
}

impl Engine {
    /// Builds the engine of `config`: one watcher per rule, none registered
    /// yet. Every pattern is compiled here, before anything is watched; the
    /// first rule whose pattern does not compile stops the whole engine from
    /// starting.
    pub fn new(config: &RunConfig) -> (r: Result<Engine, StartupError>)
        ensures
            r is Ok <==> forall|i: int|
                0 <= i < config@.rules.len() ==> regex_accepts(#[trigger] config@.rules[i].test),
            r matches Ok(e) ==> {
                &&& e@.watchers.len() == config@.rules.len()
                &&& forall|i: int|
                    0 <= i < config@.rules.len() ==> #[trigger] e@.watchers[i] == spec_new_watcher(
                        config@.rules[i],
                        config@.debounce_time,
                    )
                &&& e@.phase == if config@.rules.len() == 0 {
                    EnginePhase::Running
                } else {
                    EnginePhase::Starting
                }
            },
            r matches Err(StartupError::InvalidPattern { rule, error }) ==> {
                &&& rule < config@.rules.len()
                &&& !regex_accepts(config@.rules[rule as int].test)
                &&& forall|i: int| 0 <= i < rule ==> regex_accepts(#[trigger] config@.rules[i].test)
                &&& error.pattern@ == config@.rules[rule as int].test
            },
    {
        let count = config.rule_count();
        let debounce_time = config.debounce_time();
        let mut watchers: Vec<RuleWatcher> = Vec::new();
        let mut index: usize = 0;
        while index < count
            invariant
                count == config@.rules.len(),
                debounce_time == config@.debounce_time,
                index <= count,
                watchers.len() == index,
                forall|i: int|
                    0 <= i < index ==> (#[trigger] watchers[i])@ == spec_new_watcher(
                        config@.rules[i],
                        debounce_time,
                    ),
                forall|i: int| 0 <= i < index ==> regex_accepts(#[trigger] config@.rules[i].test),
            decreases count - index,
        {
            match RuleWatcher::new(config.rule_at(index).clone(), debounce_time) {
                Ok(watcher) => {
                    watchers.push(watcher);
                },
                Err(error) => {
                    return Err(StartupError::InvalidPattern { rule: index, error });
                },
            }
            index = index + 1;
        }
        let phase = if count == 0 {
            EnginePhase::Running
        } else {
            EnginePhase::Starting
        };
        let engine = Engine { watchers, phase };
        assert forall|i: int| 0 <= i < config@.rules.len() implies #[trigger] engine@.watchers[i]
            == spec_new_watcher(config@.rules[i], config@.debounce_time) by {
            assert(engine@.watchers[i] == engine.watchers[i]@);
        }
        Ok(engine)
    }

    /// Where the engine stands.
    pub fn phase(&self) -> (phase: EnginePhase)
        ensures
            phase == self@.phase,
    {
        self.phase
    }

    /// How many watchers there are.
    pub fn watcher_count(&self) -> (count: usize)
        ensures
            count == self@.watchers.len(),
    {
        self.watchers.len()
    }

    /// The watcher at `index`.
    pub fn watcher(&self, index: usize) -> (watcher: Option<&RuleWatcher>)
        ensures
            watcher is Some <==> index < self@.watchers.len(),
            watcher matches Some(w) ==> w@ == self@.watchers[index as int],
    {
        if index < self.watchers.len() {
            Some(&self.watchers[index])
        } else {
            None
        }
    }

    /// Whether nothing is left to wait for: the engine has given up, or every
    /// watcher has ended.
    pub fn is_finished(&self) -> (finished: bool)
        ensures
            finished == (self@.phase == EnginePhase::Aborted || forall|i: int|
                0 <= i < self@.watchers.len() ==> {
                    ||| (#[trigger] self@.watchers[i]).state == WatcherState::Stopped
                    ||| self@.watchers[i].state == WatcherState::Failed
                }),
    {
        match self.phase {
            EnginePhase::Aborted => {
                return true;
            },
            _ => {},
        }
        let mut index: usize = 0;
        while index < self.watchers.len()
            invariant
                self@.phase != EnginePhase::Aborted,
                index <= self.watchers.len(),
                forall|i: int|
                    0 <= i < index ==> {
                        ||| (#[trigger] self@.watchers[i]).state == WatcherState::Stopped
                        ||| self@.watchers[i].state == WatcherState::Failed
                    },
            decreases self.watchers.len() - index,
        {
            if !self.watchers[index].is_finished() {
                assert(self@.watchers[index as int] == self.watchers[index as int]@);
                assert(self@.watchers[index as int].state != WatcherState::Stopped);
                return false;
            }
            assert(self@.watchers[index as int] == self.watchers[index as int]@);
            index = index + 1;
        }
        true
    }
}

impl Engine {
    fn all_started(&self) -> (started: bool)
        ensures
            started == spec_all_started(self@.watchers),
    {
        let mut index: usize = 0;
        while index < self.watchers.len()
            invariant
                index <= self.watchers.len(),
                forall|i: int|
                    0 <= i < index ==> (#[trigger] self@.watchers[i]).state
                        != WatcherState::Starting,
            decreases self.watchers.len() - index,
        {
            assert(self@.watchers[index as int] == self.watchers[index as int]@);
            match self.watchers[index].state() {
                WatcherState::Starting => {
                    return false;
                },
                _ => {},
            }
            index = index + 1;
        }
        true
    }

    /// Takes a report on the registration or the stream of the watcher at
    /// `index`, and returns the phase that the engine is in from now on.
    ///
    /// The watcher moves as the report says. While the engine is starting, a
    /// watcher that fails makes the engine give up, and the last watcher to
    /// leave `Starting` sets it running. Once it runs, no report changes
    /// anything but its own watcher.
    pub fn signal(&mut self, index: usize, signal: Signal) -> (phase: EnginePhase)
        ensures
            final(self)@ == spec_engine_signal(old(self)@, index as int, signal),
            phase == final(self)@.phase,
    {
        match self.phase {
            EnginePhase::Aborted => {
                return self.phase;
            },
            _ => {},
        }
        if index >= self.watchers.len() {
            return self.phase;
        }
        let ghost old_watchers = self@.watchers;
        assert(old_watchers[index as int] == self.watchers[index as int]@);
        let before = self.watchers[index].state();
        let after = self.watchers[index].signal(signal);
        assert(self@.watchers =~= old_watchers.update(
            index as int,
            WatcherView { state: after, ..old_watchers[index as int] },
        ));
        match self.phase {
            EnginePhase::Starting => {
                let failed = match (before, after) {
                    (WatcherState::Failed, _) => false,
                    (_, WatcherState::Failed) => true,
                    _ => false,
                };
                if failed {
                    self.phase = EnginePhase::Aborted;
                } else if self.all_started() {
                    self.phase = EnginePhase::Running;
                }
            },
            _ => {},
        }
        self.phase
    }

    /// Takes an event, delivered at `now`, for the watcher at `index`. Only a
    /// running engine takes events; the watcher then decides as it would
    /// alone, and no other watcher is touched.
    pub fn on_event(&mut self, config: &RunConfig, index: usize, event: &FsEvent, now: u64) -> (outcome:
        EventOutcome)
        ensures
            final(self)@ == spec_engine_event(old(self)@, config@.tasks, index as int, event@, now),
            match spec_engine_decision(old(self)@, config@.tasks, index as int, event@) {
                DecisionView::Skip(why) => outcome == EventOutcome::Skipped(why),
                DecisionView::Submit { path, .. } => {
                    let d = old(self)@.watchers[index as int].dispatcher;
                    &&& outcome matches EventOutcome::Scheduled { path: p, scheduled }
                    &&& p@ == path
                    &&& scheduled.due == spec_deadline(now, d.delay)
                    &&& scheduled.delay == d.delay
                    &&& scheduled.replaced == d.pending.contains_key(path)
                },
            },
    {
        if index >= self.watchers.len() {
            return EventOutcome::Skipped(Skip::NoSuchRule);
        }
        match self.phase {
            EnginePhase::Running => {},
            _ => {
                return EventOutcome::Skipped(Skip::NotRunning);
            },
        }
        let ghost old_watchers = self@.watchers;
        assert(old_watchers[index as int] == self.watchers[index as int]@);
        let outcome = self.watchers[index].on_event(config, event, now);
        assert(self@.watchers =~= old_watchers.update(
            index as int,
            spec_on_event(old_watchers[index as int], config@.tasks, event@, now),
        ));
        assert(self@.watchers =~= spec_engine_event(
            old(self)@,
            config@.tasks,
            index as int,
            event@,
            now,
        ).watchers);
        outcome
    }

    /// Takes the news, at `now`, that a delay on `path` has run out for the
    /// watcher at `index`. What is handed out is what that watcher alone
    /// would hand out; an engine that has given up hands out nothing.
    pub fn on_timer(&mut self, index: usize, path: &str, now: u64) -> (dispatch: Option<Dispatch>)
        ensures
            final(self)@ == spec_engine_timer(old(self)@, index as int, path@, now),
            dispatch is Some <==> spec_engine_fired(old(self)@, index as int, path@, now) is Some,
            dispatch matches Some(d) ==> Some(d@) == spec_engine_fired(
                old(self)@,
                index as int,
                path@,
                now,
            ),
    {
        match self.phase {
            EnginePhase::Aborted => {
                return None;
            },
            _ => {},
        }
        if index >= self.watchers.len() {
            return None;
        }
        let ghost old_watchers = self@.watchers;
        assert(old_watchers[index as int] == self.watchers[index as int]@);
        let dispatch = self.watchers[index].on_timer(path, now);
        assert(self@.watchers =~= spec_engine_timer(old(self)@, index as int, path@, now).watchers);
        dispatch
    }
}

/// What happens to one watcher leaves every other watcher as it was: its
/// state, and everything that waits with it.
pub proof fn law_watchers_do_not_interfere(
    e: EngineView,
    tasks: Map<Seq<char>, TaskView>,
    index: int,
    other: int,
    signal: Signal,
    event: FsEventView,
    path: Seq<char>,
    now: u64,
)
    requires
        0 <= other < e.watchers.len(),
        other != index,
    ensures
        spec_engine_signal(e, index, signal).watchers[other] == e.watchers[other],
        spec_engine_event(e, tasks, index, event, now).watchers[other] == e.watchers[other],
        spec_engine_timer(e, index, path, now).watchers[other] == e.watchers[other],
{
}

/// Once the engine runs, no report makes it give up: a failure ends one
/// watcher and nothing else.
pub proof fn law_running_engine_keeps_running(e: EngineView, index: int, signal: Signal)
    requires
        e.phase == EnginePhase::Running,
    ensures
        spec_engine_signal(e, index, signal).phase == EnginePhase::Running,
{
}

} // verus!
