//! Coalescing of repeated events on one path.
//!
//! Every qualifying event on a path puts the path's task off until a quiet
//! time has passed since that event. The dispatcher keeps, for each path that
//! is waiting, what is to run and from when on it may run. It owns no clock:
//! the caller says what time it is, in milliseconds on a clock that never
//! runs backwards, and asks again when a delay has run out.

use vstd::prelude::*;
use crate::config::{TaskConf, TaskView};

verus! {

/// What waits on one path.
#[derive(Debug, PartialEq, Eq)]
pub struct Pending {
    pub path: String,
    pub file_name: String,
    pub task: TaskConf,
    /// The first moment at which the task may run.
    pub due: u64,
}

/// What waits on a path, as a plain value.
pub struct PendingView {
    pub file_name: Seq<char>,
    pub task: TaskView,
    pub due: u64,
}

/// A task that is to run now, with the file it is about: taken when its delay
/// ran out, and not read again from anywhere.
#[derive(Debug, PartialEq, Eq)]
pub struct Dispatch {
    pub path: String,
    pub file_name: String,
    pub task: TaskConf,
}

/// A dispatch as a plain value.
pub struct DispatchView {
    pub path: Seq<char>,
    pub file_name: Seq<char>,
    pub task: TaskView,
}

impl View for Dispatch {
    type V = DispatchView;

    open spec fn view(&self) -> DispatchView {
        DispatchView { path: self.path@, file_name: self.file_name@, task: self.task@ }
    }
}

/// What `submit` tells the caller.
#[derive(Debug, Clone, Copy, PartialEq, Eq)]
pub struct Scheduled {
    /// When the delay of this submission runs out.
    pub due: u64,
    /// How long that is from the submission, in milliseconds.
    pub delay: u64,
    /// Whether an earlier submission on the path was still waiting, and is
    /// now cancelled.
    pub replaced: bool,
}

/// The dispatcher as a plain value.
pub struct DispatcherView {
    /// The quiet time, in milliseconds.
    pub delay: u64,
    pub pending: Map<Seq<char>, PendingView>,
}

/// The moment `delay` after `now`, or the end of time if that is sooner.
pub open spec fn spec_deadline(now: u64, delay: u64) -> u64 {
    if now + delay > u64::MAX {
        u64::MAX
    } else {
        (now + delay) as u64
    }
}

/// The dispatcher after an event at `now` on `path`: the path waits for the
/// new task, whatever waited on it before; no other path is touched.
pub open spec fn spec_submit(
    d: DispatcherView,
    now: u64,
    path: Seq<char>,
    file_name: Seq<char>,
    task: TaskView,
) -> DispatcherView {
    DispatcherView {
        delay: d.delay,
        pending: d.pending.insert(
            path,
            PendingView { file_name, task, due: spec_deadline(now, d.delay) },
        ),
    }
}

/// Whether the delay on `path` has run out at `now`.
pub open spec fn spec_is_due(d: DispatcherView, now: u64, path: Seq<char>) -> bool {
    d.pending.contains_key(path) && d.pending[path].due <= now
}

/// What runs when `path` is asked for at `now`.
pub open spec fn spec_fired(d: DispatcherView, now: u64, path: Seq<char>) -> Option<DispatchView> {
    if spec_is_due(d, now, path) {
        Some(
            DispatchView {
                path,
                file_name: d.pending[path].file_name,
                task: d.pending[path].task,
            },
        )
    } else {
        None
    }
}

/// The dispatcher after `path` was asked for at `now`: what ran waits no
/// longer, and nothing else has changed.
pub open spec fn spec_fire(d: DispatcherView, now: u64, path: Seq<char>) -> DispatcherView {
    if spec_is_due(d, now, path) {
        DispatcherView { delay: d.delay, pending: d.pending.remove(path) }
    } else {
        d
    }
}

/// Whether `entries[i]` is the entry of `path`.
pub open spec fn spec_waits_at(entries: Seq<Pending>, i: int, path: Seq<char>) -> bool {
    0 <= i < entries.len() && entries[i].path@ == path
}

/// Where `path` stands in `entries`, if it stands there.
pub open spec fn spec_slot_of(entries: Seq<Pending>, path: Seq<char>) -> int {
    choose|i: int| spec_waits_at(entries, i, path)
}

pub open spec fn spec_pending_view(entry: Pending) -> PendingView {
    PendingView { file_name: entry.file_name@, task: entry.task@, due: entry.due }
}

/// The entries by path.
pub open spec fn spec_pending_table(entries: Seq<Pending>) -> Map<Seq<char>, PendingView> {
    Map::new(
        |path: Seq<char>| exists|i: int| spec_waits_at(entries, i, path),
        |path: Seq<char>| spec_pending_view(entries[spec_slot_of(entries, path)]),
    )
}

/// No path stands twice in `entries`.
pub open spec fn spec_distinct_paths(entries: Seq<Pending>) -> bool {
    forall|i: int, j: int|
        0 <= i < j < entries.len() ==> entries[i].path@ != entries[j].path@
}

proof fn lemma_slot_of(entries: Seq<Pending>, i: int)
    requires
        spec_distinct_paths(entries),
        0 <= i < entries.len(),
    ensures
        spec_slot_of(entries, entries[i].path@) == i,
        spec_pending_table(entries).contains_key(entries[i].path@),
        spec_pending_table(entries)[entries[i].path@] == spec_pending_view(entries[i]),
{
    let path = entries[i].path@;
    assert(spec_waits_at(entries, i, path));
    let j = spec_slot_of(entries, path);
    assert(spec_waits_at(entries, j, path));
    if j < i {
        assert(entries[j].path@ != entries[i].path@);
    } else if i < j {
        assert(entries[i].path@ != entries[j].path@);
    }
}

/// The paths that wait, each with its task and its deadline.
#[derive(Debug)]
pub struct Dispatcher {
    delay: u64,
    pending: Vec<Pending>,
}

impl View for Dispatcher {
    type V = DispatcherView;

    closed spec fn view(&self) -> DispatcherView {
        DispatcherView { delay: self.delay, pending: spec_pending_table(self.pending@) }
    }
}

impl Dispatcher {
    /// Each path waits at most once.
    #[verifier::type_invariant]
    spec fn distinct_paths(self) -> bool {
        spec_distinct_paths(self.pending@)
    }

    /// A dispatcher on which nothing waits, with a quiet time of
    /// `debounce_time` seconds.
    pub fn new(debounce_time: u32) -> (d: Dispatcher)
        ensures
            d@.delay == debounce_time * 1000,
            d@.pending == Map::<Seq<char>, PendingView>::empty(),
    {
        let seconds: u64 = debounce_time.into();
        let d = Dispatcher { delay: seconds * 1000, pending: Vec::new() };
        assert(d@.pending =~= Map::<Seq<char>, PendingView>::empty()) by {
            assert forall|path: Seq<char>| !d@.pending.contains_key(path) by {
                assert(forall|i: int| !spec_waits_at(d.pending@, i, path));
            }
        }
        d
    }

    fn slot(&self, path: &String) -> (found: Option<usize>)
        ensures
            found matches Some(i) ==> spec_waits_at(self.pending@, i as int, path@),
            found is None ==> forall|i: int| !spec_waits_at(self.pending@, i, path@),
            found is Some <==> self@.pending.contains_key(path@),
            found matches Some(i) ==> self@.pending[path@] == spec_pending_view(
                self.pending[i as int],
            ),
    {
        proof {
            use_type_invariant(self);
        }
        let mut i: usize = 0;
        while i < self.pending.len()
            invariant
                spec_distinct_paths(self.pending@),
                i <= self.pending.len(),
                forall|j: int| 0 <= j < i ==> self.pending[j].path@ != path@,
            decreases self.pending.len() - i,
        {
            if self.pending[i].path == *path {
                proof {
                    lemma_slot_of(self.pending@, i as int);
                }
                return Some(i);
            }
            i = i + 1;
        }
        None
    }
}

impl Dispatcher {
    /// The quiet time, in milliseconds.
    pub fn delay(&self) -> (delay: u64)
        ensures
            delay == self@.delay,
    {
        self.delay
    }

    /// How many paths wait.
    pub fn pending_count(&self) -> (count: usize)
        ensures
            count == self@.pending.dom().len(),
            self@.pending.dom().finite(),
    {
        proof {
            use_type_invariant(self);
            lemma_table_size(self.pending@);
        }
        self.pending.len()
    }

    /// When the delay on `path` runs out, if the path waits.
    pub fn due_of(&self, path: &str) -> (due: Option<u64>)
        ensures
            due is Some <==> self@.pending.contains_key(path@),
            due matches Some(at) ==> at == self@.pending[path@].due,
    {
        match self.slot(&path.to_owned()) {
            Some(i) => Some(self.pending[i].due),
            None => None,
        }
    }

    /// Takes an event at `now` on `path`: the path now waits for `task`, until
    /// the quiet time has passed since `now`. What waited on the path before
    /// is cancelled; what waits on other paths is not touched.
    pub fn submit(
        &mut self,
        now: u64,
        path: String,
        file_name: String,
        task: TaskConf,
    ) -> (scheduled: Scheduled)
        ensures
            final(self)@ == spec_submit(old(self)@, now, path@, file_name@, task@),
            scheduled.due == spec_deadline(now, old(self)@.delay),
            scheduled.delay == old(self)@.delay,
            scheduled.replaced == old(self)@.pending.contains_key(path@),
    {
        proof {
            use_type_invariant(&*self);
        }
        let ghost before = self.pending@;
        let due = now.saturating_add(self.delay);
        let entry = Pending { path, file_name, task, due };
        let found = self.slot(&entry.path);
        let ghost at: int = match found {
            Some(i) => i as int,
            None => before.len() as int,
        };
        let mut pending: Vec<Pending> = Vec::new();
        core::mem::swap(&mut self.pending, &mut pending);
        let replaced = match found {
            Some(i) => {
                pending.set(i, entry);
                true
            },
            None => {
                pending.push(entry);
                false
            },
        };
        let ghost after = pending@;
        proof {
            assert(spec_waits_at(after, at, path@));
            assert(forall|j: int| 0 <= j < before.len() && j != at ==> after[j] == before[j]);
            assert(forall|j: int| spec_waits_at(before, j, path@) ==> j == at);
            assert(spec_distinct_paths(after)) by {
                assert forall|i: int, j: int| 0 <= i < j < after.len() implies after[i].path@
                    != after[j].path@ by {
                    if i == at {
                        assert(!spec_waits_at(before, j, path@));
                    } else if j == at {
                        assert(!spec_waits_at(before, i, path@));
                    }
                }
            }
            let goal = spec_pending_table(before).insert(path@, spec_pending_view(after[at]));
            assert forall|key: Seq<char>|
                spec_pending_table(after).contains_key(key) <==> goal.contains_key(key) by {
                if spec_pending_table(after).contains_key(key) && key != path@ {
                    let j = choose|j: int| spec_waits_at(after, j, key);
                    assert(spec_waits_at(before, j, key));
                }
                if key != path@ && spec_pending_table(before).contains_key(key) {
                    let j = choose|j: int| spec_waits_at(before, j, key);
                    assert(spec_waits_at(after, j, key));
                }
            }
            assert forall|key: Seq<char>| spec_pending_table(after).contains_key(key) implies (
            #[trigger] spec_pending_table(after)[key]) == goal[key] by {
                let j = choose|j: int| spec_waits_at(after, j, key);
                lemma_slot_of(after, j);
                if key != path@ {
                    assert(spec_waits_at(before, j, key));
                    lemma_slot_of(before, j);
                }
            }
            assert(spec_pending_table(after) =~= goal);
        }
        self.pending = pending;
        Scheduled { due, delay: self.delay, replaced }
    }

    /// Asks for `path` at `now`. If the delay on the path has run out, the
    /// path waits no longer and its task is handed out, to run once and to
    /// the end. If not (a later event has put it off, or nothing waits),
    /// nothing is handed out and nothing changes.
    pub fn fire(&mut self, now: u64, path: &str) -> (dispatch: Option<Dispatch>)
        ensures
            final(self)@ == spec_fire(old(self)@, now, path@),
            dispatch is Some <==> spec_fired(old(self)@, now, path@) is Some,
            dispatch matches Some(d) ==> Some(d@) == spec_fired(old(self)@, now, path@),
    {
        proof {
            use_type_invariant(&*self);
        }
        let ghost before = self.pending@;
        match self.slot(&path.to_owned()) {
            Some(i) => {
                if self.pending[i].due <= now {
                    let mut pending: Vec<Pending> = Vec::new();
                    core::mem::swap(&mut self.pending, &mut pending);
                    let entry = pending.remove(i);
                    let ghost after = pending@;
                    proof {
                        let at = i as int;
                        assert(forall|j: int| 0 <= j < at ==> after[j] == before[j]);
                        assert(forall|j: int|
                            at <= j < after.len() ==> after[j] == before[j + 1]);
                        assert(forall|j: int| spec_waits_at(before, j, path@) ==> j == at);
                        assert(spec_distinct_paths(after));
                        let goal = spec_pending_table(before).remove(path@);
                        assert forall|key: Seq<char>|
                            spec_pending_table(after).contains_key(key) <==> goal.contains_key(
                                key,
                            ) by {
                            if spec_pending_table(after).contains_key(key) {
                                let j = choose|j: int| spec_waits_at(after, j, key);
                                if j < at {
                                    assert(spec_waits_at(before, j, key));
                                } else {
                                    assert(spec_waits_at(before, j + 1, key));
                                }
                            }
                            if goal.contains_key(key) {
                                let j = choose|j: int| spec_waits_at(before, j, key);
                                if j < at {
                                    assert(spec_waits_at(after, j, key));
                                } else {
                                    assert(spec_waits_at(after, j - 1, key));
                                }
                            }
                        }
                        assert forall|key: Seq<char>|
                            spec_pending_table(after).contains_key(key) implies (
                        #[trigger] spec_pending_table(after)[key]) == goal[key] by {
                            let j = choose|j: int| spec_waits_at(after, j, key);
                            lemma_slot_of(after, j);
                            if j < at {
                                lemma_slot_of(before, j);
                            } else {
                                lemma_slot_of(before, j + 1);
                            }
                        }
                        assert(spec_pending_table(after) =~= goal);
                    }
                    self.pending = pending;
                    Some(Dispatch { path: entry.path, file_name: entry.file_name, task: entry.task })
                } else {
                    None
                }
            },
            None => None,
        }
    }
}

/// As many paths wait as there are entries.
proof fn lemma_table_size(entries: Seq<Pending>)
    requires
        spec_distinct_paths(entries),
    ensures
        spec_pending_table(entries).dom().finite(),
        spec_pending_table(entries).dom().len() == entries.len(),
    decreases entries.len(),
{
    let table = spec_pending_table(entries);
    if entries.len() == 0 {
        assert(table.dom() =~= Set::<Seq<char>>::empty()) by {
            assert forall|path: Seq<char>| !table.dom().contains(path) by {
                assert(forall|i: int| !spec_waits_at(entries, i, path));
            }
        }
    } else {
        let rest = entries.drop_last();
        let last = entries.last();
        lemma_table_size(rest);
        let smaller = spec_pending_table(rest);
        assert(table.dom() =~= smaller.dom().insert(last.path@)) by {
            assert forall|path: Seq<char>|
                table.dom().contains(path) <==> smaller.dom().insert(last.path@).contains(
                    path,
                ) by {
                if table.dom().contains(path) {
                    let j = choose|j: int| spec_waits_at(entries, j, path);
                    if j < rest.len() {
                        assert(spec_waits_at(rest, j, path));
                    }
                }
                if smaller.dom().contains(path) {
                    let j = choose|j: int| spec_waits_at(rest, j, path);
                    assert(spec_waits_at(entries, j, path));
                }
                if path == last.path@ {
                    assert(spec_waits_at(entries, entries.len() - 1, path));
                }
            }
        }
        assert(!smaller.dom().contains(last.path@)) by {
            if smaller.dom().contains(last.path@) {
                let j = choose|j: int| spec_waits_at(rest, j, last.path@);
                assert(entries[j].path@ != entries[entries.len() - 1].path@);
            }
        }
    }
}

/// One thing that happens to a path: an event on it, or a question whether
/// its delay has run out.
pub enum TraceStep {
    Submit { now: u64, file_name: Seq<char>, task: TaskView },
    Fire { now: u64 },
}

pub open spec fn spec_step_time(step: TraceStep) -> u64 {
    match step {
        TraceStep::Submit { now, .. } => now,
        TraceStep::Fire { now } => now,
    }
}

/// What the path would run for the event `step`.
pub open spec fn spec_step_dispatch(path: Seq<char>, step: TraceStep) -> DispatchView {
    match step {
        TraceStep::Submit { file_name, task, .. } => DispatchView { path, file_name, task },
        TraceStep::Fire { .. } => arbitrary(),
    }
}

/// The dispatcher after one step on `path`.
pub open spec fn spec_step(d: DispatcherView, path: Seq<char>, step: TraceStep) -> DispatcherView {
    match step {
        TraceStep::Submit { now, file_name, task } => spec_submit(d, now, path, file_name, task),
        TraceStep::Fire { now } => spec_fire(d, now, path),
    }
}

/// The dispatcher after all of `steps` on `path`, in their order.
pub open spec fn spec_after(
    d: DispatcherView,
    path: Seq<char>,
    steps: Seq<TraceStep>,
) -> DispatcherView
    decreases steps.len(),
{
    if steps.len() == 0 {
        d
    } else {
        spec_step(spec_after(d, path, steps.drop_last()), path, steps.last())
    }
}

/// What was handed out to run in the course of `steps` on `path`, in order.
pub open spec fn spec_runs(
    d: DispatcherView,
    path: Seq<char>,
    steps: Seq<TraceStep>,
) -> Seq<DispatchView>
    decreases steps.len(),
{
    if steps.len() == 0 {
        Seq::empty()
    } else {
        let earlier = spec_runs(d, path, steps.drop_last());
        match steps.last() {
            TraceStep::Submit { .. } => earlier,
            TraceStep::Fire { now } => match spec_fired(
                spec_after(d, path, steps.drop_last()),
                now,
                path,
            ) {
                Some(dispatch) => earlier.push(dispatch),
                None => earlier,
            },
        }
    }
}

/// The index of the last event among `steps`, or -1 if there is none.
pub open spec fn spec_last_submit(steps: Seq<TraceStep>) -> int
    decreases steps.len(),
{
    if steps.len() == 0 {
        -1
    } else if steps.last() is Submit {
        steps.len() - 1
    } else {
        spec_last_submit(steps.drop_last())
    }
}

/// The steps come in the order of their times.
pub open spec fn spec_in_order(steps: Seq<TraceStep>) -> bool {
    forall|i: int, j: int|
        0 <= i <= j < steps.len() ==> spec_step_time(steps[i]) <= spec_step_time(steps[j])
}

/// The event before `steps[j]`, or -1.
pub open spec fn spec_event_before(steps: Seq<TraceStep>, j: int) -> int {
    spec_last_submit(steps.take(j))
}

/// The events form a burst: each comes less than `delay` after the one
/// before it, and none so late that its deadline is past the end of time.
pub open spec fn spec_is_burst(steps: Seq<TraceStep>, delay: u64) -> bool {
    &&& steps.len() > 0
    &&& steps[0] is Submit
    &&& forall|j: int|
        0 <= j < steps.len() && steps[j] is Submit ==> spec_step_time(steps[j]) + delay
            <= u64::MAX
    &&& forall|j: int|
        0 < j < steps.len() && steps[j] is Submit ==> spec_step_time(steps[j]) < spec_step_time(
            steps[#[trigger] spec_event_before(steps, j)],
        ) + delay
}

/// After the last event, the path is asked for at least once when its quiet
/// time has passed.
pub open spec fn spec_asked_when_due(steps: Seq<TraceStep>, delay: u64) -> bool {
    exists|k: int|
        spec_last_submit(steps) < k < steps.len() && #[trigger] spec_step_time(steps[k])
            >= spec_step_time(steps[spec_last_submit(steps)]) + delay
}

proof fn lemma_last_submit(steps: Seq<TraceStep>)
    ensures
        -1 <= spec_last_submit(steps) < steps.len(),
        spec_last_submit(steps) >= 0 ==> steps[spec_last_submit(steps)] is Submit,
        forall|k: int| spec_last_submit(steps) < k < steps.len() ==> steps[k] is Fire,
        steps.len() > 0 && steps[0] is Submit ==> spec_last_submit(steps) >= 0,
    decreases steps.len(),
{
    if steps.len() > 0 && !(steps.last() is Submit) {
        let rest = steps.drop_last();
        lemma_last_submit(rest);
        assert forall|k: int| spec_last_submit(steps) < k < steps.len() implies steps[k] is Fire by {
            if k < rest.len() {
                assert(rest[k] == steps[k]);
            }
        }
        if spec_last_submit(rest) >= 0 {
            assert(rest[spec_last_submit(rest)] == steps[spec_last_submit(rest)]);
        }
        if steps[0] is Submit {
            assert(rest.len() > 0);
            assert(rest[0] == steps[0]);
        }
    }
}

/// Where a burst stands after its first `n` steps: the path waits for the
/// last event so far and nothing has run, or that event's task has run, once,
/// and nothing waits.
spec fn burst_state(d: DispatcherView, path: Seq<char>, steps: Seq<TraceStep>, n: int) -> bool {
    let seen = steps.take(n);
    let i = spec_last_submit(seen);
    let after = spec_after(d, path, seen);
    let runs = spec_runs(d, path, seen);
    let due = spec_step_time(steps[i]) + d.delay;
    &&& 0 <= i < n
    &&& steps[i] is Submit
    &&& after.delay == d.delay
    &&& {
        ||| {
            &&& runs == Seq::<DispatchView>::empty()
            &&& after.pending.contains_key(path)
            &&& after.pending[path].due == due
            &&& after.pending[path].file_name == spec_step_dispatch(path, steps[i]).file_name
            &&& after.pending[path].task == spec_step_dispatch(path, steps[i]).task
            &&& forall|k: int| i < k < n ==> spec_step_time(steps[k]) < due
        }
        ||| {
            &&& runs == seq![spec_step_dispatch(path, steps[i])]
            &&& !after.pending.contains_key(path)
            &&& exists|k: int| i < k < n && #[trigger] spec_step_time(steps[k]) >= due
        }
    }
}

proof fn lemma_burst_prefix(d: DispatcherView, path: Seq<char>, steps: Seq<TraceStep>, n: int)
    requires
        spec_in_order(steps),
        spec_is_burst(steps, d.delay),
        1 <= n <= steps.len(),
    ensures
        burst_state(d, path, steps, n),
    decreases n,
{
    let seen = steps.take(n);
    let earlier = steps.take(n - 1);
    assert(seen.drop_last() =~= earlier);
    assert(seen.last() == steps[n - 1]);
    lemma_last_submit(seen);
    lemma_last_submit(earlier);
    let before = spec_after(d, path, earlier);
    assert(spec_after(d, path, seen) == spec_step(before, path, steps[n - 1]));
    if n == 1 {
        assert(earlier.len() == 0);
        assert(seen[0] == steps[0]);
        assert(before == d);
        assert(spec_runs(d, path, earlier) == Seq::<DispatchView>::empty());
        assert(spec_last_submit(seen) == 0);
    } else {
        lemma_burst_prefix(d, path, steps, n - 1);
        let i = spec_last_submit(earlier);
        let due = spec_step_time(steps[i]) + d.delay;
        match steps[n - 1] {
            TraceStep::Submit { now, .. } => {
                assert(spec_event_before(steps, n - 1) == i);
                if !spec_after(d, path, earlier).pending.contains_key(path) {
                    let k = choose|k: int|
                        i < k < n - 1 && #[trigger] spec_step_time(steps[k]) >= due;
                    assert(spec_step_time(steps[k]) <= spec_step_time(steps[n - 1]));
                }
            },
            TraceStep::Fire { now } => {
                assert(spec_last_submit(seen) == i);
                if spec_after(d, path, earlier).pending.contains_key(path) {
                    if now >= due {
                        assert(spec_step_time(steps[n - 1]) >= due);
                    }
                } else {
                    let k = choose|k: int|
                        i < k < n - 1 && #[trigger] spec_step_time(steps[k]) >= due;
                    assert(i < k < n && spec_step_time(steps[k]) >= due);
                }
            },
        }
    }
}

/// However many events come in a burst on one path, and however often the
/// path is asked for meanwhile, one task runs, once: that of the last event.
pub proof fn law_burst_runs_last_event_once(
    d: DispatcherView,
    path: Seq<char>,
    steps: Seq<TraceStep>,
)
    requires
        spec_in_order(steps),
        spec_is_burst(steps, d.delay),
        spec_asked_when_due(steps, d.delay),
    ensures
        spec_runs(d, path, steps) == seq![
            spec_step_dispatch(path, steps[spec_last_submit(steps)]),
        ],
        !spec_after(d, path, steps).pending.contains_key(path),
{
    lemma_burst_prefix(d, path, steps, steps.len() as int);
    assert(steps.take(steps.len() as int) =~= steps);
}

/// A task runs no sooner than the quiet time after its event, and at any
/// moment from then on at which the path is asked for.
pub proof fn law_runs_when_quiet_time_has_passed(
    d: DispatcherView,
    event_at: u64,
    asked_at: u64,
    path: Seq<char>,
    file_name: Seq<char>,
    task: TaskView,
)
    ensures
        spec_fired(spec_submit(d, event_at, path, file_name, task), asked_at, path) == (
        if asked_at >= spec_deadline(event_at, d.delay) {
            Some(DispatchView { path, file_name, task })
        } else {
            None
        }),
{
}

/// Two events on one path that lie more than the quiet time apart run two
/// tasks, each its own: the first when the path is asked for between its
/// deadline and the second event, the second after its own deadline.
pub proof fn law_separate_events_run_separately(
    d: DispatcherView,
    path: Seq<char>,
    first: TraceStep,
    first_asked: u64,
    second: TraceStep,
    second_asked: u64,
)
    requires
        first is Submit,
        second is Submit,
        spec_step_time(first) + d.delay < spec_step_time(second),
        spec_step_time(first) + d.delay <= first_asked <= spec_step_time(second),
        spec_step_time(second) + d.delay <= second_asked,
    ensures
        spec_runs(
            d,
            path,
            seq![
                first,
                TraceStep::Fire { now: first_asked },
                second,
                TraceStep::Fire { now: second_asked },
            ],
        ) == seq![spec_step_dispatch(path, first), spec_step_dispatch(path, second)],
{
    let steps = seq![
        first,
        TraceStep::Fire { now: first_asked },
        second,
        TraceStep::Fire { now: second_asked },
    ];
    let s3 = steps.drop_last();
    let s2 = s3.drop_last();
    let s1 = s2.drop_last();
    let s0 = s1.drop_last();
    assert(s0.len() == 0);
    assert(s1.last() == first);
    assert(s2.last() == TraceStep::Fire { now: first_asked });
    assert(s3.last() == second);
    assert(steps.last() == TraceStep::Fire { now: second_asked });
    assert(spec_after(d, path, s0) == d);
    assert(spec_runs(d, path, s0) == Seq::<DispatchView>::empty());
    let a1 = spec_after(d, path, s1);
    assert(a1 == spec_step(d, path, first));
    let a2 = spec_after(d, path, s2);
    assert(a2 == spec_fire(a1, first_asked, path));
    let a3 = spec_after(d, path, s3);
    assert(a3 == spec_step(a2, path, second));
    assert(spec_runs(d, path, s1) == Seq::<DispatchView>::empty());
    assert(spec_runs(d, path, s2) == seq![spec_step_dispatch(path, first)]);
    assert(spec_runs(d, path, s3) == spec_runs(d, path, s2));
}

/// What happens on one path leaves every other path as it was.
pub proof fn law_paths_do_not_interfere(
    d: DispatcherView,
    path: Seq<char>,
    other: Seq<char>,
    step: TraceStep,
)
    requires
        path != other,
    ensures
        spec_step(d, path, step).pending.contains_key(other) == d.pending.contains_key(other),
        d.pending.contains_key(other) ==> spec_step(d, path, step).pending[other]
            == d.pending[other],
{
}

} // verus!
