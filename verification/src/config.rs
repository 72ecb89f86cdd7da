//! The configuration that a run works from: tasks by name, rules in order,
//! and the quiet time that coalesces events. It is built once and only read
//! afterwards.

use vstd::prelude::*;

verus! {

/// Copy the file into `target`.
#[derive(Debug, Clone, PartialEq, Eq)]
pub struct CopyTaskConf {
    pub target: String,
}

/// Move the file into `target`.
#[derive(Debug, Clone, PartialEq, Eq)]
pub struct MoveTaskConf {
    pub target: String,
}

/// Try to open the file as an archive, unless `pwd` already holds a
/// directory of its name.
#[derive(Debug, Clone, PartialEq, Eq)]
pub struct TryUnpackTaskConf {
    pub pwd: String,
}

/// What to do with a file that a rule has matched.
#[derive(Debug, PartialEq, Eq)]
pub enum TaskConf {
    Copy(CopyTaskConf),
    Move(MoveTaskConf),
    TryUnpack(TryUnpackTaskConf),
}

/// A task as a plain value.
pub enum TaskView {
    Copy { target: Seq<char> },
    Move { target: Seq<char> },
    TryUnpack { pwd: Seq<char> },
}

impl View for TaskConf {
    type V = TaskView;

    open spec fn view(&self) -> TaskView {
        match self {
            TaskConf::Copy(conf) => TaskView::Copy { target: conf.target@ },
            TaskConf::Move(conf) => TaskView::Move { target: conf.target@ },
            TaskConf::TryUnpack(conf) => TaskView::TryUnpack { pwd: conf.pwd@ },
        }
    }
}

impl Clone for TaskConf {
    fn clone(&self) -> (copy: Self)
        ensures
            copy@ == self@,
    {
        match self {
            TaskConf::Copy(conf) => TaskConf::Copy(CopyTaskConf { target: conf.target.clone() }),
            TaskConf::Move(conf) => TaskConf::Move(MoveTaskConf { target: conf.target.clone() }),
            TaskConf::TryUnpack(conf) => TaskConf::TryUnpack(
                TryUnpackTaskConf { pwd: conf.pwd.clone() },
            ),
        }
    }
}

/// One rule: names that match `test`, seen in `watch_dir`, get the task
/// `execute`, or else the task that `emit` names. `priority` is kept and
/// never read.
#[derive(Debug, PartialEq, Eq)]
pub struct Rule {
    pub test: String,
    pub watch_dir: String,
    pub emit: Option<String>,
    pub priority: Option<i32>,
    pub execute: Option<TaskConf>,
}

/// A rule as a plain value.
pub struct RuleView {
    pub test: Seq<char>,
    pub watch_dir: Seq<char>,
    pub emit: Option<Seq<char>>,
    pub priority: Option<i32>,
    pub execute: Option<TaskView>,
}

impl View for Rule {
    type V = RuleView;

    open spec fn view(&self) -> RuleView {
        RuleView {
            test: self.test@,
            watch_dir: self.watch_dir@,
            emit: match self.emit {
                Some(name) => Some(name@),
                None => None,
            },
            priority: self.priority,
            execute: match self.execute {
                Some(task) => Some(task@),
                None => None,
            },
        }
    }
}

impl Clone for Rule {
    fn clone(&self) -> (copy: Self)
        ensures
            copy@ == self@,
    {
        Rule {
            test: self.test.clone(),
            watch_dir: self.watch_dir.clone(),
            emit: match &self.emit {
                Some(name) => Some(name.clone()),
                None => None,
            },
            priority: self.priority,
            execute: match &self.execute {
                Some(task) => Some(task.clone()),
                None => None,
            },
        }
    }
}

/// A task under the name by which rules refer to it.
#[derive(Debug, PartialEq, Eq)]
pub struct NamedTask {
    pub name: String,
    pub task: TaskConf,
}

/// Whether `entries[i]` is the entry under `name`.
pub open spec fn spec_names(entries: Seq<NamedTask>, i: int, name: Seq<char>) -> bool {
    0 <= i < entries.len() && entries[i].name@ == name
}

/// Where `name` stands in `entries`, if it stands there.
pub open spec fn spec_index_of(entries: Seq<NamedTask>, name: Seq<char>) -> int {
    choose|i: int| spec_names(entries, i, name)
}

/// The tasks of `entries` by name.
pub open spec fn spec_task_table(entries: Seq<NamedTask>) -> Map<Seq<char>, TaskView> {
    Map::new(
        |name: Seq<char>| exists|i: int| spec_names(entries, i, name),
        |name: Seq<char>| entries[spec_index_of(entries, name)].task@,
    )
}

/// No name stands twice in `entries`.
pub open spec fn spec_distinct_names(entries: Seq<NamedTask>) -> bool {
    forall|i: int, j: int|
        0 <= i < j < entries.len() ==> entries[i].name@ != entries[j].name@
}

/// The whole configuration.
#[derive(Debug)]
pub struct RunConfig {
    tasks: Vec<NamedTask>,
    rules: Vec<Rule>,
    debounce_time: u32,
}

/// A configuration as a plain value.
pub struct RunConfigView {
    pub tasks: Map<Seq<char>, TaskView>,
    pub rules: Seq<RuleView>,
    pub debounce_time: u32,
}

/// The task that a match of `rule` runs: the rule's own, else the one it
/// names, else none.
pub open spec fn spec_resolve(rule: RuleView, tasks: Map<Seq<char>, TaskView>) -> Option<TaskView> {
    match rule.execute {
        Some(task) => Some(task),
        None => match rule.emit {
            Some(name) => if tasks.contains_key(name) {
                Some(tasks[name])
            } else {
                None
            },
            None => None,
        },
    }
}

impl RunConfig {
    /// Each task name is held once.
    #[verifier::type_invariant]
    spec fn distinct_names(self) -> bool {
        spec_distinct_names(self.tasks@)
    }

    pub closed spec fn tasks_view(&self) -> Map<Seq<char>, TaskView> {
        spec_task_table(self.tasks@)
    }

    pub closed spec fn rules_view(&self) -> Seq<RuleView> {
        Seq::new(self.rules.len() as nat, |i: int| self.rules[i]@)
    }

    pub closed spec fn spec_debounce_time(&self) -> u32 {
        self.debounce_time
    }
}

impl View for RunConfig {
    type V = RunConfigView;

    open spec fn view(&self) -> RunConfigView {
        RunConfigView {
            tasks: self.tasks_view(),
            rules: self.rules_view(),
            debounce_time: self.spec_debounce_time(),
        }
    }
}

/// With distinct names, the entry under a name is the one at any index that
/// holds the name.
pub proof fn lemma_index_of(entries: Seq<NamedTask>, i: int)
    requires
        spec_distinct_names(entries),
        0 <= i < entries.len(),
    ensures
        spec_index_of(entries, entries[i].name@) == i,
        spec_task_table(entries).contains_key(entries[i].name@),
        spec_task_table(entries)[entries[i].name@] == entries[i].task@,
{
    let name = entries[i].name@;
    assert(spec_names(entries, i, name));
    let j = spec_index_of(entries, name);
    assert(spec_names(entries, j, name));
    if j < i {
        assert(entries[j].name@ != entries[i].name@);
    } else if i < j {
        assert(entries[i].name@ != entries[j].name@);
    }
}

impl RunConfig {
    /// A configuration with no task and no rule yet.
    pub fn new(debounce_time: u32) -> (config: RunConfig)
        ensures
            config@.tasks == Map::<Seq<char>, TaskView>::empty(),
            config@.rules == Seq::<RuleView>::empty(),
            config@.debounce_time == debounce_time,
    {
        let config = RunConfig { tasks: Vec::new(), rules: Vec::new(), debounce_time };
        assert(config.tasks_view() =~= Map::<Seq<char>, TaskView>::empty()) by {
            assert forall|name: Seq<char>| !config.tasks_view().contains_key(name) by {
                assert(forall|i: int| !spec_names(config.tasks@, i, name));
            }
        }
        assert(config.rules_view() =~= Seq::<RuleView>::empty());
        config
    }

    /// The quiet time, in seconds, that must pass on a path before its task
    /// runs.
    pub fn debounce_time(&self) -> (seconds: u32)
        ensures
            seconds == self@.debounce_time,
    {
        self.debounce_time
    }

    /// How many rules there are.
    pub fn rule_count(&self) -> (count: usize)
        ensures
            count == self@.rules.len(),
    {
        self.rules.len()
    }

    /// The rule at `index`, in the order in which the rules were added.
    pub fn rule(&self, index: usize) -> (rule: Option<&Rule>)
        ensures
            rule is Some <==> index < self@.rules.len(),
            rule matches Some(r) ==> r@ == self@.rules[index as int],
    {
        if index < self.rules.len() {
            Some(&self.rules[index])
        } else {
            None
        }
    }

    /// The rule at `index`, which is one of the rules.
    pub(crate) fn rule_at(&self, index: usize) -> (rule: &Rule)
        requires
            index < self@.rules.len(),
        ensures
            rule@ == self@.rules[index as int],
    {
        &self.rules[index]
    }

    /// Adds a rule behind those that are there.
    pub fn add_rule(&mut self, rule: Rule)
        ensures
            final(self)@.rules == old(self)@.rules.push(rule@),
            final(self)@.tasks == old(self)@.tasks,
            final(self)@.debounce_time == old(self)@.debounce_time,
    {
        proof {
            use_type_invariant(&*self);
        }
        let mut rules: Vec<Rule> = Vec::new();
        core::mem::swap(&mut self.rules, &mut rules);
        rules.push(rule);
        self.rules = rules;
        assert(self.rules_view() =~= old(self).rules_view().push(rule@));
    }

    fn position(&self, name: &String) -> (found: Option<usize>)
        ensures
            found matches Some(i) ==> spec_names(self.tasks@, i as int, name@),
            found is None ==> forall|i: int| !spec_names(self.tasks@, i, name@),
    {
        let mut i: usize = 0;
        while i < self.tasks.len()
            invariant
                i <= self.tasks.len(),
                forall|j: int| 0 <= j < i ==> self.tasks[j].name@ != name@,
            decreases self.tasks.len() - i,
        {
            if self.tasks[i].name == *name {
                return Some(i);
            }
            i = i + 1;
        }
        None
    }

    /// The tasks with their names, each name once, in no order that means
    /// anything.
    pub fn named_tasks(&self) -> (entries: &Vec<NamedTask>)
        ensures
            spec_distinct_names(entries@),
            spec_task_table(entries@) == self@.tasks,
    {
        proof {
            use_type_invariant(self);
        }
        &self.tasks
    }

    /// The task under `name`, if there is one.
    pub fn task(&self, name: &str) -> (task: Option<&TaskConf>)
        ensures
            task is Some <==> self@.tasks.contains_key(name@),
            task matches Some(t) ==> t@ == self@.tasks[name@],
    {
        match self.position(&name.to_owned()) {
            Some(i) => {
                proof {
                    use_type_invariant(self);
                    lemma_index_of(self.tasks@, i as int);
                }
                Some(&self.tasks[i].task)
            },
            None => None,
        }
    }

    /// Puts `task` under `name`, in place of the task that was there, if any.
    pub fn add_task(&mut self, name: String, task: TaskConf)
        ensures
            final(self)@.tasks == old(self)@.tasks.insert(name@, task@),
            final(self)@.rules == old(self)@.rules,
            final(self)@.debounce_time == old(self)@.debounce_time,
    {
        let ghost before = self.tasks@;
        let entry = NamedTask { name, task };
        proof {
            use_type_invariant(&*self);
        }
        let found = self.position(&entry.name);
        let ghost at: int = match found {
            Some(i) => i as int,
            None => before.len() as int,
        };
        let mut tasks: Vec<NamedTask> = Vec::new();
        core::mem::swap(&mut self.tasks, &mut tasks);
        match found {
            Some(i) => {
                tasks.set(i, entry);
            },
            None => {
                tasks.push(entry);
            },
        }
        let ghost after = tasks@;
        assert(self.rules_view() =~= old(self).rules_view());
        assert(spec_names(after, at, name@));
        assert(forall|j: int| 0 <= j < before.len() && j != at ==> after[j] == before[j]);
        assert(forall|j: int| spec_names(before, j, name@) ==> j == at);
        assert(spec_distinct_names(after)) by {
            assert forall|i: int, j: int| 0 <= i < j < after.len() implies after[i].name@
                != after[j].name@ by {
                if i == at {
                    assert(!spec_names(before, j, name@));
                } else if j == at {
                    assert(!spec_names(before, i, name@));
                }
            }
        }
        assert(spec_task_table(after) =~= spec_task_table(before).insert(name@, task@)) by {
            assert forall|key: Seq<char>|
                spec_task_table(after).contains_key(key) <==> (key == name@ || spec_task_table(
                    before,
                ).contains_key(key)) by {
                if spec_task_table(after).contains_key(key) {
                    let j = choose|j: int| spec_names(after, j, key);
                    if key != name@ {
                        assert(spec_names(before, j, key));
                    }
                }
                if key != name@ && spec_task_table(before).contains_key(key) {
                    let j = choose|j: int| spec_names(before, j, key);
                    assert(spec_names(after, j, key));
                }
            }
            assert forall|key: Seq<char>| spec_task_table(after).contains_key(key) implies (
            #[trigger] spec_task_table(after)[key]) == spec_task_table(before).insert(
                name@,
                task@,
            )[key] by {
                let j = choose|j: int| spec_names(after, j, key);
                lemma_index_of(after, j);
                if key != name@ {
                    assert(spec_names(before, j, key));
                    lemma_index_of(before, j);
                }
            }
        }
        self.tasks = tasks;
    }

    /// The task that a match of `rule` runs: the rule's own if it has one,
    /// else the task that it names, else none.
    pub fn resolve<'a>(&'a self, rule: &'a Rule) -> (task: Option<&'a TaskConf>)
        ensures
            task is Some <==> spec_resolve(rule@, self@.tasks) is Some,
            task matches Some(t) ==> Some(t@) == spec_resolve(rule@, self@.tasks),
    {
        match &rule.execute {
            Some(task) => Some(task),
            None => match &rule.emit {
                Some(name) => self.task(name.as_str()),
                None => None,
            },
        }
    }
}

} // verus!
