//! Tasks, their one level of subtasks, and the values contracts speak of.

use vstd::prelude::*;

verus! {

/// How urgent a task is.
#[derive(Clone, Copy, Debug, PartialEq, Eq, Structural)]
pub enum Priority {
    Low,
    Medium,
    High,
}

impl Priority {
    /// The priority that follows `self` in the cycle Low, Medium, High, Low.
    pub open spec fn cycled(self) -> Priority {
        match self {
            Priority::Low => Priority::Medium,
            Priority::Medium => Priority::High,
            Priority::High => Priority::Low,
        }
    }

    /// Steps to the next priority of the cycle.
    pub fn cycle(self) -> (next: Priority)
        ensures
            next == self.cycled(),
    {
        match self {
            Priority::Low => Priority::Medium,
            Priority::Medium => Priority::High,
            Priority::High => Priority::Low,
        }
    }
}

impl Default for Priority {
    fn default() -> (p: Priority)
        ensures
            p == Priority::Medium,
    {
        Priority::Medium
    }
}

/// Cycling a priority three times gives the priority it started from.
pub proof fn cycle_thrice_is_identity(p: Priority)
    ensures
        p.cycled().cycled().cycled() == p,
        p.cycled() != p,
        p.cycled().cycled() != p,
{
}

/// What a subtask is, as a mathematical value.
pub struct SubTaskView {
    pub id: nat,
    pub description: Seq<char>,
    pub completed: bool,
    pub priority: Priority,
    pub due_date: Option<Seq<char>>,
    pub tags: Seq<Seq<char>>,
}

/// What a task is, as a mathematical value.
pub struct TaskView {
    pub id: nat,
    pub description: Seq<char>,
    pub completed: bool,
    pub priority: Priority,
    pub due_date: Option<Seq<char>>,
    pub tags: Seq<Seq<char>>,
    pub sub_tasks: Seq<SubTaskView>,
}

/// A task nested under a top-level task. Its `id` is unique among the
/// subtasks of its parent only. A subtask has no subtasks of its own.
#[derive(Debug)]
pub struct SubTask {
    pub id: usize,
    pub description: String,
    pub completed: bool,
    pub priority: Priority,
    pub due_date: Option<String>,
    pub tags: Vec<String>,
}

/// A top-level task. Its `id` is unique among the top-level tasks.
#[derive(Debug)]
pub struct Task {
    pub id: usize,
    pub description: String,
    pub completed: bool,
    pub priority: Priority,
    pub due_date: Option<String>,
    pub tags: Vec<String>,
    pub sub_tasks: Vec<SubTask>,
}

impl View for SubTask {
    type V = SubTaskView;

    open spec fn view(&self) -> SubTaskView {
        SubTaskView {
            id: self.id as nat,
            description: self.description@,
            completed: self.completed,
            priority: self.priority,
            due_date: self.due_date.deep_view(),
            tags: self.tags.deep_view(),
        }
    }
}

impl DeepView for SubTask {
    type V = SubTaskView;

    open spec fn deep_view(&self) -> SubTaskView {
        self@
    }
}

impl View for Task {
    type V = TaskView;

    open spec fn view(&self) -> TaskView {
        TaskView {
            id: self.id as nat,
            description: self.description@,
            completed: self.completed,
            priority: self.priority,
            due_date: self.due_date.deep_view(),
            tags: self.tags.deep_view(),
            sub_tasks: self.sub_tasks.deep_view(),
        }
    }
}

impl DeepView for Task {
    type V = TaskView;

    open spec fn deep_view(&self) -> TaskView {
        self@
    }
}

/// A copy of a list of strings.
pub fn clone_strings(v: &Vec<String>) -> (copy: Vec<String>)
    ensures
        copy.deep_view() == v.deep_view(),
{
    let mut copy: Vec<String> = Vec::new();
    let mut i: usize = 0;
    while i < v.len()
        invariant
            i <= v.len(),
            copy.len() == i,
            forall|k: int| 0 <= k < i ==> copy[k]@ == v[k]@,
        decreases v.len() - i,
    {
        copy.push(v[i].clone());
        i += 1;
    }
    assert(copy.deep_view() =~= v.deep_view());
    copy
}

/// A copy of an optional string.
pub fn clone_opt_string(s: &Option<String>) -> (copy: Option<String>)
    ensures
        copy.deep_view() == s.deep_view(),
{
    match s {
        Some(text) => Some(text.clone()),
        None => None,
    }
}

impl Clone for SubTask {
    fn clone(&self) -> (copy: SubTask)
        ensures
            copy@ == self@,
    {
        SubTask {
            id: self.id,
            description: self.description.clone(),
            completed: self.completed,
            priority: self.priority,
            due_date: clone_opt_string(&self.due_date),
            tags: clone_strings(&self.tags),
        }
    }
}

/// A copy of a list of subtasks.
pub fn clone_sub_tasks(v: &Vec<SubTask>) -> (copy: Vec<SubTask>)
    ensures
        copy.deep_view() == v.deep_view(),
{
    let mut copy: Vec<SubTask> = Vec::new();
    let mut i: usize = 0;
    while i < v.len()
        invariant
            i <= v.len(),
            copy.len() == i,
            forall|k: int| 0 <= k < i ==> copy[k]@ == v[k]@,
        decreases v.len() - i,
    {
        copy.push(v[i].clone());
        i += 1;
    }
    assert(copy.deep_view() =~= v.deep_view());
    copy
}

impl Clone for Task {
    fn clone(&self) -> (copy: Task)
        ensures
            copy@ == self@,
    {
        Task {
            id: self.id,
            description: self.description.clone(),
            completed: self.completed,
            priority: self.priority,
            due_date: clone_opt_string(&self.due_date),
            tags: clone_strings(&self.tags),
            sub_tasks: clone_sub_tasks(&self.sub_tasks),
        }
    }
}

/// A copy of a list of tasks.
pub fn clone_tasks(v: &Vec<Task>) -> (copy: Vec<Task>)
    ensures
        copy.deep_view() == v.deep_view(),
{
    let mut copy: Vec<Task> = Vec::new();
    let mut i: usize = 0;
    while i < v.len()
        invariant
            i <= v.len(),
            copy.len() == i,
            forall|k: int| 0 <= k < i ==> copy[k]@ == v[k]@,
        decreases v.len() - i,
    {
        copy.push(v[i].clone());
        i += 1;
    }
    assert(copy.deep_view() =~= v.deep_view());
    copy
}

} // verus!
