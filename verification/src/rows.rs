//! What the list on display looks like, as plain values: one row for each
//! task, followed by one row for each of its subtasks, and the title above
//! the list.

use vstd::prelude::*;
use vstd::string::StringExecFns;
use crate::app::AppMode;
use crate::task::{clone_opt_string, clone_strings, Priority, SubTask, SubTaskView, Task, TaskView};
use crate::text::chars_of;

verus! {

/// `a` comes before `b` in the order of a dictionary: at the first place
/// where they differ `a` has the smaller character, or `a` ends there and
/// `b` goes on.
pub open spec fn comes_before(a: Seq<char>, b: Seq<char>) -> bool
    decreases a.len(),
{
    if b.len() == 0 {
        false
    } else if a.len() == 0 {
        true
    } else if a[0] != b[0] {
        (a[0] as u32) < (b[0] as u32)
    } else {
        comes_before(a.drop_first(), b.drop_first())
    }
}

/// A due date is overdue when it comes before today's date, both read as text.
pub open spec fn overdue(due_date: Option<Seq<char>>, today: Seq<char>) -> bool {
    due_date is Some && comes_before(due_date->0, today)
}

/// What a row is, as a mathematical value.
pub struct RowView {
    pub nested: bool,
    pub completed: bool,
    pub priority: Priority,
    pub description: Seq<char>,
    pub due_date: Option<Seq<char>>,
    pub overdue: bool,
    pub tags: Seq<Seq<char>>,
}

/// One line of the list on display.
#[derive(Debug)]
pub struct Row {
    /// The row shows a subtask, under the row of its parent.
    pub nested: bool,
    pub completed: bool,
    pub priority: Priority,
    pub description: String,
    pub due_date: Option<String>,
    /// The due date lies before today.
    pub overdue: bool,
    pub tags: Vec<String>,
}

impl View for Row {
    type V = RowView;

    open spec fn view(&self) -> RowView {
        RowView {
            nested: self.nested,
            completed: self.completed,
            priority: self.priority,
            description: self.description@,
            due_date: self.due_date.deep_view(),
            overdue: self.overdue,
            tags: self.tags.deep_view(),
        }
    }
}

impl DeepView for Row {
    type V = RowView;

    open spec fn deep_view(&self) -> RowView {
        self@
    }
}

/// The row of a task.
pub open spec fn task_row(task: TaskView, today: Seq<char>) -> RowView {
    RowView {
        nested: false,
        completed: task.completed,
        priority: task.priority,
        description: task.description,
        due_date: task.due_date,
        overdue: overdue(task.due_date, today),
        tags: task.tags,
    }
}

/// The row of a subtask.
pub open spec fn sub_task_row(sub: SubTaskView, today: Seq<char>) -> RowView {
    RowView {
        nested: true,
        completed: sub.completed,
        priority: sub.priority,
        description: sub.description,
        due_date: sub.due_date,
        overdue: overdue(sub.due_date, today),
        tags: sub.tags,
    }
}

/// The rows of a task: its own, then those of its subtasks in order.
pub open spec fn rows_of_task(task: TaskView, today: Seq<char>) -> Seq<RowView> {
    seq![task_row(task, today)] + Seq::new(
        task.sub_tasks.len(),
        |i: int| sub_task_row(task.sub_tasks[i], today),
    )
}

/// The rows of a list of tasks: those of each task, in the order of the list.
pub open spec fn rows_of(tasks: Seq<TaskView>, today: Seq<char>) -> Seq<RowView>
    decreases tasks.len(),
{
    if tasks.len() == 0 {
        Seq::empty()
    } else {
        rows_of(tasks.drop_last(), today) + rows_of_task(tasks.last(), today)
    }
}

/// The title above the list: it names the query while one is being
/// written, and says so while the query is still empty.
pub open spec fn title_text(mode: AppMode, query: Seq<char>) -> Seq<char> {
    if mode == AppMode::Search && query.len() > 0 {
        " To-Do (Search: "@ + query + ") "@
    } else if mode == AppMode::Search {
        " To-Do (Search Mode) "@
    } else {
        " To-Do "@
    }
}

/// Whether `a` comes before `b` in the order of a dictionary.
pub fn text_comes_before(a: &str, b: &str) -> (before: bool)
    ensures
        before == comes_before(a@, b@),
{
    let x = chars_of(a);
    let y = chars_of(b);
    let mut i: usize = 0;
    proof {
        assert(a@.skip(0) =~= a@);
        assert(b@.skip(0) =~= b@);
    }
    while i < x.len() && i < y.len()
        invariant
            x@ == a@,
            y@ == b@,
            i <= x.len(),
            i <= y.len(),
            comes_before(a@, b@) == comes_before(a@.skip(i as int), b@.skip(i as int)),
        decreases x.len() - i,
    {
        proof {
            assert(a@.skip(i as int).drop_first() =~= a@.skip(i + 1));
            assert(b@.skip(i as int).drop_first() =~= b@.skip(i + 1));
            assert(a@.skip(i as int)[0] == a@[i as int]);
            assert(b@.skip(i as int)[0] == b@[i as int]);
        }
        if x[i] != y[i] {
            return (x[i] as u32) < (y[i] as u32);
        }
        i += 1;
    }
    i < y.len()
}

/// Whether a due date lies before today.
pub fn is_overdue(due_date: &Option<String>, today: &str) -> (late: bool)
    ensures
        late == overdue(due_date.deep_view(), today@),
{
    match due_date {
        Some(date) => text_comes_before(date.as_str(), today),
        None => false,
    }
}

/// The rows of the list on display, for today's date as text.
pub fn rows(tasks: &Vec<Task>, today: &str) -> (out: Vec<Row>)
    ensures
        out.deep_view() == rows_of(tasks.deep_view(), today@),
{
    let mut out: Vec<Row> = Vec::new();
    let mut i: usize = 0;
    proof {
        assert(tasks.deep_view().take(0) =~= Seq::<TaskView>::empty());
        assert(out.deep_view() =~= Seq::<RowView>::empty());
    }
    while i < tasks.len()
        invariant
            i <= tasks.len(),
            out.deep_view() == rows_of(tasks.deep_view().take(i as int), today@),
        decreases tasks.len() - i,
    {
        let task = &tasks[i];
        let ghost before = out.deep_view();
        let ghost view = tasks.deep_view()[i as int];
        proof {
            assert(tasks.deep_view().take(i + 1).drop_last() =~= tasks.deep_view().take(i as int));
            assert(tasks.deep_view().take(i + 1).last() == view);
        }
        out.push(
            Row {
                nested: false,
                completed: task.completed,
                priority: task.priority,
                description: task.description.clone(),
                due_date: clone_opt_string(&task.due_date),
                overdue: is_overdue(&task.due_date, today),
                tags: clone_strings(&task.tags),
            },
        );
        proof {
            assert(out.deep_view() =~= before + seq![task_row(view, today@)]);
        }
        let mut j: usize = 0;
        while j < task.sub_tasks.len()
            invariant
                j <= task.sub_tasks.len(),
                task@ == view,
                out.deep_view() == before + seq![task_row(view, today@)] + Seq::new(
                    j as nat,
                    |k: int| sub_task_row(view.sub_tasks[k], today@),
                ),
            decreases task.sub_tasks.len() - j,
        {
            let sub: &SubTask = &task.sub_tasks[j];
            let ghost so_far = out.deep_view();
            out.push(
                Row {
                    nested: true,
                    completed: sub.completed,
                    priority: sub.priority,
                    description: sub.description.clone(),
                    due_date: clone_opt_string(&sub.due_date),
                    overdue: is_overdue(&sub.due_date, today),
                    tags: clone_strings(&sub.tags),
                },
            );
            proof {
                assert(sub@ == view.sub_tasks[j as int]);
                assert(out.deep_view() =~= so_far.push(sub_task_row(view.sub_tasks[j as int], today@)));
                assert(out.deep_view() =~= before + seq![task_row(view, today@)] + Seq::new(
                    (j + 1) as nat,
                    |k: int| sub_task_row(view.sub_tasks[k], today@),
                ));
            }
            j += 1;
        }
        proof {
            assert(out.deep_view() =~= before + rows_of_task(view, today@));
        }
        i += 1;
    }
    proof {
        assert(tasks.deep_view().take(i as int) =~= tasks.deep_view());
    }
    out
}

/// The title above the list.
pub fn title(mode: AppMode, query: &str) -> (text: String)
    ensures
        text@ == title_text(mode, query@),
{
    match mode {
        AppMode::Search => {
            if query.is_empty() {
                String::from_str(" To-Do (Search Mode) ")
            } else {
                String::from_str(" To-Do (Search: ").concat(query).concat(") ")
            }
        },
        _ => String::from_str(" To-Do "),
    }
}

} // verus!
