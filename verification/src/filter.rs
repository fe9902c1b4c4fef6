//! The search filter: which tasks a query shows.

use vstd::prelude::*;
use crate::store::TaskStore;
use crate::task::{clone_tasks, Priority, SubTask, SubTaskView, Task, TaskView};
use crate::text::{contains, contains_text, lowercase, same_text, to_lowercase};

verus! {

/// The lower-case form of `text` holds `needle`.
pub open spec fn text_matches(text: Seq<char>, needle: Seq<char>) -> bool {
    contains(lowercase(text), needle)
}

/// One of the tags matches.
pub open spec fn any_tag_matches(tags: Seq<Seq<char>>, needle: Seq<char>) -> bool {
    exists|i: int| 0 <= i < tags.len() && text_matches(#[trigger] tags[i], needle)
}

/// The priority that a keyword names: `high` or `h`, `medium`, `med` or `m`,
/// `low` or `l`.
pub open spec fn priority_named_by(needle: Seq<char>) -> Option<Priority> {
    if needle == "high"@ || needle == "h"@ {
        Some(Priority::High)
    } else if needle == "medium"@ || needle == "med"@ || needle == "m"@ {
        Some(Priority::Medium)
    } else if needle == "low"@ || needle == "l"@ {
        Some(Priority::Low)
    } else {
        None
    }
}

/// The completion state that a keyword names: `completed`, `done` or
/// `finished` name the completed tasks, `incomplete`, `pending` or `todo`
/// the others.
pub open spec fn status_named_by(needle: Seq<char>) -> Option<bool> {
    if needle == "completed"@ || needle == "done"@ || needle == "finished"@ {
        Some(true)
    } else if needle == "incomplete"@ || needle == "pending"@ || needle == "todo"@ {
        Some(false)
    } else {
        None
    }
}

/// A subtask matches by its description or by one of its tags.
pub open spec fn sub_task_matches(sub: SubTaskView, needle: Seq<char>) -> bool {
    text_matches(sub.description, needle) || any_tag_matches(sub.tags, needle)
}

/// One of the subtasks matches.
pub open spec fn any_sub_task_matches(subs: Seq<SubTaskView>, needle: Seq<char>) -> bool {
    exists|i: int| 0 <= i < subs.len() && sub_task_matches(#[trigger] subs[i], needle)
}

/// A task matches a lower-case `needle` by its description, by one of its
/// tags, by its priority or completion state where the needle is a keyword
/// for it, by its due date as written, or by one of its subtasks.
pub open spec fn task_matches(task: TaskView, needle: Seq<char>) -> bool {
    ||| text_matches(task.description, needle)
    ||| any_tag_matches(task.tags, needle)
    ||| priority_named_by(needle) == Some(task.priority)
    ||| status_named_by(needle) == Some(task.completed)
    ||| (task.due_date is Some && contains(task.due_date->0, needle))
    ||| any_sub_task_matches(task.sub_tasks, needle)
}

/// The tasks that a query shows: all of them for the empty query, else those
/// that match the query's lower-case form, in the order of the store.
pub open spec fn shown(tasks: Seq<TaskView>, query: Seq<char>) -> Seq<TaskView> {
    if query.len() == 0 {
        tasks
    } else {
        tasks.filter(|t: TaskView| task_matches(t, lowercase(query)))
    }
}

/// The tasks that a filter keeps are tasks of the list it was given, in
/// the order of that list: `at[k]` is the position in `tasks` of the `k`-th
/// task kept.
pub proof fn filter_keeps_order(tasks: Seq<TaskView>, pred: spec_fn(TaskView) -> bool) -> (at: Seq<
    int,
>)
    ensures
        at.len() == tasks.filter(pred).len(),
        forall|k: int| 0 <= k < at.len() ==> 0 <= #[trigger] at[k] < tasks.len(),
        forall|k: int| 0 <= k < at.len() ==> tasks.filter(pred)[k] == tasks[#[trigger] at[k]],
        forall|k: int| 0 <= k < at.len() ==> pred(tasks[#[trigger] at[k]]),
        forall|j: int, k: int| 0 <= j < k < at.len() ==> at[j] < at[k],
    decreases tasks.len(),
{
    reveal(Seq::filter);
    if tasks.len() == 0 {
        Seq::empty()
    } else {
        let before = filter_keeps_order(tasks.drop_last(), pred);
        if pred(tasks.last()) {
            before.push(tasks.len() - 1)
        } else {
            before
        }
    }
}

/// Removing a task from a list removes it from what a filter keeps of the
/// list, and nothing else: if the filter keeps the task, it stood in the
/// filtered list after the tasks kept of those before it.
pub proof fn filter_after_remove(tasks: Seq<TaskView>, pred: spec_fn(TaskView) -> bool, at: int)
    requires
        0 <= at < tasks.len(),
    ensures
        tasks.take(at).filter(pred).len() <= tasks.filter(pred).len(),
        pred(tasks[at]) ==> tasks.take(at).filter(pred).len() < tasks.filter(pred).len()
            && tasks.filter(pred)[tasks.take(at).filter(pred).len() as int] == tasks[at],
        tasks.remove(at).filter(pred) == if pred(tasks[at]) {
            tasks.filter(pred).remove(tasks.take(at).filter(pred).len() as int)
        } else {
            tasks.filter(pred)
        },
{
    let before = tasks.take(at);
    let one = seq![tasks[at]];
    let after = tasks.skip(at + 1);
    assert(tasks =~= before + one + after);
    assert(tasks.remove(at) =~= before + after);
    Seq::filter_distributes_over_add(before + one, after, pred);
    Seq::filter_distributes_over_add(before, one, pred);
    Seq::filter_distributes_over_add(before, after, pred);
    assert(one.filter(pred) =~= if pred(tasks[at]) {
        one
    } else {
        Seq::empty()
    }) by {
        reveal_with_fuel(Seq::filter, 2);
        assert(one.drop_last() =~= Seq::<TaskView>::empty());
    }
    let kept_before = before.filter(pred);
    let kept_after = after.filter(pred);
    if pred(tasks[at]) {
        assert(tasks.filter(pred) =~= kept_before + one + kept_after);
        assert((kept_before + one + kept_after).remove(kept_before.len() as int) =~= kept_before
            + kept_after);
    } else {
        assert(kept_before + Seq::<TaskView>::empty() =~= kept_before);
    }
}

/// The displayed list is a subsequence of the store: every task shown is a
/// task of the store, and the tasks shown stand in the order of the store.
pub proof fn shown_is_subsequence(tasks: Seq<TaskView>, query: Seq<char>) -> (at: Seq<int>)
    ensures
        at.len() == shown(tasks, query).len(),
        forall|k: int| 0 <= k < at.len() ==> 0 <= #[trigger] at[k] < tasks.len(),
        forall|k: int| 0 <= k < at.len() ==> shown(tasks, query)[k] == tasks[#[trigger] at[k]],
        forall|j: int, k: int| 0 <= j < k < at.len() ==> at[j] < at[k],
{
    if query.len() == 0 {
        Seq::new(tasks.len(), |k: int| k)
    } else {
        filter_keeps_order(tasks, |t: TaskView| task_matches(t, lowercase(query)))
    }
}

/// The same store and the same query show the same tasks, and the empty
/// query shows the whole store, in its order.
pub proof fn shown_is_a_projection(tasks: Seq<TaskView>, query: Seq<char>, first: Seq<TaskView>, second: Seq<TaskView>)
    requires
        first == shown(tasks, query),
        second == shown(tasks, query),
    ensures
        first == second,
        query.len() == 0 ==> first == tasks,
{
}

/// The priority that a keyword names, if it names one.
pub fn priority_keyword(needle: &str) -> (named: Option<Priority>)
    ensures
        named == priority_named_by(needle@),
{
    if same_text(needle, "high") || same_text(needle, "h") {
        Some(Priority::High)
    } else if same_text(needle, "medium") || same_text(needle, "med") || same_text(needle, "m") {
        Some(Priority::Medium)
    } else if same_text(needle, "low") || same_text(needle, "l") {
        Some(Priority::Low)
    } else {
        None
    }
}

/// The completion state that a keyword names, if it names one.
pub fn status_keyword(needle: &str) -> (named: Option<bool>)
    ensures
        named == status_named_by(needle@),
{
    if same_text(needle, "completed") || same_text(needle, "done") || same_text(needle, "finished") {
        Some(true)
    } else if same_text(needle, "incomplete") || same_text(needle, "pending") || same_text(
        needle,
        "todo",
    ) {
        Some(false)
    } else {
        None
    }
}

/// Whether the lower-case form of `text` holds `needle`.
pub fn text_has(text: &str, needle: &str) -> (found: bool)
    ensures
        found == text_matches(text@, needle@),
{
    let lower = to_lowercase(text);
    contains_text(lower.as_str(), needle)
}

/// Whether one of the tags matches.
pub fn tags_have(tags: &Vec<String>, needle: &str) -> (found: bool)
    ensures
        found == any_tag_matches(tags.deep_view(), needle@),
{
    let mut i: usize = 0;
    while i < tags.len()
        invariant
            i <= tags.len(),
            forall|j: int| 0 <= j < i ==> !text_matches(#[trigger] tags.deep_view()[j], needle@),
        decreases tags.len() - i,
    {
        if text_has(tags[i].as_str(), needle) {
            assert(text_matches(tags.deep_view()[i as int], needle@));
            return true;
        }
        i += 1;
    }
    false
}

/// Whether a subtask matches.
pub fn sub_task_has(sub: &SubTask, needle: &str) -> (found: bool)
    ensures
        found == sub_task_matches(sub@, needle@),
{
    text_has(sub.description.as_str(), needle) || tags_have(&sub.tags, needle)
}

/// Whether one of the subtasks matches.
pub fn sub_tasks_have(subs: &Vec<SubTask>, needle: &str) -> (found: bool)
    ensures
        found == any_sub_task_matches(subs.deep_view(), needle@),
{
    let mut i: usize = 0;
    while i < subs.len()
        invariant
            i <= subs.len(),
            forall|j: int| 0 <= j < i ==> !sub_task_matches(#[trigger] subs.deep_view()[j], needle@),
        decreases subs.len() - i,
    {
        if sub_task_has(&subs[i], needle) {
            assert(sub_task_matches(subs.deep_view()[i as int], needle@));
            return true;
        }
        i += 1;
    }
    false
}

/// Whether a task matches a lower-case needle.
pub fn task_has(task: &Task, needle: &str) -> (found: bool)
    ensures
        found == task_matches(task@, needle@),
{
    if text_has(task.description.as_str(), needle) {
        return true;
    }
    if tags_have(&task.tags, needle) {
        return true;
    }
    match priority_keyword(needle) {
        Some(p) => {
            if p == task.priority {
                return true;
            }
        },
        None => {},
    }
    match status_keyword(needle) {
        Some(done) => {
            if done == task.completed {
                return true;
            }
        },
        None => {},
    }
    match &task.due_date {
        Some(date) => {
            if contains_text(date.as_str(), needle) {
                return true;
            }
        },
        None => {},
    }
    sub_tasks_have(&task.sub_tasks, needle)
}

/// The tasks to display for a query, as copies: all tasks of the store for
/// the empty query, else the matching ones, in the order of the store.
pub fn displayed(store: &TaskStore, query: &str) -> (out: Vec<Task>)
    ensures
        out.deep_view() == shown(store@, query@),
        query@.len() == 0 ==> out.deep_view() == store@,
{
    if query.is_empty() {
        return clone_tasks(&store.tasks);
    }
    let lower = to_lowercase(query);
    let ghost pred = |t: TaskView| task_matches(t, lowercase(query@));
    let mut out: Vec<Task> = Vec::new();
    let mut i: usize = 0;
    proof {
        reveal(Seq::filter);
        assert(store@.take(0) =~= Seq::<TaskView>::empty());
    }
    while i < store.tasks.len()
        invariant
            i <= store.tasks.len(),
            lower@ == lowercase(query@),
            pred == (|t: TaskView| task_matches(t, lowercase(query@))),
            out.deep_view() == store@.take(i as int).filter(pred),
        decreases store.tasks.len() - i,
    {
        let ghost before = out.deep_view();
        proof {
            reveal(Seq::filter);
            assert(store@.take(i + 1).drop_last() =~= store@.take(i as int));
            assert(store@.take(i + 1).last() == store.tasks[i as int]@);
        }
        if task_has(&store.tasks[i], lower.as_str()) {
            out.push(store.tasks[i].clone());
            assert(out.deep_view() =~= before.push(store.tasks[i as int]@));
        }
        i += 1;
    }
    assert(store@.take(i as int) =~= store@);
    out
}

} // verus!
