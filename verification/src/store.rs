//! The task store: the ordered list of top-level tasks, addressed by
//! identifier.

use vstd::prelude::*;
use crate::task::{Priority, SubTask, SubTaskView, Task, TaskView};
use crate::text::{extract_tags, tags_of};

verus! {

/// The largest of a list of identifiers, 0 for the empty list.
pub open spec fn max_id(ids: Seq<nat>) -> nat
    decreases ids.len(),
{
    if ids.len() == 0 {
        0
    } else {
        let rest = max_id(ids.drop_last());
        if ids.last() > rest {
            ids.last()
        } else {
            rest
        }
    }
}

/// The identifier given to the next task that joins siblings with
/// identifiers `ids`.
pub open spec fn next_id(ids: Seq<nat>) -> nat {
    max_id(ids) + 1
}

/// `max_id` is the largest: no identifier of the list is above it, and it
/// is one of them unless it is 0.
pub proof fn max_id_is_largest(ids: Seq<nat>)
    ensures
        forall|i: int| 0 <= i < ids.len() ==> ids[i] <= max_id(ids),
        max_id(ids) == 0 || exists|i: int| 0 <= i < ids.len() && ids[i] == max_id(ids),
    decreases ids.len(),
{
    if ids.len() > 0 {
        let rest = ids.drop_last();
        max_id_is_largest(rest);
        assert forall|i: int| 0 <= i < ids.len() implies ids[i] <= max_id(ids) by {
            if i < rest.len() {
                assert(rest[i] == ids[i]);
            }
        }
        if max_id(ids) != 0 {
            if ids.last() > max_id(rest) {
                assert(ids[ids.len() - 1] == max_id(ids));
            } else {
                let i = choose|i: int| 0 <= i < rest.len() && rest[i] == max_id(rest);
                assert(ids[i] == max_id(ids));
            }
        }
    }
}

/// A number that no identifier of the list is above, and that is one of
/// them or 0, is `max_id`.
pub proof fn largest_is_max_id(ids: Seq<nat>, largest: nat)
    requires
        forall|i: int| 0 <= i < ids.len() ==> ids[i] <= largest,
        largest == 0 || exists|i: int| 0 <= i < ids.len() && ids[i] == largest,
    ensures
        max_id(ids) == largest,
{
    max_id_is_largest(ids);
}

/// The next identifier is above every identifier of the list, so a list
/// without repeats stays without repeats when it joins.
pub proof fn next_id_is_fresh(ids: Seq<nat>)
    ensures
        forall|i: int| 0 <= i < ids.len() ==> ids[i] < next_id(ids),
        max_id(ids.push(next_id(ids))) == next_id(ids),
        distinct(ids) ==> distinct(ids.push(next_id(ids))),
{
    max_id_is_largest(ids);
    let more = ids.push(next_id(ids));
    assert(more.drop_last() =~= ids);
    assert(more.last() == next_id(ids));
}

/// Removing an identifier that is not the largest leaves the largest as it was.
pub proof fn max_id_after_remove(ids: Seq<nat>, at: int)
    requires
        0 <= at < ids.len(),
        ids[at] != max_id(ids),
    ensures
        max_id(ids.remove(at)) == max_id(ids),
{
    max_id_is_largest(ids);
    let less = ids.remove(at);
    assert forall|i: int| 0 <= i < less.len() implies less[i] <= max_id(ids) by {
        if i < at {
            assert(less[i] == ids[i]);
        } else {
            assert(less[i] == ids[i + 1]);
        }
    }
    if max_id(ids) != 0 {
        let i = choose|i: int| 0 <= i < ids.len() && ids[i] == max_id(ids);
        if i < at {
            assert(less[i] == ids[i]);
        } else {
            assert(less[i - 1] == ids[i]);
        }
    }
    largest_is_max_id(less, max_id(ids));
}

/// The identifiers of a list of tasks, in order.
pub open spec fn task_ids(tasks: Seq<TaskView>) -> Seq<nat> {
    Seq::new(tasks.len(), |i: int| tasks[i].id)
}

/// The identifiers of a list of subtasks, in order.
pub open spec fn sub_task_ids(subs: Seq<SubTaskView>) -> Seq<nat> {
    Seq::new(subs.len(), |i: int| subs[i].id)
}

/// No identifier occurs twice.
pub open spec fn distinct(ids: Seq<nat>) -> bool {
    forall|i: int, j: int| 0 <= i < j < ids.len() ==> ids[i] != ids[j]
}

/// Position `at` holds the first task with identifier `id`.
pub open spec fn is_first_with_id(tasks: Seq<TaskView>, id: nat, at: int) -> bool {
    &&& 0 <= at < tasks.len()
    &&& tasks[at].id == id
    &&& forall|j: int| 0 <= j < at ==> tasks[j].id != id
}

/// The position of the first task with identifier `id`, if there is one.
pub open spec fn position(tasks: Seq<TaskView>, id: nat) -> Option<int> {
    if exists|at: int| is_first_with_id(tasks, id, at) {
        Some(choose|at: int| is_first_with_id(tasks, id, at))
    } else {
        None
    }
}

/// `position` is `Some(at)` exactly at the first task with the identifier,
/// and `None` exactly when no task has it.
pub proof fn position_is_first(tasks: Seq<TaskView>, id: nat)
    ensures
        forall|at: int| position(tasks, id) == Some(at) <==> is_first_with_id(tasks, id, at),
        position(tasks, id) is None <==> forall|j: int| 0 <= j < tasks.len() ==> tasks[j].id != id,
{
    assert forall|at: int| is_first_with_id(tasks, id, at) implies position(tasks, id) == Some(
        at,
    ) by {
        let c = choose|at: int| is_first_with_id(tasks, id, at);
        assert(is_first_with_id(tasks, id, c));
        assert(c == at);
    }
    if position(tasks, id) is None && exists|j: int| 0 <= j < tasks.len() && tasks[j].id == id {
        let j = choose|j: int| 0 <= j < tasks.len() && tasks[j].id == id;
        first_exists_below(tasks, id, j);
    }
}

/// If position `j` holds the identifier, some position up to `j` is the
/// first that holds it.
proof fn first_exists_below(tasks: Seq<TaskView>, id: nat, j: int)
    requires
        0 <= j < tasks.len(),
        tasks[j].id == id,
    ensures
        exists|at: int| is_first_with_id(tasks, id, at) && at <= j,
    decreases j,
{
    if exists|k: int| 0 <= k < j && tasks[k].id == id {
        let k = choose|k: int| 0 <= k < j && tasks[k].id == id;
        first_exists_below(tasks, id, k);
    } else {
        assert(is_first_with_id(tasks, id, j));
    }
}

/// The task that `add` appends.
pub open spec fn new_task(
    id: nat,
    description: Seq<char>,
    priority: Priority,
    due_date: Option<Seq<char>>,
) -> TaskView {
    TaskView {
        id,
        description,
        completed: false,
        priority,
        due_date,
        tags: tags_of(description),
        sub_tasks: Seq::empty(),
    }
}

/// The subtask that `add_subtask` appends: medium priority, not completed.
pub open spec fn new_sub_task(id: nat, description: Seq<char>, due_date: Option<Seq<char>>) -> SubTaskView {
    SubTaskView {
        id,
        description,
        completed: false,
        priority: Priority::Medium,
        due_date,
        tags: tags_of(description),
    }
}

/// The store after `add`.
pub open spec fn added(
    tasks: Seq<TaskView>,
    description: Seq<char>,
    priority: Priority,
    due_date: Option<Seq<char>>,
) -> Seq<TaskView> {
    tasks.push(new_task(next_id(task_ids(tasks)), description, priority, due_date))
}

/// A task with one more subtask at the end of its subtasks.
pub open spec fn with_sub_task(parent: TaskView, description: Seq<char>, due_date: Option<Seq<char>>) -> TaskView {
    TaskView {
        sub_tasks: parent.sub_tasks.push(
            new_sub_task(next_id(sub_task_ids(parent.sub_tasks)), description, due_date),
        ),
        ..parent
    }
}

/// The store after `add_subtask`: unchanged if no task has the identifier.
pub open spec fn sub_task_added(
    tasks: Seq<TaskView>,
    parent_id: nat,
    description: Seq<char>,
    due_date: Option<Seq<char>>,
) -> Seq<TaskView> {
    match position(tasks, parent_id) {
        Some(at) => tasks.update(at, with_sub_task(tasks[at], description, due_date)),
        None => tasks,
    }
}

/// The store after `delete`: the first task with the identifier is gone,
/// with its subtasks; unchanged if no task has the identifier.
pub open spec fn deleted(tasks: Seq<TaskView>, id: nat) -> Seq<TaskView> {
    match position(tasks, id) {
        Some(at) => tasks.remove(at),
        None => tasks,
    }
}

/// The store after `toggle_completed`.
pub open spec fn toggled(tasks: Seq<TaskView>, id: nat) -> Seq<TaskView> {
    match position(tasks, id) {
        Some(at) => tasks.update(at, TaskView { completed: !tasks[at].completed, ..tasks[at] }),
        None => tasks,
    }
}

/// The store after `cycle_priority`.
pub open spec fn priority_cycled(tasks: Seq<TaskView>, id: nat) -> Seq<TaskView> {
    match position(tasks, id) {
        Some(at) => tasks.update(at, TaskView { priority: tasks[at].priority.cycled(), ..tasks[at] }),
        None => tasks,
    }
}

/// The store after `set_due_date`.
pub open spec fn due_date_set(tasks: Seq<TaskView>, id: nat, date: Seq<char>) -> Seq<TaskView> {
    match position(tasks, id) {
        Some(at) => tasks.update(at, TaskView { due_date: Some(date), ..tasks[at] }),
        None => tasks,
    }
}

/// The identifier that the next subtask among `subs` gets, or `None` when
/// the largest identifier among them is the largest number there is.
pub fn next_sub_task_id(subs: &Vec<SubTask>) -> (id: Option<usize>)
    ensures
        id is Some <==> max_id(sub_task_ids(subs.deep_view())) < usize::MAX,
        id is Some ==> id->0 == next_id(sub_task_ids(subs.deep_view())),
{
    let ghost ids = sub_task_ids(subs.deep_view());
    let mut largest: usize = 0;
    let mut i: usize = 0;
    proof {
        assert(ids.take(0) =~= Seq::<nat>::empty());
    }
    while i < subs.len()
        invariant
            i <= subs.len(),
            ids == sub_task_ids(subs.deep_view()),
            largest == max_id(ids.take(i as int)),
        decreases subs.len() - i,
    {
        proof {
            assert(ids.take(i + 1).drop_last() =~= ids.take(i as int));
            assert(ids.take(i + 1).last() == subs.deep_view()[i as int].id);
        }
        if subs[i].id > largest {
            largest = subs[i].id;
        }
        i += 1;
    }
    proof {
        assert(ids.take(i as int) =~= ids);
    }
    if largest < usize::MAX {
        Some(largest + 1)
    } else {
        None
    }
}

/// What the store operations do to the identifiers: `add` appends the next
/// identifier, `delete` removes one entry if the identifier is there, and
/// the others leave the identifiers as they are.
pub proof fn ids_after_operations(
    tasks: Seq<TaskView>,
    id: nat,
    description: Seq<char>,
    priority: Priority,
    due_date: Option<Seq<char>>,
)
    ensures
        task_ids(added(tasks, description, priority, due_date)) == task_ids(tasks).push(
            next_id(task_ids(tasks)),
        ),
        position(tasks, id) is Some ==> task_ids(deleted(tasks, id)) == task_ids(tasks).remove(
            position(tasks, id)->0,
        ),
        position(tasks, id) is None ==> deleted(tasks, id) == tasks,
        task_ids(toggled(tasks, id)) == task_ids(tasks),
        task_ids(priority_cycled(tasks, id)) == task_ids(tasks),
        task_ids(due_date_set(tasks, id, description)) == task_ids(tasks),
        task_ids(sub_task_added(tasks, id, description, due_date)) == task_ids(tasks),
{
    position_is_first(tasks, id);
    assert(task_ids(added(tasks, description, priority, due_date)) =~= task_ids(tasks).push(
        next_id(task_ids(tasks)),
    ));
    if position(tasks, id) is Some {
        let at = position(tasks, id)->0;
        assert(task_ids(deleted(tasks, id)) =~= task_ids(tasks).remove(at));
    }
    assert(task_ids(toggled(tasks, id)) =~= task_ids(tasks));
    assert(task_ids(priority_cycled(tasks, id)) =~= task_ids(tasks));
    assert(task_ids(due_date_set(tasks, id, description)) =~= task_ids(tasks));
    assert(task_ids(sub_task_added(tasks, id, description, due_date)) =~= task_ids(tasks));
}

/// A store without repeated identifiers stays without them under every
/// operation of the store.
pub proof fn operations_keep_ids_distinct(
    tasks: Seq<TaskView>,
    id: nat,
    description: Seq<char>,
    priority: Priority,
    due_date: Option<Seq<char>>,
)
    requires
        distinct(task_ids(tasks)),
    ensures
        distinct(task_ids(added(tasks, description, priority, due_date))),
        distinct(task_ids(deleted(tasks, id))),
        distinct(task_ids(toggled(tasks, id))),
        distinct(task_ids(priority_cycled(tasks, id))),
        distinct(task_ids(due_date_set(tasks, id, description))),
        distinct(task_ids(sub_task_added(tasks, id, description, due_date))),
{
    ids_after_operations(tasks, id, description, priority, due_date);
    next_id_is_fresh(task_ids(tasks));
    position_is_first(tasks, id);
    if position(tasks, id) is Some {
        let at = position(tasks, id)->0;
        let ids = task_ids(tasks);
        let less = ids.remove(at);
        assert forall|i: int, j: int| 0 <= i < j < less.len() implies less[i] != less[j] by {
            let a = if i < at { i } else { i + 1 };
            let b = if j < at { j } else { j + 1 };
            assert(less[i] == ids[a] && less[j] == ids[b]);
        }
    }
}

/// The store is as its own operations leave it: every identifier is at
/// least 1, no two tasks have the same identifier, and no two subtasks of
/// one task have the same identifier.
pub open spec fn well_formed(tasks: Seq<TaskView>) -> bool {
    &&& distinct(task_ids(tasks))
    &&& forall|i: int| 0 <= i < tasks.len() ==> (#[trigger] tasks[i]).id >= 1
    &&& forall|i: int|
        0 <= i < tasks.len() ==> distinct(sub_task_ids((#[trigger] tasks[i]).sub_tasks))
    &&& forall|i: int, j: int|
        0 <= i < tasks.len() && 0 <= j < tasks[i].sub_tasks.len() ==> (
        #[trigger] tasks[i].sub_tasks[j]).id >= 1
}

/// The empty store is well formed, and every operation of the store leaves
/// a well-formed store well formed.
pub proof fn operations_keep_well_formed(
    tasks: Seq<TaskView>,
    id: nat,
    description: Seq<char>,
    priority: Priority,
    due_date: Option<Seq<char>>,
)
    requires
        well_formed(tasks),
    ensures
        well_formed(Seq::<TaskView>::empty()),
        well_formed(added(tasks, description, priority, due_date)),
        well_formed(deleted(tasks, id)),
        well_formed(toggled(tasks, id)),
        well_formed(priority_cycled(tasks, id)),
        well_formed(due_date_set(tasks, id, description)),
        well_formed(sub_task_added(tasks, id, description, due_date)),
{
    operations_keep_ids_distinct(tasks, id, description, priority, due_date);
    position_is_first(tasks, id);
    let more = added(tasks, description, priority, due_date);
    assert forall|i: int| 0 <= i < tasks.len() implies #[trigger] more[i] == tasks[i] by {}
    assert(more[tasks.len() as int].sub_tasks.len() == 0);
    assert(well_formed(more));
    if position(tasks, id) is Some {
        let at = position(tasks, id)->0;
        let less = tasks.remove(at);
        assert forall|i: int| 0 <= i < less.len() implies #[trigger] less[i] == tasks[if i < at {
            i
        } else {
            i + 1
        }] by {}
        assert(well_formed(less));
        let subs = tasks[at].sub_tasks;
        let ids = sub_task_ids(subs);
        next_id_is_fresh(ids);
        let grown = sub_task_added(tasks, id, description, due_date);
        assert(sub_task_ids(grown[at].sub_tasks) =~= ids.push(next_id(ids)));
        assert forall|i: int| 0 <= i < grown.len() implies distinct(
            sub_task_ids((#[trigger] grown[i]).sub_tasks),
        ) && grown[i].id >= 1 by {
            if i != at {
                assert(grown[i] == tasks[i]);
            }
        }
        assert forall|i: int, j: int|
            0 <= i < grown.len() && 0 <= j < grown[i].sub_tasks.len() implies (
        #[trigger] grown[i].sub_tasks[j]).id >= 1 by {
            if i != at {
                assert(grown[i] == tasks[i]);
            } else if j < subs.len() {
                assert(grown[i].sub_tasks[j] == subs[j]);
            }
        }
        assert(well_formed(grown));
        same_ids_and_sub_tasks_keep_well_formed(tasks, toggled(tasks, id));
        same_ids_and_sub_tasks_keep_well_formed(tasks, priority_cycled(tasks, id));
        same_ids_and_sub_tasks_keep_well_formed(tasks, due_date_set(tasks, id, description));
    }
}

/// A store that differs from a well-formed one in neither the identifiers
/// nor the subtasks is well formed.
proof fn same_ids_and_sub_tasks_keep_well_formed(tasks: Seq<TaskView>, changed: Seq<TaskView>)
    requires
        well_formed(tasks),
        changed.len() == tasks.len(),
        forall|i: int|
            0 <= i < tasks.len() ==> (#[trigger] changed[i]).id == tasks[i].id
                && changed[i].sub_tasks == tasks[i].sub_tasks,
    ensures
        well_formed(changed),
{
    assert(task_ids(changed) =~= task_ids(tasks));
    assert forall|i: int, j: int|
        0 <= i < changed.len() && 0 <= j < changed[i].sub_tasks.len() implies (
    #[trigger] changed[i].sub_tasks[j]).id >= 1 by {
        assert(changed[i].sub_tasks[j] == tasks[i].sub_tasks[j]);
    }
}

/// In a store without repeated identifiers, an identifier is found at the
/// one position that holds it.
pub proof fn position_of_distinct(tasks: Seq<TaskView>, at: int)
    requires
        distinct(task_ids(tasks)),
        0 <= at < tasks.len(),
    ensures
        position(tasks, tasks[at].id) == Some(at),
{
    position_is_first(tasks, tasks[at].id);
    assert forall|j: int| 0 <= j < at implies tasks[j].id != tasks[at].id by {
        assert(task_ids(tasks)[j] == tasks[j].id && task_ids(tasks)[at] == tasks[at].id);
    }
    assert(is_first_with_id(tasks, tasks[at].id, at));
}

/// The ordered list of top-level tasks.
#[derive(Debug)]
pub struct TaskStore {
    pub tasks: Vec<Task>,
}

/// `add_subtask` found no task with the parent's identifier.
#[derive(Clone, Copy, Debug, PartialEq, Eq, Structural)]
pub struct NotFound;

impl View for TaskStore {
    type V = Seq<TaskView>;

    open spec fn view(&self) -> Seq<TaskView> {
        self.tasks.deep_view()
    }
}

impl TaskStore {
    /// The empty store.
    pub fn new() -> (store: TaskStore)
        ensures
            store@ == Seq::<TaskView>::empty(),
            well_formed(store@),
    {
        let store = TaskStore { tasks: Vec::new() };
        assert(store@ =~= Seq::<TaskView>::empty());
        assert(task_ids(store@) =~= Seq::<nat>::empty());
        store
    }

    /// The position of the first task with identifier `id`.
    pub fn find(&self, id: usize) -> (found: Option<usize>)
        ensures
            found is Some <==> position(self@, id as nat) is Some,
            found is Some ==> position(self@, id as nat) == Some(found->0 as int),
    {
        let mut i: usize = 0;
        while i < self.tasks.len()
            invariant
                i <= self.tasks.len(),
                forall|j: int| 0 <= j < i ==> self@[j].id != id,
            decreases self.tasks.len() - i,
        {
            if self.tasks[i].id == id {
                proof {
                    assert(is_first_with_id(self@, id as nat, i as int));
                    position_is_first(self@, id as nat);
                }
                return Some(i);
            }
            i += 1;
        }
        proof {
            position_is_first(self@, id as nat);
        }
        None
    }

    /// The identifier that the next top-level task gets, or `None` when the
    /// largest identifier in the store is the largest number there is.
    pub fn next_id(&self) -> (id: Option<usize>)
        ensures
            id is Some <==> max_id(task_ids(self@)) < usize::MAX,
            id is Some ==> id->0 == next_id(task_ids(self@)),
    {
        let ghost ids = task_ids(self@);
        let mut largest: usize = 0;
        let mut i: usize = 0;
        proof {
            assert(ids.take(0) =~= Seq::<nat>::empty());
        }
        while i < self.tasks.len()
            invariant
                i <= self.tasks.len(),
                ids == task_ids(self@),
                largest == max_id(ids.take(i as int)),
            decreases self.tasks.len() - i,
        {
            proof {
                assert(ids.take(i + 1).drop_last() =~= ids.take(i as int));
                assert(ids.take(i + 1).last() == self@[i as int].id);
            }
            if self.tasks[i].id > largest {
                largest = self.tasks[i].id;
            }
            i += 1;
        }
        proof {
            assert(ids.take(i as int) =~= ids);
        }
        if largest < usize::MAX {
            Some(largest + 1)
        } else {
            None
        }
    }

    /// Appends a task with the next identifier and the tags of its
    /// description, and returns the identifier.
    pub fn add(&mut self, description: String, priority: Priority, due_date: Option<String>) -> (id:
        usize)
        requires
            max_id(task_ids(old(self)@)) < usize::MAX,
        ensures
            final(self)@ == added(old(self)@, description@, priority, due_date.deep_view()),
            id == next_id(task_ids(old(self)@)),
            well_formed(old(self)@) ==> well_formed(final(self)@),
    {
        proof {
            if well_formed(old(self)@) {
                operations_keep_well_formed(
                    old(self)@,
                    0,
                    description@,
                    priority,
                    due_date.deep_view(),
                );
            }
        }
        let id: usize = match self.next_id() {
            Some(n) => n,
            None => 0,
        };
        let tags = extract_tags(description.as_str());
        let task = Task {
            id,
            description,
            completed: false,
            priority,
            due_date,
            tags,
            sub_tasks: Vec::new(),
        };
        proof {
            assert(task.sub_tasks.deep_view() =~= Seq::<SubTaskView>::empty());
        }
        self.tasks.push(task);
        proof {
            assert(self@ =~= old(self)@.push(task@));
        }
        id
    }

    /// Appends a subtask to the first task with identifier `parent_id`. The
    /// subtask gets the next identifier among that task's subtasks, medium
    /// priority and the tags of its description. Fails, and changes nothing,
    /// if no task has the identifier.
    pub fn add_subtask(&mut self, parent_id: usize, description: String, due_date: Option<String>) -> (id:
        Result<usize, NotFound>)
        requires
            position(old(self)@, parent_id as nat) is Some ==> max_id(
                sub_task_ids(old(self)@[position(old(self)@, parent_id as nat)->0].sub_tasks),
            ) < usize::MAX,
        ensures
            final(self)@ == sub_task_added(
                old(self)@,
                parent_id as nat,
                description@,
                due_date.deep_view(),
            ),
            id is Ok <==> position(old(self)@, parent_id as nat) is Some,
            id is Ok ==> id->Ok_0 == next_id(
                sub_task_ids(old(self)@[position(old(self)@, parent_id as nat)->0].sub_tasks),
            ),
            well_formed(old(self)@) ==> well_formed(final(self)@),
    {
        proof {
            if well_formed(old(self)@) {
                operations_keep_well_formed(
                    old(self)@,
                    parent_id as nat,
                    description@,
                    Priority::Medium,
                    due_date.deep_view(),
                );
            }
        }
        match self.find(parent_id) {
            Some(at) => {
                let id: usize = match next_sub_task_id(&self.tasks[at].sub_tasks) {
                    Some(n) => n,
                    None => 0,
                };
                let tags = extract_tags(description.as_str());
                let sub = SubTask {
                    id,
                    description,
                    completed: false,
                    priority: Priority::Medium,
                    due_date,
                    tags,
                };
                let ghost subs = self.tasks[at as int].sub_tasks.deep_view();
                self.tasks[at].sub_tasks.push(sub);
                proof {
                    assert(self.tasks[at as int].sub_tasks.deep_view() =~= subs.push(sub@));
                    assert(self@ =~= sub_task_added(
                        old(self)@,
                        parent_id as nat,
                        description@,
                        due_date.deep_view(),
                    ));
                }
                Ok(id)
            },
            None => Err(NotFound),
        }
    }

    /// Removes the first task with identifier `id`, and its subtasks with
    /// it. Does nothing if no task has the identifier.
    pub fn delete(&mut self, id: usize)
        ensures
            final(self)@ == deleted(old(self)@, id as nat),
            well_formed(old(self)@) ==> well_formed(final(self)@),
    {
        proof {
            if well_formed(old(self)@) {
                operations_keep_well_formed(old(self)@, id as nat, Seq::empty(), Priority::Medium, None);
            }
        }
        match self.find(id) {
            Some(at) => {
                let _ = self.tasks.remove(at);
                proof {
                    assert(self@ =~= old(self)@.remove(at as int));
                }
            },
            None => {},
        }
    }

    /// Marks the first task with identifier `id` completed if it was not,
    /// and not completed if it was. Does nothing if no task has the identifier.
    pub fn toggle_completed(&mut self, id: usize)
        ensures
            final(self)@ == toggled(old(self)@, id as nat),
            well_formed(old(self)@) ==> well_formed(final(self)@),
    {
        proof {
            if well_formed(old(self)@) {
                operations_keep_well_formed(old(self)@, id as nat, Seq::empty(), Priority::Medium, None);
            }
        }
        match self.find(id) {
            Some(at) => {
                let now: bool = !self.tasks[at].completed;
                self.tasks[at].completed = now;
                proof {
                    assert(self@ =~= toggled(old(self)@, id as nat));
                }
            },
            None => {},
        }
    }

    /// Steps the priority of the first task with identifier `id` to the
    /// next of the cycle. Does nothing if no task has the identifier.
    pub fn cycle_priority(&mut self, id: usize)
        ensures
            final(self)@ == priority_cycled(old(self)@, id as nat),
            well_formed(old(self)@) ==> well_formed(final(self)@),
    {
        proof {
            if well_formed(old(self)@) {
                operations_keep_well_formed(old(self)@, id as nat, Seq::empty(), Priority::Medium, None);
            }
        }
        match self.find(id) {
            Some(at) => {
                let next: Priority = self.tasks[at].priority.cycle();
                self.tasks[at].priority = next;
                proof {
                    assert(self@ =~= priority_cycled(old(self)@, id as nat));
                }
            },
            None => {},
        }
    }

    /// Sets the due date of the first task with identifier `id` to `date`,
    /// as written. Does nothing if no task has the identifier.
    pub fn set_due_date(&mut self, id: usize, date: String)
        ensures
            final(self)@ == due_date_set(old(self)@, id as nat, date@),
            well_formed(old(self)@) ==> well_formed(final(self)@),
    {
        proof {
            if well_formed(old(self)@) {
                operations_keep_well_formed(old(self)@, id as nat, date@, Priority::Medium, None);
            }
        }
        match self.find(id) {
            Some(at) => {
                self.tasks[at].due_date = Some(date);
                proof {
                    assert(self@ =~= due_date_set(old(self)@, id as nat, date@));
                }
            },
            None => {},
        }
    }

    /// The first task with identifier `id`, to be changed in place. What
    /// the caller leaves in it takes the task's place in the store.
    pub fn find_mut(&mut self, id: usize) -> (found: Option<&mut Task>)
        ensures
            found is Some <==> position(old(self)@, id as nat) is Some,
            found is None ==> final(self)@ == old(self)@,
            found is Some ==> {
                let at = position(old(self)@, id as nat)->0;
                &&& *found->0 == old(self).tasks@[at]
                &&& final(self).tasks@ == old(self).tasks@.update(at, *final(found->0))
            },
    {
        match self.find(id) {
            Some(at) => Some(&mut self.tasks[at]),
            None => None,
        }
    }
}

} // verus!
