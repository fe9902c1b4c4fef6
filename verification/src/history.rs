//! How identifiers are numbered over a history of adds and deletes.

use vstd::prelude::*;
use crate::store::{
    added, deleted, ids_after_operations, max_id, max_id_after_remove, next_id, next_id_is_fresh,
    position, position_is_first, sub_task_ids, task_ids, with_sub_task,
};
use crate::task::{Priority, TaskView};

verus! {

/// One step of a history of the store.
pub enum StoreOp {
    /// A task is added.
    Add { description: Seq<char>, priority: Priority, due_date: Option<Seq<char>> },
    /// The task with the identifier is deleted, if there is one.
    Delete { id: nat },
}

/// The store after a history that starts from the empty store.
pub open spec fn store_after(ops: Seq<StoreOp>) -> Seq<TaskView>
    decreases ops.len(),
{
    if ops.len() == 0 {
        Seq::empty()
    } else {
        let before = store_after(ops.drop_last());
        match ops.last() {
            StoreOp::Add { description, priority, due_date } => added(
                before,
                description,
                priority,
                due_date,
            ),
            StoreOp::Delete { id } => deleted(before, id),
        }
    }
}

/// The identifiers that the adds of a history were given, in the order of the adds.
pub open spec fn ids_issued(ops: Seq<StoreOp>) -> Seq<nat>
    decreases ops.len(),
{
    if ops.len() == 0 {
        Seq::empty()
    } else {
        let earlier = ids_issued(ops.drop_last());
        match ops.last() {
            StoreOp::Add { .. } => earlier.push(next_id(task_ids(store_after(ops.drop_last())))),
            StoreOp::Delete { .. } => earlier,
        }
    }
}

/// No delete of the history removes the task that holds the largest
/// identifier of the store at that moment.
pub open spec fn spares_largest(ops: Seq<StoreOp>) -> bool
    decreases ops.len(),
{
    ops.len() == 0 || (spares_largest(ops.drop_last()) && match ops.last() {
        StoreOp::Add { .. } => true,
        StoreOp::Delete { id } => {
            let before = store_after(ops.drop_last());
            position(before, id) is None || id != max_id(task_ids(before))
        },
    })
}

/// The numbers 1 to `n`, in order.
pub open spec fn one_to(n: nat) -> Seq<nat> {
    Seq::new(n, |k: int| (k + 1) as nat)
}

/// From the empty store, the adds of a history are numbered 1, 2, 3 and so
/// on in the order in which they are made, whatever was deleted in between,
/// as long as no delete removes the task with the largest identifier. The
/// largest identifier in the store is then the number of adds made.
pub proof fn ids_count_up(ops: Seq<StoreOp>)
    requires
        spares_largest(ops),
    ensures
        ids_issued(ops) == one_to(ids_issued(ops).len()),
        max_id(task_ids(store_after(ops))) == ids_issued(ops).len(),
    decreases ops.len(),
{
    if ops.len() == 0 {
        assert(ids_issued(ops) =~= one_to(0));
        assert(task_ids(store_after(ops)) =~= Seq::<nat>::empty());
    } else {
        let earlier = ops.drop_last();
        ids_count_up(earlier);
        let before = store_after(earlier);
        match ops.last() {
            StoreOp::Add { description, priority, due_date } => {
                ids_after_operations(before, 0, description, priority, due_date);
                next_id_is_fresh(task_ids(before));
                assert(ids_issued(ops) =~= one_to(ids_issued(ops).len()));
            },
            StoreOp::Delete { id } => {
                ids_after_operations(before, id, Seq::empty(), Priority::Medium, None);
                position_is_first(before, id);
                if position(before, id) is Some {
                    let at = position(before, id)->0;
                    assert(task_ids(before)[at] == id);
                    max_id_after_remove(task_ids(before), at);
                }
            },
        }
    }
}

/// A task after subtasks with the given descriptions and due dates were
/// added to it one after the other.
pub open spec fn with_sub_tasks(
    parent: TaskView,
    items: Seq<(Seq<char>, Option<Seq<char>>)>,
) -> TaskView
    decreases items.len(),
{
    if items.len() == 0 {
        parent
    } else {
        with_sub_task(with_sub_tasks(parent, items.drop_last()), items.last().0, items.last().1)
    }
}

/// The subtasks added to a task that had none are numbered 1, 2, 3 and so
/// on in the order in which they are added.
pub proof fn sub_task_ids_count_up(parent: TaskView, items: Seq<(Seq<char>, Option<Seq<char>>)>)
    requires
        parent.sub_tasks.len() == 0,
    ensures
        sub_task_ids(with_sub_tasks(parent, items).sub_tasks) == one_to(items.len()),
        max_id(sub_task_ids(with_sub_tasks(parent, items).sub_tasks)) == items.len(),
    decreases items.len(),
{
    if items.len() == 0 {
        assert(sub_task_ids(parent.sub_tasks) =~= one_to(0));
    } else {
        let earlier = with_sub_tasks(parent, items.drop_last());
        sub_task_ids_count_up(parent, items.drop_last());
        let ids = sub_task_ids(earlier.sub_tasks);
        next_id_is_fresh(ids);
        let now = with_sub_tasks(parent, items);
        assert(sub_task_ids(now.sub_tasks) =~= ids.push(next_id(ids)));
        assert(sub_task_ids(now.sub_tasks) =~= one_to(items.len()));
    }
}

} // verus!
