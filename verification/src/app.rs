//! The application state: the store, the selection in the displayed list,
//! the input mode and the text buffers, with one operation per user intent.

use vstd::prelude::*;
use crate::due::{due_date_from, plain_date_text};
use crate::filter::{
    displayed, filter_after_remove, filter_keeps_order, shown, task_matches,
};
use crate::selection::{advanced, clamped, in_range, retreated, Selection};
use crate::store::{
    added, deleted, distinct, due_date_set, max_id, next_sub_task_id, position,
    position_is_first, position_of_distinct, priority_cycled, sub_task_added, sub_task_ids,
    task_ids, toggled, TaskStore,
};
use crate::text::lowercase;
use crate::task::{clone_tasks, Priority, Task, TaskView};

verus! {

/// What the keys mean at the moment.
#[derive(Clone, Copy, Debug, PartialEq, Eq, Structural)]
pub enum AppMode {
    /// Keys are commands.
    Normal,
    /// Keys write the description of a new task.
    Insert,
    /// Keys write a due date for the selected task.
    DateInput,
    /// Keys write the search query.
    Search,
}

/// What the application state is, as a mathematical value.
pub struct AppView {
    pub tasks: Seq<TaskView>,
    pub selected: Option<usize>,
    pub mode: AppMode,
    pub input: Seq<char>,
    pub date_input: Seq<char>,
    pub search_input: Seq<char>,
    pub margin: u16,
    pub adding_subtask: bool,
}

/// The application state.
#[derive(Debug)]
pub struct App {
    /// The tasks.
    pub store: TaskStore,
    /// The highlighted position in the displayed list.
    pub state: Selection,
    pub mode: AppMode,
    /// The description of a new task, as far as it is written.
    pub input: String,
    /// The due date for the selected task, as far as it is written.
    pub date_input: String,
    /// The search query.
    pub search_input: String,
    /// The width of the empty border around the list.
    pub margin: u16,
    /// Whether the description under way is that of a subtask.
    pub adding_subtask: bool,
}

impl View for App {
    type V = AppView;

    open spec fn view(&self) -> AppView {
        AppView {
            tasks: self.store@,
            selected: self.state.index,
            mode: self.mode,
            input: self.input@,
            date_input: self.date_input@,
            search_input: self.search_input@,
            margin: self.margin,
            adding_subtask: self.adding_subtask,
        }
    }
}

/// The list on display: the tasks that the query shows while a query is
/// being written, else all tasks.
pub open spec fn displayed_tasks(app: AppView) -> Seq<TaskView> {
    if app.mode == AppMode::Search && app.search_input.len() > 0 {
        shown(app.tasks, app.search_input)
    } else {
        app.tasks
    }
}

/// The identifier of the task under the selection, read from the list on
/// display; none if nothing is selected or the selection is past the end.
pub open spec fn selected_id(app: AppView) -> Option<nat> {
    match app.selected {
        Some(i) => if i < displayed_tasks(app).len() {
            Some(displayed_tasks(app)[i as int].id)
        } else {
            None
        },
        None => None,
    }
}

/// The state a session starts in.
pub open spec fn initial(tasks: Seq<TaskView>) -> AppView {
    AppView {
        tasks,
        selected: if tasks.len() > 0 {
            Some(0usize)
        } else {
            None
        },
        mode: AppMode::Normal,
        input: Seq::empty(),
        date_input: Seq::empty(),
        search_input: Seq::empty(),
        margin: 1,
        adding_subtask: false,
    }
}

/// The state after a step to the next entry of the list on display.
pub open spec fn after_next(app: AppView) -> AppView {
    AppView { selected: advanced(app.selected, displayed_tasks(app).len()), ..app }
}

/// The state after a step to the entry before.
pub open spec fn after_previous(app: AppView) -> AppView {
    AppView { selected: retreated(app.selected, displayed_tasks(app).len()), ..app }
}

/// The state with the border narrowed by one, down to none.
pub open spec fn after_zoom_in(app: AppView) -> AppView {
    AppView {
        margin: if app.margin == 0 {
            0u16
        } else {
            (app.margin - 1) as u16
        },
        ..app
    }
}

/// The state with the border widened by one, up to the largest width.
pub open spec fn after_zoom_out(app: AppView) -> AppView {
    AppView {
        margin: if app.margin == u16::MAX {
            u16::MAX
        } else {
            (app.margin + 1) as u16
        },
        ..app
    }
}

/// The state after the completion of the selected task was toggled.
pub open spec fn after_toggle(app: AppView) -> AppView {
    match selected_id(app) {
        Some(id) => AppView { tasks: toggled(app.tasks, id), ..app },
        None => app,
    }
}

/// The state after the priority of the selected task was cycled.
pub open spec fn after_cycle(app: AppView) -> AppView {
    match selected_id(app) {
        Some(id) => AppView { tasks: priority_cycled(app.tasks, id), ..app },
        None => app,
    }
}

/// The state after the date buffer was committed: the selected task has
/// the buffer's text as its due date and the buffer is empty; with no task
/// selected the buffer is kept. The mode is normal either way.
pub open spec fn after_set_due_date(app: AppView) -> AppView {
    match selected_id(app) {
        Some(id) => AppView {
            tasks: due_date_set(app.tasks, id, app.date_input),
            date_input: Seq::empty(),
            mode: AppMode::Normal,
            ..app
        },
        None => AppView { mode: AppMode::Normal, ..app },
    }
}

/// The state after the selected task was deleted: the selection keeps its
/// position in the list then on display, moves to the last entry if that
/// position is gone, and is none if the list is empty.
pub open spec fn after_delete(app: AppView) -> AppView {
    match selected_id(app) {
        Some(id) => {
            let left = AppView { tasks: deleted(app.tasks, id), ..app };
            AppView { selected: clamped(app.selected->0, displayed_tasks(left).len()), ..left }
        },
        None => app,
    }
}

/// The state after the input buffer was committed as a subtask of the
/// selected task, with `due_date` as what the text says of a date; with no
/// task selected the buffer is kept. The mode is normal either way.
pub open spec fn after_add_sub_task(app: AppView, due_date: Option<Seq<char>>) -> AppView {
    match selected_id(app) {
        Some(id) => AppView {
            tasks: sub_task_added(app.tasks, id, app.input, due_date),
            input: Seq::empty(),
            mode: AppMode::Normal,
            ..app
        },
        None => AppView { mode: AppMode::Normal, ..app },
    }
}

/// The state after the input buffer was committed: as a subtask if one was
/// being written, else as a new task of medium priority at the end of the store.
pub open spec fn after_add_task(app: AppView, due_date: Option<Seq<char>>) -> AppView {
    if app.adding_subtask {
        AppView { adding_subtask: false, ..after_add_sub_task(app, due_date) }
    } else {
        AppView {
            tasks: added(app.tasks, app.input, Priority::Medium, due_date),
            input: Seq::empty(),
            mode: AppMode::Normal,
            ..app
        }
    }
}

/// The selected task can take one more subtask: the identifiers of its
/// subtasks are not used up.
pub open spec fn room_for_sub_task(app: AppView) -> bool {
    match selected_id(app) {
        Some(id) => max_id(sub_task_ids(app.tasks[position(app.tasks, id)->0].sub_tasks))
            < usize::MAX,
        None => true,
    }
}

/// The input buffer can be committed: the identifiers that the new task or
/// subtask would be numbered after are not used up.
pub open spec fn room_for_task(app: AppView) -> bool {
    if app.adding_subtask {
        room_for_sub_task(app)
    } else {
        max_id(task_ids(app.tasks)) < usize::MAX
    }
}

/// Every task on display is a task of the store, so its identifier is found there.
pub proof fn displayed_ids_are_found(app: AppView, i: int)
    requires
        0 <= i < displayed_tasks(app).len(),
    ensures
        position(app.tasks, displayed_tasks(app)[i].id) is Some,
{
    let id = displayed_tasks(app)[i].id;
    let places = shown_places(app);
    position_is_first(app.tasks, id);
    assert(app.tasks[places[i]].id == id);
}

/// For each entry of the list on display, its position in the store.
proof fn shown_places(app: AppView) -> (places: Seq<int>)
    ensures
        places.len() == displayed_tasks(app).len(),
        forall|k: int| 0 <= k < places.len() ==> 0 <= #[trigger] places[k] < app.tasks.len(),
        forall|k: int|
            0 <= k < places.len() ==> displayed_tasks(app)[k] == app.tasks[#[trigger] places[k]],
        forall|j: int, k: int| 0 <= j < k < places.len() ==> places[j] < places[k],
        app.mode == AppMode::Search && app.search_input.len() > 0 ==> forall|k: int|
            0 <= k < places.len() ==> task_matches(
                app.tasks[#[trigger] places[k]],
                lowercase(app.search_input),
            ),
{
    if app.mode == AppMode::Search && app.search_input.len() > 0 {
        filter_keeps_order(app.tasks, |t: TaskView| task_matches(t, lowercase(app.search_input)))
    } else {
        Seq::new(app.tasks.len(), |k: int| k)
    }
}

/// With no identifier repeated in the store, the identifier read under the
/// selection leads to the very task on display there: it is found at one
/// position `at` of the store, that position holds the task displayed, and
/// no other position holds the identifier.
pub proof fn selected_task_is_reached(app: AppView) -> (at: int)
    requires
        distinct(task_ids(app.tasks)),
        selected_id(app) is Some,
    ensures
        0 <= at < app.tasks.len(),
        position(app.tasks, selected_id(app)->0) == Some(at),
        app.tasks[at] == displayed_tasks(app)[app.selected->0 as int],
        forall|j: int| 0 <= j < app.tasks.len() && j != at ==> app.tasks[j].id != selected_id(app)->0,
        displayed_tasks(AppView { tasks: app.tasks.remove(at), ..app }) == displayed_tasks(
            app,
        ).remove(app.selected->0 as int),
{
    let i = app.selected->0 as int;
    let ids = task_ids(app.tasks);
    let places = shown_places(app);
    let at = places[i];
    position_of_distinct(app.tasks, at);
    assert forall|j: int| 0 <= j < app.tasks.len() && j != at implies app.tasks[j].id
        != selected_id(app)->0 by {
        assert(ids[j] == app.tasks[j].id && ids[at] == app.tasks[at].id);
    }
    if app.mode == AppMode::Search && app.search_input.len() > 0 {
        let pred = |t: TaskView| task_matches(t, lowercase(app.search_input));
        let kept = app.tasks.filter(pred);
        filter_after_remove(app.tasks, pred, at);
        // The task stands in the filtered list after those kept of the
        // tasks before it; no other place of that list has its identifier.
        let k = app.tasks.take(at).filter(pred).len() as int;
        assert(kept[k] == app.tasks[at]);
        assert(ids[places[k]] == app.tasks[places[k]].id);
        assert(places[k] == at);
        if k < i {
            assert(places[k] < places[i]);
        }
        if i < k {
            assert(places[i] < places[k]);
        }
    }
    at
}

/// Toggling under the selection changes the task on display there and no
/// other: with no identifier repeated in the store, every task of the store
/// is as it was, but for the one with the identifier displayed under the
/// selection, whose completion is flipped.
pub proof fn toggle_is_identity_safe(app: AppView)
    requires
        distinct(task_ids(app.tasks)),
        selected_id(app) is Some,
    ensures
        after_toggle(app).tasks.len() == app.tasks.len(),
        forall|j: int|
            0 <= j < app.tasks.len() ==> #[trigger] after_toggle(app).tasks[j] == if app.tasks[j].id
                == displayed_tasks(app)[app.selected->0 as int].id {
                TaskView { completed: !app.tasks[j].completed, ..app.tasks[j] }
            } else {
                app.tasks[j]
            },
        exists|j: int|
            0 <= j < app.tasks.len() && #[trigger] app.tasks[j] == displayed_tasks(
                app,
            )[app.selected->0 as int],
        after_toggle(app) == (AppView { tasks: after_toggle(app).tasks, ..app }),
{
    let at = selected_task_is_reached(app);
    assert(app.tasks[at] == displayed_tasks(app)[app.selected->0 as int]);
}

/// Deleting under the selection removes the task on display there and no
/// other: with no identifier repeated in the store, the store and the list
/// on display both lose that one task, and the selection keeps its
/// position, or moves to the new last entry, or is none if nothing is left.
pub proof fn delete_is_identity_safe(app: AppView)
    requires
        distinct(task_ids(app.tasks)),
        selected_id(app) is Some,
    ensures
        exists|at: int|
            0 <= at < app.tasks.len() && app.tasks[at] == displayed_tasks(
                app,
            )[app.selected->0 as int] && after_delete(app).tasks == #[trigger] app.tasks.remove(at),
        displayed_tasks(after_delete(app)) == displayed_tasks(app).remove(app.selected->0 as int),
        after_delete(app).selected == clamped(
            app.selected->0,
            (displayed_tasks(app).len() - 1) as nat,
        ),
{
    let at = selected_task_is_reached(app);
    assert(after_delete(app).tasks == app.tasks.remove(at));
}

/// After a delete under the selection, the selection is a position of the
/// list then on display, and it is none exactly when that list is empty.
pub proof fn selection_is_repaired(app: AppView)
    requires
        selected_id(app) is Some,
    ensures
        in_range(after_delete(app).selected, displayed_tasks(after_delete(app)).len()),
        after_delete(app).selected is None <==> displayed_tasks(after_delete(app)).len() == 0,
{
}

/// While the list on display is empty, steps forward and back change
/// nothing. In a list that is not empty they lead to one of its positions.
pub proof fn steps_stay_in_the_list(app: AppView)
    ensures
        displayed_tasks(app).len() == 0 ==> after_next(app) == app && after_previous(app) == app,
        displayed_tasks(app).len() > 0 ==> in_range(
            after_next(app).selected,
            displayed_tasks(after_next(app)).len(),
        ) && in_range(after_previous(app).selected, displayed_tasks(after_previous(app)).len()),
{
    let len = displayed_tasks(app).len() as int;
    if len > 0 {
        match app.selected {
            Some(i) => {
                assert(0 <= (i + 1) % len < len) by (nonlinear_arith)
                    requires
                        len > 0,
                ;
                assert(0 <= (i + len - 1) % len < len) by (nonlinear_arith)
                    requires
                        len > 0,
                ;
            },
            None => {},
        }
    }
}

impl App {
    /// The state a session starts in, with the tasks that were stored: the
    /// first task selected if there is one, normal mode, empty buffers.
    pub fn new(tasks: Vec<Task>) -> (app: App)
        ensures
            app@ == initial(tasks.deep_view()),
    {
        let mut state = Selection::new();
        if tasks.len() > 0 {
            state.select(Some(0));
        }
        App {
            store: TaskStore { tasks },
            state,
            mode: AppMode::Normal,
            input: String::new(),
            date_input: String::new(),
            search_input: String::new(),
            margin: 1,
            adding_subtask: false,
        }
    }

    /// Narrows the border by one, down to none.
    pub fn zoom_in(&mut self)
        ensures
            final(self)@ == after_zoom_in(old(self)@),
    {
        self.margin = self.margin.saturating_sub(1);
    }

    /// Widens the border by one, up to the largest width there is.
    pub fn zoom_out(&mut self)
        ensures
            final(self)@ == after_zoom_out(old(self)@),
    {
        self.margin = self.margin.saturating_add(1);
    }

    /// The tasks that the search query shows, as copies.
    pub fn filter_tasks(&self) -> (out: Vec<Task>)
        ensures
            out.deep_view() == shown(self@.tasks, self@.search_input),
    {
        displayed(&self.store, self.search_input.as_str())
    }

    /// The list on display, as copies.
    pub fn get_displayed_tasks(&self) -> (out: Vec<Task>)
        ensures
            out.deep_view() == displayed_tasks(self@),
    {
        match self.mode {
            AppMode::Search => {
                if !self.search_input.as_str().is_empty() {
                    return self.filter_tasks();
                }
                clone_tasks(&self.store.tasks)
            },
            _ => clone_tasks(&self.store.tasks),
        }
    }

    /// Moves the selection to the next entry of the list on display, from
    /// the last entry to the first. Does nothing while the list is empty.
    pub fn next(&mut self)
        ensures
            final(self)@ == after_next(old(self)@),
    {
        let shown_now = self.get_displayed_tasks();
        self.state.advance(shown_now.len());
    }

    /// Moves the selection to the entry before, from the first entry to the
    /// last. Does nothing while the list is empty.
    pub fn previous(&mut self)
        ensures
            final(self)@ == after_previous(old(self)@),
    {
        let shown_now = self.get_displayed_tasks();
        self.state.retreat(shown_now.len());
    }

    /// The identifier of the task under the selection, read from the list
    /// on display at this moment.
    pub fn selected_task_id(&self) -> (id: Option<usize>)
        ensures
            id is Some <==> selected_id(self@) is Some,
            id is Some ==> id->0 as nat == selected_id(self@)->0,
    {
        match self.state.selected() {
            Some(i) => {
                let shown_now = self.get_displayed_tasks();
                if i < shown_now.len() {
                    Some(shown_now[i].id)
                } else {
                    None
                }
            },
            None => None,
        }
    }

    /// Toggles the completion of the task under the selection. The task is
    /// found in the store by its identifier, not by its position on display.
    pub fn toggle_completed(&mut self)
        ensures
            final(self)@ == after_toggle(old(self)@),
    {
        match self.selected_task_id() {
            Some(id) => {
                self.store.toggle_completed(id);
            },
            None => {},
        }
    }

    /// Cycles the priority of the task under the selection, found in the
    /// store by its identifier.
    pub fn cycle_priority(&mut self)
        ensures
            final(self)@ == after_cycle(old(self)@),
    {
        match self.selected_task_id() {
            Some(id) => {
                self.store.cycle_priority(id);
            },
            None => {},
        }
    }

    /// Commits the date buffer as the due date of the task under the
    /// selection, as written, and returns to normal mode.
    pub fn set_due_date(&mut self)
        ensures
            final(self)@ == after_set_due_date(old(self)@),
    {
        match self.selected_task_id() {
            Some(id) => {
                let date = self.date_input.clone();
                self.date_input = String::new();
                self.store.set_due_date(id, date);
            },
            None => {},
        }
        self.mode = AppMode::Normal;
    }

    /// Deletes the task under the selection, found in the store by its
    /// identifier, and repairs the selection for the list then on display.
    pub fn delete_task(&mut self)
        ensures
            final(self)@ == after_delete(old(self)@),
    {
        match self.selected_task_id() {
            Some(id) => {
                let index: usize = match self.state.selected() {
                    Some(i) => i,
                    None => 0,
                };
                self.store.delete(id);
                let left = self.get_displayed_tasks();
                self.state.clamp(index, left.len());
            },
            None => {},
        }
    }

    /// Whether the input buffer can be committed now.
    pub fn can_add_task(&self) -> (ok: bool)
        ensures
            ok == room_for_task(self@),
    {
        if self.adding_subtask {
            match self.selected_task_id() {
                Some(id) => {
                    proof {
                        displayed_ids_are_found(self@, self@.selected->0 as int);
                    }
                    match self.store.find(id) {
                        Some(at) => next_sub_task_id(&self.store.tasks[at].sub_tasks).is_some(),
                        None => true,
                    }
                },
                None => true,
            }
        } else {
            self.store.next_id().is_some()
        }
    }

    /// Commits the input buffer as a subtask of the task under the
    /// selection, with the due date given, and returns to normal mode.
    pub fn add_sub_task_with(&mut self, due_date: Option<String>)
        requires
            room_for_sub_task(old(self)@),
        ensures
            final(self)@ == after_add_sub_task(old(self)@, due_date.deep_view()),
    {
        match self.selected_task_id() {
            Some(id) => {
                let text = self.input.clone();
                self.input = String::new();
                let _ = self.store.add_subtask(id, text, due_date);
            },
            None => {},
        }
        self.mode = AppMode::Normal;
    }

    /// Commits the input buffer, with the due date given: as a subtask if
    /// one was being written, else as a new task at the end of the store.
    pub fn add_task_with(&mut self, due_date: Option<String>)
        requires
            room_for_task(old(self)@),
        ensures
            final(self)@ == after_add_task(old(self)@, due_date.deep_view()),
    {
        if self.adding_subtask {
            self.add_sub_task_with(due_date);
            self.adding_subtask = false;
        } else {
            let text = self.input.clone();
            self.input = String::new();
            let _ = self.store.add(text, Priority::Medium, due_date);
        }
        self.mode = AppMode::Normal;
    }

    /// Commits the input buffer as a subtask of the task under the
    /// selection. Its due date is what the date parser reads from the
    /// buffer today; a text that is not handed to the parser gives none.
    pub fn add_sub_task(&mut self)
        requires
            room_for_sub_task(old(self)@),
        ensures
            exists|due_date: Option<Seq<char>>|
                (!plain_date_text(old(self)@.input) ==> due_date is None) && final(self)@
                    == #[trigger] after_add_sub_task(old(self)@, due_date),
    {
        let due_date = due_date_from(self.input.as_str());
        let ghost due = due_date.deep_view();
        self.add_sub_task_with(due_date);
        assert(final(self)@ == after_add_sub_task(old(self)@, due));
    }

    /// Commits the input buffer: as a subtask if one was being written,
    /// else as a new task. Its due date is what the date parser reads from
    /// the buffer today; a text that is not handed to the parser gives none.
    pub fn add_task(&mut self)
        requires
            room_for_task(old(self)@),
        ensures
            exists|due_date: Option<Seq<char>>|
                (!plain_date_text(old(self)@.input) ==> due_date is None) && final(self)@
                    == #[trigger] after_add_task(old(self)@, due_date),
    {
        if self.adding_subtask {
            self.add_sub_task();
            let ghost due = choose|due_date: Option<Seq<char>>|
                (!plain_date_text(old(self)@.input) ==> due_date is None) && self@
                    == #[trigger] after_add_sub_task(old(self)@, due_date);
            self.adding_subtask = false;
            self.mode = AppMode::Normal;
            assert(self@ == after_add_task(old(self)@, due));
        } else {
            let due_date = due_date_from(self.input.as_str());
            let ghost due = due_date.deep_view();
            self.add_task_with(due_date);
            assert(self@ == after_add_task(old(self)@, due));
        }
    }

    /// Commits the input buffer as `add_task` does, unless the identifiers
    /// are used up: then nothing changes. Says whether it committed.
    pub fn try_add_task(&mut self) -> (done: bool)
        ensures
            done == room_for_task(old(self)@),
            !done ==> final(self)@ == old(self)@,
            done ==> exists|due_date: Option<Seq<char>>|
                (!plain_date_text(old(self)@.input) ==> due_date is None) && final(self)@
                    == #[trigger] after_add_task(old(self)@, due_date),
    {
        if self.can_add_task() {
            self.add_task();
            true
        } else {
            false
        }
    }
}

} // verus!
