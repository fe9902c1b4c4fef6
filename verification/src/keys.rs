//! Key strokes: what each key does in each mode.

use vstd::prelude::*;
use crate::app::{
    after_add_task, after_cycle, after_delete, after_next, after_previous, after_set_due_date,
    after_toggle, after_zoom_in, after_zoom_out, room_for_task, selected_id, App, AppMode,
    AppView,
};
use crate::store::{operations_keep_well_formed, well_formed};
use crate::task::Priority;
use crate::due::{due_date_from, plain_date_text};
use crate::text::{pop_char, push_char};

verus! {

/// A key stroke, as far as the application tells keys apart.
#[derive(Clone, Copy, Debug, PartialEq, Eq, Structural)]
pub enum Key {
    /// A key that writes a character.
    Char(char),
    Enter,
    Esc,
    Backspace,
    Up,
    Down,
    /// Any other key.
    Other,
}

/// What the caller is to do after a key stroke.
#[derive(Clone, Copy, Debug, PartialEq, Eq, Structural)]
pub enum Action {
    /// Redraw and wait for the next key.
    Continue,
    /// Store the tasks and end the session.
    SaveAndQuit,
}

/// The text of a buffer after a key that edits it: a character is appended,
/// backspace removes the last character if there is one.
pub open spec fn edited(text: Seq<char>, key: Key) -> Seq<char> {
    match key {
        Key::Char(c) => text.push(c),
        Key::Backspace => if text.len() > 0 {
            text.drop_last()
        } else {
            text
        },
        _ => text,
    }
}

/// The state after a key stroke in normal mode.
pub open spec fn after_command(app: AppView, key: Key) -> AppView {
    match key {
        Key::Down => after_next(app),
        Key::Up => after_previous(app),
        Key::Enter => after_toggle(app),
        Key::Char(c) => if c == 'a' {
            AppView { adding_subtask: false, mode: AppMode::Insert, ..app }
        } else if c == 's' {
            AppView { adding_subtask: true, mode: AppMode::Insert, ..app }
        } else if c == 'd' {
            after_delete(app)
        } else if c == 'p' {
            after_cycle(app)
        } else if c == 'D' {
            AppView { mode: AppMode::DateInput, ..app }
        } else if c == '/' {
            AppView { mode: AppMode::Search, ..app }
        } else if c == '+' {
            after_zoom_in(app)
        } else if c == '-' {
            after_zoom_out(app)
        } else {
            app
        },
        _ => app,
    }
}

/// The key stroke commits the input buffer.
pub open spec fn commits_input(app: AppView, key: Key) -> bool {
    app.mode == AppMode::Insert && key == Key::Enter
}

/// The state after a key stroke. `due_date` is what the input buffer says
/// of a date; only a key stroke that commits the input buffer reads it.
pub open spec fn after_key(app: AppView, key: Key, due_date: Option<Seq<char>>) -> AppView {
    match app.mode {
        AppMode::Normal => after_command(app, key),
        AppMode::Insert => match key {
            Key::Enter => after_add_task(app, due_date),
            Key::Esc => AppView { adding_subtask: false, mode: AppMode::Normal, ..app },
            _ => AppView { input: edited(app.input, key), ..app },
        },
        AppMode::DateInput => match key {
            Key::Enter => after_set_due_date(app),
            Key::Esc => AppView { mode: AppMode::Normal, ..app },
            _ => AppView { date_input: edited(app.date_input, key), ..app },
        },
        AppMode::Search => match key {
            Key::Enter => AppView { mode: AppMode::Normal, ..app },
            Key::Esc => AppView { mode: AppMode::Normal, ..app },
            _ => AppView { search_input: edited(app.search_input, key), ..app },
        },
    }
}

/// What the caller is to do after a key stroke: `q` in normal mode ends the
/// session, every other key goes on.
pub open spec fn action_for(app: AppView, key: Key) -> Action {
    if app.mode == AppMode::Normal && key == Key::Char('q') {
        Action::SaveAndQuit
    } else {
        Action::Continue
    }
}

/// No key stroke spoils the store: from a well-formed store every key
/// stroke, in every mode, leads to a well-formed store.
pub proof fn keys_keep_well_formed(app: AppView, key: Key, due_date: Option<Seq<char>>)
    requires
        well_formed(app.tasks),
    ensures
        well_formed(after_key(app, key, due_date).tasks),
{
    let id = match selected_id(app) {
        Some(id) => id,
        None => 0,
    };
    operations_keep_well_formed(app.tasks, id, app.input, Priority::Medium, due_date);
    operations_keep_well_formed(app.tasks, id, app.date_input, Priority::Medium, due_date);
}

/// Applies a key that edits a buffer.
pub fn edit(text: &mut String, key: Key)
    ensures
        final(text)@ == edited(old(text)@, key),
{
    match key {
        Key::Char(c) => {
            push_char(text, c);
        },
        Key::Backspace => {
            let _ = pop_char(text);
        },
        _ => {},
    }
}

impl App {
    /// Applies a key stroke as a command, as normal mode reads it.
    pub fn command(&mut self, key: Key)
        ensures
            final(self)@ == after_command(old(self)@, key),
    {
        match key {
            Key::Down => self.next(),
            Key::Up => self.previous(),
            Key::Enter => self.toggle_completed(),
            Key::Char(c) => {
                if c == 'a' {
                    self.adding_subtask = false;
                    self.mode = AppMode::Insert;
                } else if c == 's' {
                    self.adding_subtask = true;
                    self.mode = AppMode::Insert;
                } else if c == 'd' {
                    self.delete_task();
                } else if c == 'p' {
                    self.cycle_priority();
                } else if c == 'D' {
                    self.mode = AppMode::DateInput;
                } else if c == '/' {
                    self.mode = AppMode::Search;
                } else if c == '+' {
                    self.zoom_in();
                } else if c == '-' {
                    self.zoom_out();
                }
            },
            _ => {},
        }
    }

    /// Applies a key stroke, with the due date given for the case that the
    /// key commits the input buffer, and says what the caller is to do.
    pub fn handle_key_with(&mut self, key: Key, due_date: Option<String>) -> (action: Action)
        requires
            commits_input(old(self)@, key) ==> room_for_task(old(self)@),
        ensures
            final(self)@ == after_key(old(self)@, key, due_date.deep_view()),
            action == action_for(old(self)@, key),
    {
        match self.mode {
            AppMode::Normal => {
                match key {
                    Key::Char(c) => {
                        if c == 'q' {
                            return Action::SaveAndQuit;
                        }
                    },
                    _ => {},
                }
                self.command(key);
            },
            AppMode::Insert => {
                match key {
                    Key::Enter => self.add_task_with(due_date),
                    Key::Esc => {
                        self.adding_subtask = false;
                        self.mode = AppMode::Normal;
                    },
                    _ => edit(&mut self.input, key),
                }
            },
            AppMode::DateInput => {
                match key {
                    Key::Enter => self.set_due_date(),
                    Key::Esc => {
                        self.mode = AppMode::Normal;
                    },
                    _ => edit(&mut self.date_input, key),
                }
            },
            AppMode::Search => {
                match key {
                    Key::Enter => {
                        self.mode = AppMode::Normal;
                    },
                    Key::Esc => {
                        self.mode = AppMode::Normal;
                    },
                    _ => edit(&mut self.search_input, key),
                }
            },
        }
        Action::Continue
    }

    /// Applies a key stroke and says what the caller is to do. Where the
    /// key commits the input buffer, the due date is what the date parser
    /// reads from the buffer today.
    pub fn handle_key(&mut self, key: Key) -> (action: Action)
        requires
            commits_input(old(self)@, key) ==> room_for_task(old(self)@),
        ensures
            action == action_for(old(self)@, key),
            exists|due_date: Option<Seq<char>>|
                (!plain_date_text(old(self)@.input) ==> due_date is None) && final(self)@
                    == #[trigger] after_key(old(self)@, key, due_date),
            !commits_input(old(self)@, key) ==> final(self)@ == after_key(old(self)@, key, None),
    {
        let due_date = match self.mode {
            AppMode::Insert => match key {
                Key::Enter => due_date_from(self.input.as_str()),
                _ => None,
            },
            _ => None,
        };
        let ghost due = due_date.deep_view();
        let action = self.handle_key_with(key, due_date);
        assert(final(self)@ == after_key(old(self)@, key, due));
        action
    }

    /// Applies a key stroke as `handle_key` does, unless the key commits
    /// the input buffer while the identifiers are used up: then nothing
    /// changes and no action is given.
    pub fn try_handle_key(&mut self, key: Key) -> (action: Option<Action>)
        ensures
            action is Some <==> (commits_input(old(self)@, key) ==> room_for_task(old(self)@)),
            action is None ==> final(self)@ == old(self)@,
            action is Some ==> action->0 == action_for(old(self)@, key),
            action is Some ==> exists|due_date: Option<Seq<char>>|
                (!plain_date_text(old(self)@.input) ==> due_date is None) && final(self)@
                    == #[trigger] after_key(old(self)@, key, due_date),
    {
        let commits: bool = match self.mode {
            AppMode::Insert => match key {
                Key::Enter => true,
                _ => false,
            },
            _ => false,
        };
        if commits && !self.can_add_task() {
            None
        } else {
            Some(self.handle_key(key))
        }
    }
}

} // verus!
