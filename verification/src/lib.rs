//! A personal task tracker: the task store, the search filter that derives
//! the list on display, and the selection that follows that list.
//!
//! Every function states its behaviour over the mathematical view of the
//! data (`TaskView`, `AppView`). Commands that act on the selected task read
//! its identifier from the list on display and find the task in the store by
//! that identifier, never by its position in a filtered list.
//!
//! - `task`: tasks and subtasks.
//! - `text`: lower-casing, substring search, words and tags.
//! - `due`: due dates read from free text.
//! - `store`: the tasks in order, addressed by identifier.
//! - `filter`: which tasks a query shows.
//! - `selection`: the highlighted position.
//! - `app`: the application state and its commands.
//! - `keys`: what each key does in each mode.
//! - `history`: how identifiers are numbered over adds and deletes.
//! - `rows`: the list on display as rows of plain values.

pub mod task;
pub mod text;
pub mod due;
pub mod store;
pub mod filter;
pub mod selection;
pub mod app;
pub mod keys;
pub mod history;
pub mod rows;
