use todo_list::app::{App, AppMode};
use todo_list::keys::{edit, Action, Key};
use todo_list::task::{Priority, Task};

fn app_task(id: usize, description: &str) -> Task {
    Task {
        id,
        description: description.to_string(),
        completed: false,
        priority: Priority::Medium,
        due_date: None,
        tags: Vec::new(),
        sub_tasks: Vec::new(),
    }
}

fn app_of_three() -> App {
    App::new(vec![app_task(1, "A"), app_task(2, "B both"), app_task(3, "C both")])
}

fn app_ids(app: &App) -> Vec<usize> {
    app.store.tasks.iter().map(|t| t.id).collect()
}

fn type_text(app: &mut App, text: &str) {
    for c in text.chars() {
        assert_eq!(app.handle_key(Key::Char(c)), Action::Continue);
    }
}

#[test]
fn a_session_starts_in_normal_mode_with_the_first_task_selected() {
    let app = app_of_three();
    assert_eq!(app.state.selected(), Some(0));
    assert_eq!(app.mode, AppMode::Normal);
    assert_eq!(app.input, "");
    assert_eq!(app.date_input, "");
    assert_eq!(app.search_input, "");
    assert_eq!(app.margin, 1);
    assert!(!app.adding_subtask);
    assert_eq!(app_ids(&app), vec![1, 2, 3]);
}

#[test]
fn a_session_without_tasks_starts_with_nothing_selected() {
    let app = App::new(Vec::new());
    assert_eq!(app.state.selected(), None);
    assert!(app.get_displayed_tasks().is_empty());
}

#[test]
fn the_border_stays_between_none_and_the_largest_width() {
    let mut app = App::new(Vec::new());
    app.zoom_in();
    assert_eq!(app.margin, 0);
    app.zoom_in();
    assert_eq!(app.margin, 0);
    app.zoom_out();
    assert_eq!(app.margin, 1);
    app.margin = u16::MAX;
    app.zoom_out();
    assert_eq!(app.margin, u16::MAX);
}

#[test]
fn next_and_previous_go_round_the_list() {
    let mut app = app_of_three();
    app.next();
    assert_eq!(app.state.selected(), Some(1));
    app.next();
    app.next();
    assert_eq!(app.state.selected(), Some(0));
    app.previous();
    assert_eq!(app.state.selected(), Some(2));
}

#[test]
fn next_and_previous_do_nothing_in_an_empty_list() {
    let mut app = App::new(Vec::new());
    app.next();
    assert_eq!(app.state.selected(), None);
    app.previous();
    assert_eq!(app.state.selected(), None);
}

#[test]
fn the_filter_applies_only_while_a_query_is_being_written() {
    let mut app = app_of_three();
    app.search_input = "both".to_string();
    assert_eq!(app.get_displayed_tasks().len(), 3);
    assert_eq!(app.filter_tasks().len(), 2);
    app.mode = AppMode::Search;
    let shown = app.get_displayed_tasks();
    assert_eq!(shown.len(), 2);
    assert_eq!(shown[0].id, 2);
    assert_eq!(shown[1].id, 3);
    app.search_input = String::new();
    assert_eq!(app.get_displayed_tasks().len(), 3);
}

#[test]
fn toggle_under_a_filter_reaches_the_task_on_display() {
    let mut app = app_of_three();
    app.mode = AppMode::Search;
    app.search_input = "both".to_string();
    app.state.select(Some(0));
    assert_eq!(app.selected_task_id(), Some(2));
    app.toggle_completed();
    assert!(!app.store.tasks[0].completed);
    assert!(app.store.tasks[1].completed);
    assert!(!app.store.tasks[2].completed);
}

#[test]
fn toggle_reaches_the_task_wherever_it_stands_in_the_store() {
    let mut app = App::new(vec![app_task(2, "B both"), app_task(3, "C both"), app_task(1, "A")]);
    app.mode = AppMode::Search;
    app.search_input = "both".to_string();
    app.state.select(Some(1));
    app.toggle_completed();
    assert!(!app.store.tasks[0].completed);
    assert!(app.store.tasks[1].completed);
    assert!(!app.store.tasks[2].completed);
    assert_eq!(app.store.tasks[1].id, 3);
}

#[test]
fn cycle_priority_under_a_filter_reaches_the_task_on_display() {
    let mut app = app_of_three();
    app.mode = AppMode::Search;
    app.search_input = "both".to_string();
    app.state.select(Some(1));
    app.cycle_priority();
    assert_eq!(app.store.tasks[0].priority, Priority::Medium);
    assert_eq!(app.store.tasks[1].priority, Priority::Medium);
    assert_eq!(app.store.tasks[2].priority, Priority::High);
}

#[test]
fn commands_do_nothing_with_a_selection_past_the_end() {
    let mut app = app_of_three();
    app.state.select(Some(3));
    assert_eq!(app.selected_task_id(), None);
    app.toggle_completed();
    app.cycle_priority();
    app.delete_task();
    assert_eq!(app_ids(&app), vec![1, 2, 3]);
    assert!(app.store.tasks.iter().all(|t| !t.completed && t.priority == Priority::Medium));
    assert_eq!(app.state.selected(), Some(3));
}

#[test]
fn deleting_the_last_entry_moves_the_selection_to_the_new_last_entry() {
    let mut app = app_of_three();
    app.state.select(Some(2));
    app.delete_task();
    assert_eq!(app.get_displayed_tasks().len(), 2);
    assert_eq!(app.state.selected(), Some(1));
    assert_eq!(app_ids(&app), vec![1, 2]);
}

#[test]
fn deleting_an_entry_in_the_middle_keeps_the_position() {
    let mut app = app_of_three();
    app.state.select(Some(1));
    app.delete_task();
    assert_eq!(app.state.selected(), Some(1));
    assert_eq!(app_ids(&app), vec![1, 3]);
}

#[test]
fn deleting_the_only_task_leaves_nothing_selected() {
    let mut app = App::new(vec![app_task(1, "only")]);
    app.delete_task();
    assert_eq!(app.get_displayed_tasks().len(), 0);
    assert_eq!(app.state.selected(), None);
    app.next();
    assert_eq!(app.state.selected(), None);
    app.previous();
    assert_eq!(app.state.selected(), None);
}

#[test]
fn deleting_under_a_filter_removes_the_task_on_display() {
    let mut app = app_of_three();
    app.mode = AppMode::Search;
    app.search_input = "both".to_string();
    app.state.select(Some(1));
    app.delete_task();
    assert_eq!(app_ids(&app), vec![1, 2]);
    assert_eq!(app.state.selected(), Some(0));
}

#[test]
fn set_due_date_commits_the_date_buffer_as_written() {
    let mut app = app_of_three();
    app.state.select(Some(1));
    app.mode = AppMode::DateInput;
    app.date_input = "next week maybe".to_string();
    app.set_due_date();
    assert_eq!(app.store.tasks[1].due_date, Some("next week maybe".to_string()));
    assert_eq!(app.store.tasks[0].due_date, None);
    assert_eq!(app.date_input, "");
    assert_eq!(app.mode, AppMode::Normal);
}

#[test]
fn set_due_date_without_a_selection_keeps_the_buffer() {
    let mut app = App::new(Vec::new());
    app.mode = AppMode::DateInput;
    app.date_input = "friday".to_string();
    app.set_due_date();
    assert_eq!(app.date_input, "friday");
    assert_eq!(app.mode, AppMode::Normal);
}

#[test]
fn add_task_commits_the_input_buffer() {
    let mut app = app_of_three();
    app.mode = AppMode::Insert;
    app.input = "buy milk #errand #urgent".to_string();
    assert!(app.can_add_task());
    app.add_task();
    assert_eq!(app_ids(&app), vec![1, 2, 3, 4]);
    let task = &app.store.tasks[3];
    assert_eq!(task.description, "buy milk #errand #urgent");
    assert_eq!(task.tags, vec!["#errand", "#urgent"]);
    assert_eq!(task.priority, Priority::Medium);
    assert_eq!(task.due_date, None);
    assert!(!task.completed);
    assert_eq!(app.input, "");
    assert_eq!(app.mode, AppMode::Normal);
    assert_eq!(app.state.selected(), Some(0));
}

#[test]
fn add_task_reads_a_due_date_from_the_text() {
    let mut app = App::new(Vec::new());
    app.input = "2030-01-15".to_string();
    app.add_task();
    assert_eq!(app.store.tasks[0].id, 1);
    assert_eq!(app.store.tasks[0].description, "2030-01-15");
    assert_eq!(app.store.tasks[0].due_date, Some("2030-01-15".to_string()));
}

#[test]
fn add_task_with_takes_the_due_date_it_is_given() {
    let mut app = App::new(Vec::new());
    app.input = "plain text".to_string();
    app.add_task_with(Some("2031-12-24".to_string()));
    assert_eq!(app.store.tasks[0].due_date, Some("2031-12-24".to_string()));
    assert_eq!(app.store.tasks[0].description, "plain text");
}

#[test]
fn add_task_adds_a_subtask_where_one_was_being_written() {
    let mut app = app_of_three();
    app.state.select(Some(1));
    app.adding_subtask = true;
    app.mode = AppMode::Insert;
    app.input = "part #sub".to_string();
    assert!(app.can_add_task());
    app.add_task();
    assert!(!app.adding_subtask);
    assert_eq!(app.mode, AppMode::Normal);
    assert_eq!(app.input, "");
    assert_eq!(app_ids(&app), vec![1, 2, 3]);
    assert_eq!(app.store.tasks[1].sub_tasks.len(), 1);
    assert_eq!(app.store.tasks[1].sub_tasks[0].id, 1);
    assert_eq!(app.store.tasks[1].sub_tasks[0].description, "part #sub");
    assert_eq!(app.store.tasks[1].sub_tasks[0].tags, vec!["#sub"]);
}

#[test]
fn add_sub_task_without_a_selection_keeps_the_buffer() {
    let mut app = App::new(Vec::new());
    app.mode = AppMode::Insert;
    app.input = "orphan".to_string();
    app.add_sub_task();
    assert_eq!(app.input, "orphan");
    assert_eq!(app.mode, AppMode::Normal);
    assert!(app.store.tasks.is_empty());
}

#[test]
fn add_sub_task_with_numbers_the_subtasks_of_the_selected_task() {
    let mut app = app_of_three();
    app.state.select(Some(2));
    app.input = "one".to_string();
    app.add_sub_task_with(None);
    app.input = "two".to_string();
    app.add_sub_task_with(Some("2030-06-01".to_string()));
    let subs = &app.store.tasks[2].sub_tasks;
    assert_eq!(subs.len(), 2);
    assert_eq!(subs[0].id, 1);
    assert_eq!(subs[1].id, 2);
    assert_eq!(subs[1].due_date, Some("2030-06-01".to_string()));
}

#[test]
fn can_add_task_is_false_when_the_numbers_are_used_up() {
    let mut app = App::new(vec![app_task(usize::MAX, "last")]);
    assert!(!app.can_add_task());
    app.adding_subtask = true;
    assert!(app.can_add_task());
}

#[test]
fn a_key_that_edits_appends_or_removes_the_last_character() {
    let mut text = "ab".to_string();
    edit(&mut text, Key::Char('c'));
    assert_eq!(text, "abc");
    edit(&mut text, Key::Backspace);
    edit(&mut text, Key::Backspace);
    assert_eq!(text, "a");
    edit(&mut text, Key::Enter);
    assert_eq!(text, "a");
    edit(&mut text, Key::Backspace);
    edit(&mut text, Key::Backspace);
    assert_eq!(text, "");
}

#[test]
fn q_in_normal_mode_ends_the_session() {
    let mut app = app_of_three();
    assert_eq!(app.handle_key(Key::Char('q')), Action::SaveAndQuit);
    assert_eq!(app.mode, AppMode::Normal);
    app.mode = AppMode::Insert;
    assert_eq!(app.handle_key(Key::Char('q')), Action::Continue);
    assert_eq!(app.input, "q");
}

#[test]
fn keys_in_normal_mode_are_commands() {
    let mut app = app_of_three();
    assert_eq!(app.handle_key(Key::Down), Action::Continue);
    assert_eq!(app.state.selected(), Some(1));
    app.handle_key(Key::Enter);
    assert!(app.store.tasks[1].completed);
    app.handle_key(Key::Char('p'));
    assert_eq!(app.store.tasks[1].priority, Priority::High);
    app.handle_key(Key::Up);
    assert_eq!(app.state.selected(), Some(0));
    app.handle_key(Key::Char('-'));
    assert_eq!(app.margin, 2);
    app.handle_key(Key::Char('+'));
    assert_eq!(app.margin, 1);
    app.handle_key(Key::Char('d'));
    assert_eq!(app_ids(&app), vec![2, 3]);
    app.handle_key(Key::Other);
    app.handle_key(Key::Char('x'));
    app.handle_key(Key::Esc);
    app.handle_key(Key::Backspace);
    assert_eq!(app_ids(&app), vec![2, 3]);
    assert_eq!(app.mode, AppMode::Normal);
}

#[test]
fn keys_write_a_task_in_insert_mode() {
    let mut app = App::new(Vec::new());
    app.handle_key(Key::Char('a'));
    assert_eq!(app.mode, AppMode::Insert);
    assert!(!app.adding_subtask);
    type_text(&mut app, "wash car #home!");
    app.handle_key(Key::Backspace);
    assert_eq!(app.input, "wash car #home");
    app.handle_key(Key::Enter);
    assert_eq!(app.mode, AppMode::Normal);
    assert_eq!(app.store.tasks.len(), 1);
    assert_eq!(app.store.tasks[0].description, "wash car #home");
    assert_eq!(app.store.tasks[0].tags, vec!["#home"]);
}

#[test]
fn keys_write_a_subtask_in_insert_mode() {
    let mut app = app_of_three();
    app.handle_key(Key::Char('s'));
    assert_eq!(app.mode, AppMode::Insert);
    assert!(app.adding_subtask);
    type_text(&mut app, "part");
    app.handle_key(Key::Enter);
    assert!(!app.adding_subtask);
    assert_eq!(app.store.tasks[0].sub_tasks.len(), 1);
    assert_eq!(app.store.tasks[0].sub_tasks[0].description, "part");
}

#[test]
fn escape_leaves_insert_mode_and_keeps_the_buffer() {
    let mut app = app_of_three();
    app.handle_key(Key::Char('s'));
    type_text(&mut app, "dra");
    app.handle_key(Key::Esc);
    assert_eq!(app.mode, AppMode::Normal);
    assert!(!app.adding_subtask);
    assert_eq!(app.input, "dra");
    assert_eq!(app.store.tasks[0].sub_tasks.len(), 0);
}

#[test]
fn keys_write_a_due_date_in_date_mode() {
    let mut app = app_of_three();
    app.handle_key(Key::Char('D'));
    assert_eq!(app.mode, AppMode::DateInput);
    type_text(&mut app, "2030-01-155");
    app.handle_key(Key::Backspace);
    app.handle_key(Key::Enter);
    assert_eq!(app.mode, AppMode::Normal);
    assert_eq!(app.store.tasks[0].due_date, Some("2030-01-15".to_string()));
    app.handle_key(Key::Char('D'));
    type_text(&mut app, "x");
    app.handle_key(Key::Esc);
    assert_eq!(app.mode, AppMode::Normal);
    assert_eq!(app.date_input, "x");
    assert_eq!(app.store.tasks[0].due_date, Some("2030-01-15".to_string()));
}

#[test]
fn keys_write_the_query_in_search_mode() {
    let mut app = app_of_three();
    app.handle_key(Key::Char('/'));
    assert_eq!(app.mode, AppMode::Search);
    type_text(&mut app, "bothh");
    app.handle_key(Key::Backspace);
    assert_eq!(app.search_input, "both");
    assert_eq!(app.get_displayed_tasks().len(), 2);
    app.handle_key(Key::Down);
    app.handle_key(Key::Up);
    assert_eq!(app.state.selected(), Some(0));
    app.handle_key(Key::Enter);
    assert_eq!(app.mode, AppMode::Normal);
    assert_eq!(app.search_input, "both");
    assert_eq!(app.get_displayed_tasks().len(), 3);
    app.handle_key(Key::Char('/'));
    app.handle_key(Key::Esc);
    assert_eq!(app.mode, AppMode::Normal);
}

#[test]
fn handle_key_with_takes_the_due_date_it_is_given() {
    let mut app = App::new(Vec::new());
    app.mode = AppMode::Insert;
    app.input = "gift".to_string();
    assert_eq!(app.handle_key_with(Key::Enter, Some("2031-12-24".to_string())), Action::Continue);
    assert_eq!(app.store.tasks[0].due_date, Some("2031-12-24".to_string()));
    assert_eq!(app.handle_key_with(Key::Char('q'), None), Action::SaveAndQuit);
}

#[test]
fn command_applies_a_key_of_normal_mode() {
    let mut app = app_of_three();
    app.command(Key::Down);
    assert_eq!(app.state.selected(), Some(1));
    app.command(Key::Char('a'));
    assert_eq!(app.mode, AppMode::Insert);
}

#[test]
fn try_add_task_commits_where_there_is_room() {
    let mut app = app_of_three();
    app.input = "fourth".to_string();
    assert!(app.try_add_task());
    assert_eq!(app_ids(&app), vec![1, 2, 3, 4]);
    assert_eq!(app.input, "");
}

#[test]
fn try_add_task_changes_nothing_when_the_numbers_are_used_up() {
    let mut app = App::new(vec![app_task(usize::MAX, "last")]);
    app.mode = AppMode::Insert;
    app.input = "one more".to_string();
    assert!(!app.try_add_task());
    assert_eq!(app_ids(&app), vec![usize::MAX]);
    assert_eq!(app.input, "one more");
    assert_eq!(app.mode, AppMode::Insert);
}

#[test]
fn try_handle_key_gives_no_action_when_the_numbers_are_used_up() {
    let mut app = App::new(vec![app_task(usize::MAX, "last")]);
    assert_eq!(app.try_handle_key(Key::Char('a')), Some(Action::Continue));
    assert_eq!(app.try_handle_key(Key::Char('x')), Some(Action::Continue));
    assert_eq!(app.try_handle_key(Key::Enter), None);
    assert_eq!(app.input, "x");
    assert_eq!(app.mode, AppMode::Insert);
    assert_eq!(app.try_handle_key(Key::Esc), Some(Action::Continue));
    assert_eq!(app.try_handle_key(Key::Char('q')), Some(Action::SaveAndQuit));
}
