use todo_list::filter::{
    displayed, priority_keyword, status_keyword, sub_task_has, sub_tasks_have, tags_have,
    task_has, text_has,
};
use todo_list::store::TaskStore;
use todo_list::task::{Priority, SubTask, Task};

fn filter_task(id: usize, description: &str, priority: Priority, completed: bool) -> Task {
    Task {
        id,
        description: description.to_string(),
        completed,
        priority,
        due_date: None,
        tags: Vec::new(),
        sub_tasks: Vec::new(),
    }
}

fn rent_and_book() -> TaskStore {
    TaskStore {
        tasks: vec![
            filter_task(1, "Pay rent", Priority::High, false),
            filter_task(2, "Read book", Priority::Low, true),
        ],
    }
}

fn shown_ids(store: &TaskStore, query: &str) -> Vec<usize> {
    displayed(store, query).iter().map(|t| t.id).collect()
}

#[test]
fn the_empty_query_shows_the_whole_store_in_order() {
    let store = rent_and_book();
    let all = displayed(&store, "");
    assert_eq!(all.len(), 2);
    assert_eq!(all[0].id, 1);
    assert_eq!(all[0].description, "Pay rent");
    assert_eq!(all[1].id, 2);
    assert_eq!(all[1].description, "Read book");
    assert!(all[1].completed);
}

#[test]
fn the_same_query_shows_the_same_tasks_twice() {
    let store = rent_and_book();
    assert_eq!(shown_ids(&store, "r"), shown_ids(&store, "r"));
    assert_eq!(shown_ids(&store, "r"), vec![1, 2]);
}

#[test]
fn a_priority_keyword_shows_the_tasks_of_that_priority() {
    let store = rent_and_book();
    assert_eq!(shown_ids(&store, "high"), vec![1]);
    assert_eq!(shown_ids(&store, "low"), vec![2]);
    assert_eq!(shown_ids(&store, "medium"), Vec::<usize>::new());
}

#[test]
fn a_status_keyword_shows_the_tasks_in_that_state() {
    let store = rent_and_book();
    assert_eq!(shown_ids(&store, "done"), vec![2]);
    assert_eq!(shown_ids(&store, "todo"), vec![1]);
}

#[test]
fn a_part_of_the_description_shows_the_task() {
    let store = rent_and_book();
    assert_eq!(shown_ids(&store, "rent"), vec![1]);
    assert_eq!(shown_ids(&store, "book"), vec![2]);
    assert_eq!(shown_ids(&store, "nothing"), Vec::<usize>::new());
}

#[test]
fn the_search_ignores_case_on_both_sides() {
    let store = rent_and_book();
    assert_eq!(shown_ids(&store, "RENT"), vec![1]);
    assert_eq!(shown_ids(&store, "pay"), vec![1]);
    assert_eq!(shown_ids(&store, "HIGH"), vec![1]);
    assert_eq!(shown_ids(&store, "Done"), vec![2]);
}

#[test]
fn a_one_letter_keyword_names_a_priority() {
    let store = rent_and_book();
    assert_eq!(shown_ids(&store, "h"), vec![1]);
    assert_eq!(shown_ids(&store, "l"), vec![2]);
    assert_eq!(shown_ids(&store, "m"), Vec::<usize>::new());
}

#[test]
fn every_keyword_is_known() {
    assert_eq!(priority_keyword("high"), Some(Priority::High));
    assert_eq!(priority_keyword("h"), Some(Priority::High));
    assert_eq!(priority_keyword("medium"), Some(Priority::Medium));
    assert_eq!(priority_keyword("med"), Some(Priority::Medium));
    assert_eq!(priority_keyword("m"), Some(Priority::Medium));
    assert_eq!(priority_keyword("low"), Some(Priority::Low));
    assert_eq!(priority_keyword("l"), Some(Priority::Low));
    assert_eq!(priority_keyword("hi"), None);
    assert_eq!(priority_keyword("High"), None);
    assert_eq!(priority_keyword(""), None);
    assert_eq!(status_keyword("completed"), Some(true));
    assert_eq!(status_keyword("done"), Some(true));
    assert_eq!(status_keyword("finished"), Some(true));
    assert_eq!(status_keyword("incomplete"), Some(false));
    assert_eq!(status_keyword("pending"), Some(false));
    assert_eq!(status_keyword("todo"), Some(false));
    assert_eq!(status_keyword("complete"), None);
}

#[test]
fn a_tag_shows_the_task() {
    let mut store = TaskStore::new();
    store.add("call #Family".to_string(), Priority::Medium, None);
    store.add("mail #work".to_string(), Priority::Medium, None);
    assert_eq!(shown_ids(&store, "#family"), vec![1]);
    assert!(tags_have(&store.tasks[0].tags, "fam"));
    assert!(!tags_have(&store.tasks[0].tags, "call"));
    assert!(!tags_have(&Vec::new(), ""));
}

#[test]
fn a_due_date_shows_the_task_as_it_is_written() {
    let mut store = rent_and_book();
    store.set_due_date(1, "2030-01-15".to_string());
    store.set_due_date(2, "Friday".to_string());
    assert_eq!(shown_ids(&store, "2030-01"), vec![1]);
    assert_eq!(shown_ids(&store, "friday"), Vec::<usize>::new());
}

#[test]
fn a_matching_subtask_shows_its_parent_whole() {
    let mut store = rent_and_book();
    assert_eq!(store.add_subtask(2, "Chapter One #Novel".to_string(), None), Ok(1));
    let by_text = displayed(&store, "chapter");
    assert_eq!(by_text.len(), 1);
    assert_eq!(by_text[0].id, 2);
    assert_eq!(by_text[0].sub_tasks.len(), 1);
    assert_eq!(shown_ids(&store, "#novel"), vec![2]);
    assert!(sub_tasks_have(&store.tasks[1].sub_tasks, "one"));
    assert!(!sub_tasks_have(&store.tasks[0].sub_tasks, "one"));
}

#[test]
fn a_subtask_matches_by_text_and_tags_only() {
    let sub = SubTask {
        id: 1,
        description: "Water plants".to_string(),
        completed: true,
        priority: Priority::High,
        due_date: Some("2030-05-05".to_string()),
        tags: vec!["#Garden".to_string()],
    };
    assert!(sub_task_has(&sub, "water"));
    assert!(sub_task_has(&sub, "garden"));
    assert!(!sub_task_has(&sub, "high"));
    assert!(!sub_task_has(&sub, "done"));
    assert!(!sub_task_has(&sub, "2030"));
}

#[test]
fn a_task_matches_by_each_of_its_parts() {
    let mut task = filter_task(1, "Pay Rent", Priority::High, false);
    task.tags = vec!["#Home".to_string()];
    task.due_date = Some("2030-01-15".to_string());
    assert!(task_has(&task, "rent"));
    assert!(task_has(&task, "#home"));
    assert!(task_has(&task, "high"));
    assert!(task_has(&task, "pending"));
    assert!(task_has(&task, "01-15"));
    assert!(!task_has(&task, "low"));
    assert!(!task_has(&task, "done"));
    assert!(!task_has(&task, "Rent"));
    assert!(text_has("Pay Rent", "pay rent"));
    assert!(!text_has("Pay Rent", "Pay"));
}

#[test]
fn the_tasks_shown_keep_the_order_of_the_store() {
    let store = TaskStore {
        tasks: vec![
            filter_task(3, "beta one", Priority::Low, false),
            filter_task(1, "alpha", Priority::Low, false),
            filter_task(2, "beta two", Priority::Low, false),
        ],
    };
    assert_eq!(shown_ids(&store, "beta"), vec![3, 2]);
    assert_eq!(shown_ids(&store, "low"), vec![3, 1, 2]);
}
