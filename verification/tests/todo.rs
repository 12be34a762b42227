use todo_tui::todo::{FilterSet, ToDo, ToDoData};
use todo_tui::{ToDoCategory, ToDoError};

const TESTING_STRING: &str = r#"
        x (A) 2023-05-21 2023-04-30 measure space for 1 +project1 @context1 #hashtag1 due:2023-06-30
                         2023-04-30 measure space for 2 +project2 @context2           due:2023-06-30
                     (C) 2023-04-30 measure space for 3 +project3 @context3           due:2023-06-30
                                    measure space for 4 +project2 @context3 #hashtag1 due:2023-06-30
                                  x measure space for 5 +project3 @context3 #hashtag2 due:2023-06-30
                                    measure space for 6 +project3 @context2 #hashtag2 due:2023-06-30
        "#;

fn example_todo(use_done: bool) -> ToDo {
    let mut todo = ToDo::new(use_done);
    for line in TESTING_STRING.lines() {
        let line = line.trim();
        if !line.is_empty() {
            todo.new_task(line).unwrap();
        }
    }
    todo
}

#[test]
fn test_add_task() {
    let todo = example_todo(true);

    assert_eq!(todo.done.len(), 2);
    assert_eq!(todo.pending.len(), 4);

    assert_eq!(todo.done[0].priority, 0);
    assert!(todo.done[0].create_date.is_some());
    assert!(todo.done[0].finish_date.is_some());
    assert!(todo.done[0].finished);
    assert_eq!(todo.done[0].threshold_date, None);
    assert!(todo.done[0].due_date.is_some());
    assert_eq!(todo.done[0].contexts.len(), 1);
    assert_eq!(todo.done[0].projects.len(), 1);
    assert_eq!(todo.done[0].hashtags.len(), 1);

    println!("{:#?}", todo.pending[0]);

    assert_eq!(todo.pending[0].priority, 26);
    assert!(todo.pending[0].create_date.is_some());
    assert!(todo.pending[0].finish_date.is_none());
    assert!(!todo.pending[0].finished);
    assert_eq!(todo.pending[0].threshold_date, None);
    assert!(todo.pending[0].due_date.is_some());
    assert_eq!(todo.pending[0].contexts.len(), 1);
    assert_eq!(todo.pending[0].projects.len(), 1);
    assert_eq!(todo.pending[0].hashtags.len(), 0);

    assert_eq!(todo.pending[1].priority, 2);
    assert!(todo.pending[1].create_date.is_some());
    assert!(todo.pending[1].finish_date.is_none());
    assert!(!todo.pending[1].finished);
    assert_eq!(todo.pending[1].threshold_date, None);
    assert!(todo.pending[1].due_date.is_some());
    assert_eq!(todo.pending[1].contexts.len(), 1);
    assert_eq!(todo.pending[1].projects.len(), 1);
    assert_eq!(todo.pending[1].hashtags.len(), 0);
}

fn create_vec(items: &[&str]) -> Vec<(String, bool)> {
    items.iter().map(|item| (item.to_string(), false)).collect()
}

#[test]
fn test_categeries_list() {
    let mut todo = example_todo(false);
    assert_eq!(todo.get_projects().0, create_vec(&["project2", "project3"]));
    assert_eq!(todo.get_contexts().0, create_vec(&["context2", "context3"]));
    assert_eq!(todo.get_hashtags().0, create_vec(&["hashtag1", "hashtag2"]));

    todo.use_done = true;
    assert_eq!(
        todo.get_projects().0,
        create_vec(&["project1", "project2", "project3"])
    );
    assert_eq!(
        todo.get_contexts().0,
        create_vec(&["context1", "context2", "context3"])
    );
    assert_eq!(todo.get_hashtags().0, create_vec(&["hashtag1", "hashtag2"]));
}

#[test]
fn test_tasks_in_category() {
    let mut todo = example_todo(false);
    assert_eq!(todo.get_project_tasks("project1").len(), 0);
    assert_eq!(todo.get_project_tasks("project2").len(), 2);
    assert_eq!(todo.get_project_tasks("project3").len(), 2);
    assert_eq!(todo.get_context_tasks("context1").len(), 0);
    assert_eq!(todo.get_context_tasks("context2").len(), 2);
    assert_eq!(todo.get_context_tasks("context3").len(), 2);
    assert_eq!(todo.get_hashtag_tasks("hashtag1").len(), 1);
    assert_eq!(todo.get_hashtag_tasks("hashtag2").len(), 1);

    todo.use_done = true;
    assert_eq!(todo.get_project_tasks("project1").len(), 1);
    assert_eq!(todo.get_project_tasks("project2").len(), 2);
    assert_eq!(todo.get_project_tasks("project3").len(), 3);
    assert_eq!(todo.get_context_tasks("context1").len(), 1);
    assert_eq!(todo.get_context_tasks("context2").len(), 2);
    assert_eq!(todo.get_context_tasks("context3").len(), 3);
    assert_eq!(todo.get_hashtag_tasks("hashtag1").len(), 2);
    assert_eq!(todo.get_hashtag_tasks("hashtag2").len(), 2);
}

// Toggling a filter name twice restores the filter set.
#[test]
fn toggle_twice_restores_filter() {
    let mut filters = FilterSet::new();
    assert!(!filters.contains("project1"));

    ToDo::toggle_filter(&mut filters, "project1");
    assert!(filters.contains("project1"));

    ToDo::toggle_filter(&mut filters, "project1");
    assert!(!filters.contains("project1"));
}

// Toggling a project on and then off leaves the filtered pending view
// equal to the unfiltered one.
#[test]
fn toggle_on_off_filtered_equals_all() {
    let mut todo = example_todo(false);

    todo.toggle_category_filter(ToDoCategory::Projects, "project2");
    assert_eq!(todo.get_pending_filtered().0.len(), 2);

    todo.toggle_category_filter(ToDoCategory::Projects, "project2");
    assert_eq!(todo.get_pending_filtered(), todo.get_pending_all());
}

// The filtered view keeps original order and original indices, and a task
// passes exactly when it carries every active filter of every dimension.
#[test]
fn filtered_view_keeps_indices() {
    let mut todo = ToDo::new(false);
    todo.new_task("task 1").unwrap();
    todo.new_task("task 2 +project1").unwrap();
    todo.new_task("task 3 +project1 +project2").unwrap();
    todo.new_task("task 4 +project2 @context1").unwrap();
    todo.new_task("task 5 +project1 +project2 @context1").unwrap();

    todo.toggle_category_filter(ToDoCategory::Projects, "project1");
    todo.toggle_category_filter(ToDoCategory::Projects, "project2");
    let filtered = todo.get_pending_filtered();
    let indices: Vec<usize> = filtered.0.iter().map(|p| p.0).collect();
    assert_eq!(indices, vec![2, 4]);
    assert_eq!(filtered.0[0].1.subject, "task 3 +project1 +project2");

    todo.toggle_category_filter(ToDoCategory::Contexts, "context1");
    let filtered = todo.get_pending_filtered();
    let indices: Vec<usize> = filtered.0.iter().map(|p| p.0).collect();
    assert_eq!(indices, vec![4]);
}

// The category index is sorted and deduplicated: tag occurrences
// b, a, b, c come out as a, b, c.
#[test]
fn categories_sorted_and_deduplicated() {
    let mut todo = ToDo::new(false);
    todo.new_task("one +b").unwrap();
    todo.new_task("two +a").unwrap();
    todo.new_task("three +b").unwrap();
    todo.new_task("four +c").unwrap();

    assert_eq!(todo.get_projects().0, create_vec(&["a", "b", "c"]));
}

// The selected flag of a category entry follows the filter set.
#[test]
fn categories_flag_selected() {
    let mut todo = ToDo::new(false);
    todo.new_task("one +a +b").unwrap();
    todo.toggle_category_filter(ToDoCategory::Projects, "b");

    assert_eq!(
        todo.get_projects().0,
        vec![("a".to_string(), false), ("b".to_string(), true)]
    );
}

// An out-of-range move is a silent no-op, while an out-of-range remove is
// reported: the two policies differ by design.
#[test]
fn move_and_remove_out_of_range() {
    let mut todo = ToDo::new(false);
    todo.new_task("task 1").unwrap();
    todo.new_task("task 2").unwrap();
    todo.new_task("task 3").unwrap();
    assert_eq!(todo.pending.len(), 3);

    todo.move_pending_task(5);
    assert_eq!(todo.pending.len(), 3);
    assert_eq!(todo.done.len(), 0);

    assert_eq!(todo.remove_pending_task(5), Err(ToDoError::OutOfRange));
    assert_eq!(todo.pending.len(), 3);

    assert_eq!(todo.finish_task(5), Err(ToDoError::OutOfRange));
    assert_eq!(todo.swap_tasks(ToDoData::Pending, 0, 5), Err(ToDoError::OutOfRange));

    assert_eq!(todo.remove_pending_task(1), Ok(()));
    assert_eq!(todo.pending.len(), 2);
}

#[test]
fn finish_and_move_back() {
    let mut todo = ToDo::new(false);
    todo.new_task("task 1").unwrap();
    todo.new_task("task 2").unwrap();

    assert_eq!(todo.finish_task(0), Ok(()));
    assert_eq!(todo.pending.len(), 1);
    assert_eq!(todo.done.len(), 1);
    assert_eq!(todo.done[0].subject, "task 1");

    todo.move_done_task(0);
    assert_eq!(todo.pending.len(), 2);
    assert_eq!(todo.done.len(), 0);
    assert_eq!(todo.pending[1].subject, "task 1");
}

#[test]
fn swap_tasks_reorders() {
    let mut todo = ToDo::new(false);
    todo.new_task("task 1").unwrap();
    todo.new_task("task 2").unwrap();
    todo.new_task("task 3").unwrap();

    assert_eq!(todo.swap_tasks(ToDoData::Pending, 0, 2), Ok(()));
    assert_eq!(todo.pending[0].subject, "task 3");
    assert_eq!(todo.pending[1].subject, "task 2");
    assert_eq!(todo.pending[2].subject, "task 1");
}

// A fresh store answers every query with an empty view.
#[test]
fn empty_store_queries() {
    let todo = ToDo::new(true);
    assert_eq!(todo.get_pending_filtered().0.len(), 0);
    assert_eq!(todo.get_done_all().0.len(), 0);
    assert_eq!(todo.get_projects().0, Vec::new());
    assert_eq!(todo.get_project_tasks("anything").len(), 0);
}
