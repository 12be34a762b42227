use todo_tui::state_list::{ListAction, StateList};
use todo_tui::todo::{ToDo, ToDoData};
use todo_tui::ToDoCategory;

fn sample_todo() -> ToDo {
    let mut todo = ToDo::new(false);
    todo.new_task("task 1 +keep").unwrap();
    todo.new_task("task 2").unwrap();
    todo.new_task("task 3 +keep").unwrap();
    todo
}

#[test]
fn cursor_moves_inside_filtered_view() {
    let mut todo = sample_todo();
    let mut pane = StateList::new(ToDoData::Pending);

    pane.handle_key(&mut todo, ListAction::CursorDown);
    assert_eq!(pane.selection, 1);
    pane.handle_key(&mut todo, ListAction::CursorDown);
    assert_eq!(pane.selection, 2);
    // The filtered view has three rows: the cursor stops at the last.
    pane.handle_key(&mut todo, ListAction::CursorDown);
    assert_eq!(pane.selection, 2);

    pane.handle_key(&mut todo, ListAction::CursorUp);
    assert_eq!(pane.selection, 1);

    // With a filter on, only two rows are shown and the cursor obeys that.
    todo.toggle_category_filter(ToDoCategory::Projects, "keep");
    pane.handle_key(&mut todo, ListAction::CursorDown);
    assert_eq!(pane.selection, 1);
}

#[test]
fn swap_follows_the_task() {
    let mut todo = sample_todo();
    let mut pane = StateList::new(ToDoData::Pending);

    // Swapping up from the top row changes nothing.
    pane.handle_key(&mut todo, ListAction::SwapUp);
    assert_eq!(pane.selection, 0);
    assert_eq!(todo.pending[0].subject, "task 1 +keep");

    pane.handle_key(&mut todo, ListAction::SwapDown);
    assert_eq!(pane.selection, 1);
    assert_eq!(todo.pending[0].subject, "task 2");
    assert_eq!(todo.pending[1].subject, "task 1 +keep");

    pane.handle_key(&mut todo, ListAction::SwapUp);
    assert_eq!(pane.selection, 0);
    assert_eq!(todo.pending[0].subject, "task 1 +keep");
    assert_eq!(todo.pending[1].subject, "task 2");
}

#[test]
fn remove_clips_the_selection() {
    let mut todo = sample_todo();
    let mut pane = StateList::new(ToDoData::Pending);
    pane.handle_key(&mut todo, ListAction::CursorDown);
    pane.handle_key(&mut todo, ListAction::CursorDown);
    assert_eq!(pane.selection, 2);

    pane.handle_key(&mut todo, ListAction::RemoveTask);
    assert_eq!(todo.pending.len(), 2);
    assert_eq!(pane.selection, 1);

    pane.handle_key(&mut todo, ListAction::RemoveTask);
    assert_eq!(todo.pending.len(), 1);
    assert_eq!(pane.selection, 0);
}

#[test]
fn remove_on_empty_list_changes_nothing() {
    let mut todo = ToDo::new(false);
    let mut pane = StateList::new(ToDoData::Pending);
    pane.handle_key(&mut todo, ListAction::RemoveTask);
    assert_eq!(todo.pending.len(), 0);
    assert_eq!(pane.selection, 0);
}

#[test]
fn move_sends_the_task_over() {
    let mut todo = sample_todo();
    let mut pane = StateList::new(ToDoData::Pending);

    pane.handle_key(&mut todo, ListAction::MoveTask);
    assert_eq!(todo.pending.len(), 2);
    assert_eq!(todo.done.len(), 1);
    assert_eq!(todo.done[0].subject, "task 1 +keep");
    assert_eq!(pane.selection, 0);
}
