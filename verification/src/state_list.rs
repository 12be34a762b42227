//! The controller behind a task-list pane: it owns the pane's selection
//! and turns one abstract input action into one store mutation and one
//! selection move.
//!
//! The key-decoding layer around the library maps raw key input to a
//! `ListAction` and hands it here.

use crate::todo::{filtered_entries, ToDo, ToDoData};
use vstd::prelude::*;

verus! {

/// An abstract input action on a task-list pane.
#[derive(PartialEq, Eq, Structural, Debug, Copy, Clone)]
pub enum ListAction {
    /// Move the selection down one row of the filtered view.
    CursorDown,
    /// Move the selection up one row.
    CursorUp,
    /// Swap the selected task with the one above it and follow it up.
    SwapUp,
    /// Swap the task below the selection with the selected one and follow
    /// it down.
    SwapDown,
    /// Remove the selected task.
    RemoveTask,
    /// Move the selected task to the other sequence.
    MoveTask,
}

/// The length of the filtered view of one sequence.
pub open spec fn spec_filtered_len(todo: ToDo, data: ToDoData) -> int {
    match data {
        ToDoData::Pending => filtered_entries(
            todo.pending.deep_view(),
            todo.project_filters@,
            todo.context_filters@,
            todo.hashtag_filters@,
            todo.pending.deep_view().len() as int,
        ).len() as int,
        ToDoData::Done => filtered_entries(
            todo.done.deep_view(),
            todo.project_filters@,
            todo.context_filters@,
            todo.hashtag_filters@,
            todo.done.deep_view().len() as int,
        ).len() as int,
    }
}

/// The row the selection lands on after the list shrank to `len` tasks:
/// it stays where it was, or moves to the new last row when it would fall
/// past the end.
pub open spec fn clipped_selection(selection: int, len: int) -> int {
    if len <= selection {
        len - 1
    } else {
        selection
    }
}

/// A list pane: which sequence it shows and which row is selected.
pub struct StateList {
    pub selection: usize,
    pub data_type: ToDoData,
}

impl StateList {
    pub fn new(data_type: ToDoData) -> (r: StateList)
        ensures
            r.selection == 0,
            r.data_type == data_type,
    {
        StateList { selection: 0, data_type }
    }

    /// Applies one input action to the store and the selection.
    ///
    /// The cursor moves within the filtered view; swaps, removals and
    /// moves address the backing sequence by the selected index.  An
    /// action whose index falls outside the backing sequence leaves the
    /// store unchanged.  Removing or moving away the only task of the
    /// sequence is left out: there the selection adjustment has no row
    /// left to land on.
    pub fn handle_key(&mut self, todo: &mut ToDo, action: ListAction)
        requires
            old(self).selection < usize::MAX,
            action == ListAction::RemoveTask ==> !(old(todo).spec_list(old(self).data_type).len()
                == 1 && old(self).selection == 0),
            action == ListAction::MoveTask ==> old(todo).spec_list(old(self).data_type).len() >= 2
                || (old(todo).spec_list(old(self).data_type).len() == 1 && old(self).selection
                > 0),
        ensures
            final(self).data_type == old(self).data_type,
            old(todo).same_but_tasks(*final(todo)),
            match action {
                ListAction::CursorDown => {
                    &&& *final(todo) == *old(todo)
                    &&& final(self).selection == if old(self).selection + 1 < spec_filtered_len(
                        *old(todo),
                        old(self).data_type,
                    ) {
                        old(self).selection + 1
                    } else {
                        old(self).selection as int
                    }
                },
                ListAction::CursorUp => {
                    &&& *final(todo) == *old(todo)
                    &&& final(self).selection == if old(self).selection > 0 {
                        old(self).selection - 1
                    } else {
                        0
                    }
                },
                ListAction::SwapUp => {
                    if 0 < old(self).selection < old(todo).spec_list(old(self).data_type).len() {
                        let list = old(todo).spec_list(old(self).data_type);
                        &&& final(todo).spec_list(old(self).data_type) == list.update(
                            old(self).selection as int,
                            list[old(self).selection - 1],
                        ).update(old(self).selection - 1, list[old(self).selection as int])
                        &&& final(todo).spec_list(old(self).data_type.other()) == old(
                            todo,
                        ).spec_list(old(self).data_type.other())
                        &&& final(self).selection == old(self).selection - 1
                    } else {
                        *final(todo) == *old(todo) && final(self).selection == old(self).selection
                    }
                },
                ListAction::SwapDown => {
                    if old(self).selection + 1 < old(todo).spec_list(old(self).data_type).len() {
                        let list = old(todo).spec_list(old(self).data_type);
                        &&& final(todo).spec_list(old(self).data_type) == list.update(
                            old(self).selection + 1,
                            list[old(self).selection as int],
                        ).update(old(self).selection as int, list[old(self).selection + 1])
                        &&& final(todo).spec_list(old(self).data_type.other()) == old(
                            todo,
                        ).spec_list(old(self).data_type.other())
                        &&& final(self).selection == old(self).selection + 1
                    } else {
                        *final(todo) == *old(todo) && final(self).selection == old(self).selection
                    }
                },
                ListAction::RemoveTask => {
                    if old(self).selection < old(todo).spec_list(old(self).data_type).len() {
                        &&& final(todo).spec_list(old(self).data_type) == old(todo).spec_list(
                            old(self).data_type,
                        ).remove(old(self).selection as int)
                        &&& final(todo).spec_list(old(self).data_type.other()) == old(
                            todo,
                        ).spec_list(old(self).data_type.other())
                        &&& final(self).selection == clipped_selection(
                            old(self).selection as int,
                            old(todo).spec_list(old(self).data_type).len() - 1,
                        )
                    } else {
                        *final(todo) == *old(todo) && final(self).selection == old(self).selection
                    }
                },
                ListAction::MoveTask => {
                    let list = old(todo).spec_list(old(self).data_type);
                    let other = old(self).data_type.other();
                    &&& if old(self).selection < list.len() {
                        final(todo).spec_list(old(self).data_type) == list.remove(
                            old(self).selection as int,
                        ) && final(todo).spec_list(other) == old(todo).spec_list(other).push(
                            list[old(self).selection as int],
                        )
                    } else {
                        *final(todo) == *old(todo)
                    }
                    &&& final(self).selection == clipped_selection(
                        old(self).selection as int,
                        final(todo).spec_list(old(self).data_type).len() as int,
                    )
                },
            },
    {
        match action {
            ListAction::CursorDown => {
                let act = self.selection + 1;
                let len = match self.data_type {
                    ToDoData::Pending => todo.get_pending_filtered().len(),
                    ToDoData::Done => todo.get_done_filtered().len(),
                };
                if len > act {
                    self.selection = act;
                }
            },
            ListAction::CursorUp => {
                if self.selection > 0 {
                    self.selection = self.selection - 1;
                }
            },
            ListAction::SwapUp => {
                if self.selection > 0 {
                    let r = todo.swap_tasks(self.data_type, self.selection, self.selection - 1);
                    if r.is_ok() {
                        self.selection = self.selection - 1;
                    }
                }
            },
            ListAction::SwapDown => {
                let act = self.selection + 1;
                let len = match self.data_type {
                    ToDoData::Pending => todo.pending.len(),
                    ToDoData::Done => todo.done.len(),
                };
                if act < len {
                    let _ = todo.swap_tasks(self.data_type, act, act - 1);
                    self.selection = act;
                }
            },
            ListAction::RemoveTask => {
                let r = todo.remove_task(self.data_type, self.selection);
                if r.is_ok() {
                    let len = match self.data_type {
                        ToDoData::Pending => todo.pending.len(),
                        ToDoData::Done => todo.done.len(),
                    };
                    if len <= self.selection {
                        self.selection = len - 1;
                    }
                }
            },
            ListAction::MoveTask => {
                match self.data_type {
                    ToDoData::Pending => todo.move_pending_task(self.selection),
                    ToDoData::Done => todo.move_done_task(self.selection),
                }
                let len = match self.data_type {
                    ToDoData::Pending => todo.pending.len(),
                    ToDoData::Done => todo.done.len(),
                };
                if len <= self.selection {
                    self.selection = len - 1;
                }
            },
        }
    }
}

} // verus!
