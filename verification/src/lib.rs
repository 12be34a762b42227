//! Verified core of a terminal todo.txt task manager.
//!
//! The crate holds the in-memory task store with per-dimension tag filtering,
//! the windowed list navigator that maps a logical selection into a bounded
//! scrollable viewport, and the small markup-template parser for custom
//! status lines.  Terminal rendering and key decoding live outside, around
//! this library.

use vstd::prelude::*;

pub mod lex;
pub mod parser;
pub mod state_list;
pub mod task;
pub mod todo;
pub mod widget_list;

pub use parser::{Line, LineBlock, Parser};
pub use state_list::{ListAction, StateList};
pub use task::{Task, ToDoCategory};
pub use todo::{CategoryList, FilterSet, TaskList, ToDo, ToDoData};
pub use widget_list::{UIEvent, WidgetList, WidgetType};

verus! {

/// The error a store operation reports.
#[derive(PartialEq, Eq, Structural, Debug, Copy, Clone)]
pub enum ToDoError {
    /// An index addressed past the end of a task sequence.
    OutOfRange,
    /// The collaborator parser rejected a task line.
    ParseFailure,
}

} // verus!
