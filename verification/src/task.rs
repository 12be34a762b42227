//! The task record the store works on.
//!
//! A task is modelled by the projections the core reads: its subject, its
//! priority as a number (0 for `A` up to 25 for `Z`, 26 for none), its
//! dates, whether it is finished, and its three tag collections.  Parsing a
//! todo.txt line is the collaborator parser's job and sits behind a trusted
//! wrapper.

use crate::ToDoError;
use std::str::FromStr;
use vstd::prelude::*;

verus! {

/// One of the three tag categories a task carries.
#[derive(PartialEq, Eq, Structural, Debug, Copy, Clone)]
pub enum ToDoCategory {
    Projects,
    Contexts,
    Hashtags,
}

/// Declares `todo_txt::Date` (chrono's calendar date) so that task records
/// can carry dates; the store never reads into them, it only moves them.
#[verifier::external_type_specification]
#[verifier::external_body]
pub struct ExDate(todo_txt::Date);

/// A parsed task: the fields of the todo.txt record as plain values.
#[derive(Debug, PartialEq)]
pub struct Task {
    pub subject: String,
    pub priority: u8,
    pub create_date: Option<todo_txt::Date>,
    pub finish_date: Option<todo_txt::Date>,
    pub finished: bool,
    pub threshold_date: Option<todo_txt::Date>,
    pub due_date: Option<todo_txt::Date>,
    pub contexts: Vec<String>,
    pub projects: Vec<String>,
    pub hashtags: Vec<String>,
}

/// The mathematical value of a task: strings as character sequences.
#[verifier::ext_equal]
pub struct TaskView {
    pub subject: Seq<char>,
    pub priority: u8,
    pub create_date: Option<todo_txt::Date>,
    pub finish_date: Option<todo_txt::Date>,
    pub finished: bool,
    pub threshold_date: Option<todo_txt::Date>,
    pub due_date: Option<todo_txt::Date>,
    pub contexts: Seq<Seq<char>>,
    pub projects: Seq<Seq<char>>,
    pub hashtags: Seq<Seq<char>>,
}

impl View for Task {
    type V = TaskView;

    open spec fn view(&self) -> TaskView {
        TaskView {
            subject: self.subject@,
            priority: self.priority,
            create_date: self.create_date,
            finish_date: self.finish_date,
            finished: self.finished,
            threshold_date: self.threshold_date,
            due_date: self.due_date,
            contexts: self.contexts.deep_view(),
            projects: self.projects.deep_view(),
            hashtags: self.hashtags.deep_view(),
        }
    }
}

impl DeepView for Task {
    type V = TaskView;

    open spec fn deep_view(&self) -> TaskView {
        self.view()
    }
}

impl TaskView {
    /// The tag collection of one category.
    pub open spec fn tags(self, category: ToDoCategory) -> Seq<Seq<char>> {
        match category {
            ToDoCategory::Projects => self.projects,
            ToDoCategory::Contexts => self.contexts,
            ToDoCategory::Hashtags => self.hashtags,
        }
    }

    /// Whether the task carries tag `name` in `category`.
    pub open spec fn has_tag(self, category: ToDoCategory, name: Seq<char>) -> bool {
        self.tags(category).contains(name)
    }
}

impl Task {
    /// An equal copy of the task, usable wherever a view is borrowed.
    pub fn duplicate(&self) -> (r: Task)
        ensures
            r@ == self@,
    {
        let r = Task {
            subject: self.subject.clone(),
            priority: self.priority,
            create_date: self.create_date,
            finish_date: self.finish_date,
            finished: self.finished,
            threshold_date: self.threshold_date,
            due_date: self.due_date,
            contexts: clone_tags(&self.contexts),
            projects: clone_tags(&self.projects),
            hashtags: clone_tags(&self.hashtags),
        };
        assert(r@ =~= self@);
        r
    }

    /// The tag collection of one category, borrowed.
    pub fn tags(&self, category: ToDoCategory) -> (r: &Vec<String>)
        ensures
            r.deep_view() == self@.tags(category),
    {
        match category {
            ToDoCategory::Projects => &self.projects,
            ToDoCategory::Contexts => &self.contexts,
            ToDoCategory::Hashtags => &self.hashtags,
        }
    }
}

/// An equal copy of a tag list.
pub(crate) fn clone_tags(tags: &Vec<String>) -> (r: Vec<String>)
    ensures
        r.deep_view() == tags.deep_view(),
{
    let mut r: Vec<String> = Vec::new();
    let mut i: usize = 0;
    while i < tags.len()
        invariant
            i <= tags@.len(),
            r@.len() == i,
            forall|j: int| 0 <= j < i ==> r@[j]@ == tags@[j]@,
        decreases tags@.len() - i,
    {
        r.push(tags[i].clone());
        i += 1;
    }
    proof {
        assert(r.deep_view() =~= tags.deep_view());
    }
    r
}

/// The task value the collaborator parser reads out of a line.  The parse
/// is a function of the line alone (fixed grammar, no clock and no
/// environment), so the result carries a name that contracts can share;
/// what the name is on a given line only the parser itself answers.
pub uninterp spec fn parsed_task(s: Seq<char>) -> TaskView;

/// Relies on `todo_txt::Task::from_str`, which parses any line into a task
/// record (its parser is total, so the call always returns `Ok`), with the
/// tag collections sorted and deduplicated.  The body only moves the parsed
/// fields into the library's record.
#[verifier::external_body]
pub fn parse_task(text: &str) -> (r: Result<Task, ToDoError>)
    ensures
        r is Ok,
        r matches Ok(t) ==> t@ == parsed_task(text@),
{
    match todo_txt::Task::from_str(text) {
        Ok(t) => Ok(Task {
            subject: t.subject.clone(), priority: t.priority.clone().into(),
            create_date: t.create_date, finish_date: t.finish_date,
            finished: t.finished, threshold_date: t.threshold_date,
            due_date: t.due_date, contexts: t.contexts().to_vec(),
            projects: t.projects().to_vec(), hashtags: t.hashtags.clone(),
        }),
        Err(_) => Err(ToDoError::ParseFailure),
    }
}

} // verus!
