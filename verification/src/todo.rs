//! The in-memory task store: two ordered task sequences and one filter set
//! per tag dimension.
//!
//! The order of `pending` and `done` is user-meaningful manual ranking and
//! is never sorted by the store; mutations address tasks by absolute index.

use crate::lex::{lemma_lex_lt_asymmetric, lemma_lex_lt_trichotomy, lex_lt, str_eq, str_lt};
use crate::task::{clone_tags, parse_task, parsed_task, Task, TaskView, ToDoCategory};
use crate::ToDoError;
use vstd::prelude::*;

verus! {

/// Which of the store's two task sequences an operation addresses.
#[derive(PartialEq, Eq, Structural, Debug, Copy, Clone)]
pub enum ToDoData {
    Pending,
    Done,
}

impl ToDoData {
    /// The sequence a moved task lands in.
    pub open spec fn other(self) -> ToDoData {
        match self {
            ToDoData::Pending => ToDoData::Done,
            ToDoData::Done => ToDoData::Pending,
        }
    }
}

/// A set of active filter strings for one dimension; membership-only
/// semantics.
pub struct FilterSet {
    pub items: Vec<String>,
}

/// Toggling is an exclusive-or on membership: add the name if absent,
/// remove it if present.
pub open spec fn set_toggle(s: Set<Seq<char>>, name: Seq<char>) -> Set<Seq<char>> {
    if s.contains(name) {
        s.remove(name)
    } else {
        s.insert(name)
    }
}

/// Toggling the same name twice restores the original filter set.
pub proof fn lemma_toggle_twice(s: Set<Seq<char>>, name: Seq<char>)
    ensures
        set_toggle(set_toggle(s, name), name) == s,
{
    if s.contains(name) {
        assert(set_toggle(set_toggle(s, name), name) =~= s);
    } else {
        assert(set_toggle(set_toggle(s, name), name) =~= s);
    }
}

impl View for FilterSet {
    type V = Set<Seq<char>>;

    open spec fn view(&self) -> Set<Seq<char>> {
        Set::new(|name: Seq<char>| self.items.deep_view().contains(name))
    }
}

impl FilterSet {
    /// Each name is held at most once.
    pub open spec fn wf(self) -> bool {
        forall|i: int, j: int|
            0 <= i < j < self.items.deep_view().len() ==> self.items.deep_view()[i]
                != self.items.deep_view()[j]
    }

    pub fn new() -> (r: FilterSet)
        ensures
            r.wf(),
            r@ == Set::<Seq<char>>::empty(),
    {
        let r = FilterSet { items: Vec::new() };
        proof {
            assert(r@ =~= Set::<Seq<char>>::empty());
        }
        r
    }

    /// Whether `name` is an active filter.
    pub fn contains(&self, name: &str) -> (r: bool)
        ensures
            r == self@.contains(name@),
    {
        contains_str(&self.items, name)
    }

    /// Adds `name` if absent, removes it if present.
    pub fn toggle(&mut self, name: &str)
        requires
            old(self).wf(),
        ensures
            final(self).wf(),
            final(self)@ == set_toggle(old(self)@, name@),
    {
        let ghost old_dv = self.items.deep_view();
        match index_of(&self.items, name) {
            Some(i) => {
                self.items.remove(i);
                proof {
                    let new_dv = self.items.deep_view();
                    assert(new_dv =~= old_dv.remove(i as int));
                    assert forall|n: Seq<char>| #[trigger]
                        new_dv.contains(n) implies old_dv.contains(n) && n != name@ by {
                        let j = choose|j: int| 0 <= j < new_dv.len() && new_dv[j] == n;
                        if j < i {
                            assert(old_dv[j] == n);
                        } else {
                            assert(old_dv[j + 1] == n);
                        }
                    }
                    assert forall|n: Seq<char>|
                        old_dv.contains(n) && n != name@ implies #[trigger] new_dv.contains(
                        n,
                    ) by {
                        let k = choose|k: int| 0 <= k < old_dv.len() && old_dv[k] == n;
                        if k < i {
                            assert(new_dv[k] == n);
                        } else {
                            assert(new_dv[k - 1] == n);
                        }
                    }
                    assert(self@ =~= set_toggle(old(self)@, name@));
                }
            },
            None => {
                self.items.push(name.to_owned());
                proof {
                    let new_dv = self.items.deep_view();
                    assert(new_dv =~= old_dv.push(name@));
                    assert forall|n: Seq<char>| #[trigger]
                        new_dv.contains(n) implies old_dv.contains(n) || n == name@ by {
                        let j = choose|j: int| 0 <= j < new_dv.len() && new_dv[j] == n;
                        if j < old_dv.len() {
                            assert(old_dv[j] == n);
                        }
                    }
                    assert forall|n: Seq<char>|
                        old_dv.contains(n) implies #[trigger] new_dv.contains(n) by {
                        let k = choose|k: int| 0 <= k < old_dv.len() && old_dv[k] == n;
                        assert(new_dv[k] == n);
                    }
                    assert(new_dv[new_dv.len() - 1] == name@);
                    assert(self@ =~= set_toggle(old(self)@, name@));
                }
            },
        }
    }
}

/// Whether some entry of `items` holds the characters of `name`.
fn contains_str(items: &Vec<String>, name: &str) -> (r: bool)
    ensures
        r == items.deep_view().contains(name@),
{
    let mut i: usize = 0;
    while i < items.len()
        invariant
            i <= items@.len(),
            forall|j: int| 0 <= j < i ==> items.deep_view()[j] != name@,
        decreases items@.len() - i,
    {
        if str_eq(items[i].as_str(), name) {
            assert(items.deep_view()[i as int] == name@);
            return true;
        }
        i += 1;
    }
    false
}

/// The task store.
pub struct ToDo {
    pub pending: Vec<Task>,
    pub done: Vec<Task>,
    /// Whether queries over "all observed tasks" include the done sequence.
    pub use_done: bool,
    pub project_filters: FilterSet,
    pub context_filters: FilterSet,
    pub hashtag_filters: FilterSet,
}

impl ToDo {
    pub open spec fn wf(self) -> bool {
        &&& self.project_filters.wf()
        &&& self.context_filters.wf()
        &&& self.hashtag_filters.wf()
    }

    /// The active filter set of one dimension.
    pub open spec fn spec_filters(self, category: ToDoCategory) -> Set<Seq<char>> {
        match category {
            ToDoCategory::Projects => self.project_filters@,
            ToDoCategory::Contexts => self.context_filters@,
            ToDoCategory::Hashtags => self.hashtag_filters@,
        }
    }

    /// One task sequence of the store.
    pub open spec fn spec_list(self, data: ToDoData) -> Seq<Task> {
        match data {
            ToDoData::Pending => self.pending@,
            ToDoData::Done => self.done@,
        }
    }

    /// Everything but the two task sequences is unchanged.
    pub open spec fn same_but_tasks(self, other: ToDo) -> bool {
        &&& self.use_done == other.use_done
        &&& self.project_filters == other.project_filters
        &&& self.context_filters == other.context_filters
        &&& self.hashtag_filters == other.hashtag_filters
    }

    pub fn new(use_done: bool) -> (r: ToDo)
        ensures
            r.wf(),
            r.pending@ == Seq::<Task>::empty(),
            r.done@ == Seq::<Task>::empty(),
            r.use_done == use_done,
            r.project_filters@ == Set::<Seq<char>>::empty(),
            r.context_filters@ == Set::<Seq<char>>::empty(),
            r.hashtag_filters@ == Set::<Seq<char>>::empty(),
    {
        let r = ToDo {
            pending: Vec::new(),
            done: Vec::new(),
            use_done,
            project_filters: FilterSet::new(),
            context_filters: FilterSet::new(),
            hashtag_filters: FilterSet::new(),
        };
        proof {
            assert(r.pending@ =~= Seq::<Task>::empty());
            assert(r.done@ =~= Seq::<Task>::empty());
        }
        r
    }

    /// Appends the task to `done` if it is finished, else to `pending`.
    pub fn add_task(&mut self, task: Task)
        ensures
            old(self).same_but_tasks(*final(self)),
            task.finished ==> final(self).done@ == old(self).done@.push(task) && final(self).pending == old(self).pending,
            !task.finished ==> final(self).pending@ == old(self).pending@.push(task) && final(self).done == old(self).done,
    {
        if task.finished {
            self.done.push(task);
        } else {
            self.pending.push(task);
        }
    }

    /// Parses a task line through the collaborator parser and appends the
    /// parsed task as `add_task` does; a rejected line would leave the
    /// store unchanged, but the parser accepts every line.
    pub fn new_task(&mut self, task: &str) -> (r: Result<(), ToDoError>)
        ensures
            r is Ok,
            old(self).same_but_tasks(*final(self)),
            exists|t: Task|
                #[trigger] appended(*old(self), *final(self), t) && t@ == parsed_task(task@),
            r is Err ==> *final(self) == *old(self),
    {
        match parse_task(task) {
            Ok(t) => {
                self.add_task(t);
                proof {
                    assert(appended(*old(self), *self, t));
                }
                Ok(())
            },
            Err(e) => Err(e),
        }
    }

    /// Relocates the task at `index` from `from` to the end of `to`; a
    /// silent no-op when `index` is out of range.
    fn move_task(from: &mut Vec<Task>, to: &mut Vec<Task>, index: usize)
        ensures
            index < old(from)@.len() ==> final(from)@ == old(from)@.remove(index as int) && final(to)@ == old(to)@.push(old(from)@[index as int]),
            index >= old(from)@.len() ==> *final(from) == *old(from) && *final(to) == *old(to),
    {
        if from.len() <= index {
            return ;
        }
        let task = from.remove(index);
        to.push(task);
    }

    /// Moves the pending task at `index` to the end of `done`; a silent
    /// no-op when `index` is out of range.
    pub fn move_pending_task(&mut self, index: usize)
        ensures
            old(self).same_but_tasks(*final(self)),
            index < old(self).pending@.len() ==> final(self).pending@ == old(self).pending@.remove(index as int) && final(self).done@ == old(self).done@.push(
                old(self).pending@[index as int],
            ),
            index >= old(self).pending@.len() ==> final(self).pending == old(self).pending && final(self).done == old(self).done,
    {
        Self::move_task(&mut self.pending, &mut self.done, index)
    }

    /// Moves the done task at `index` back to the end of `pending`; a
    /// silent no-op when `index` is out of range.
    pub fn move_done_task(&mut self, index: usize)
        ensures
            old(self).same_but_tasks(*final(self)),
            index < old(self).done@.len() ==> final(self).done@ == old(self).done@.remove(
                index as int,
            ) && final(self).pending@ == old(self).pending@.push(old(self).done@[index as int]),
            index >= old(self).done@.len() ==> final(self).pending == old(self).pending && final(self).done == old(self).done,
    {
        Self::move_task(&mut self.done, &mut self.pending, index)
    }

    /// Removes the pending task at `index`; an out-of-range index is
    /// reported, not ignored.
    pub fn remove_pending_task(&mut self, index: usize) -> (r: Result<(), ToDoError>)
        ensures
            old(self).same_but_tasks(*final(self)),
            index < old(self).pending@.len() ==> r == Ok::<(), ToDoError>(()) && final(self).pending@ == old(self).pending@.remove(index as int) && final(self).done == old(self).done,
            index >= old(self).pending@.len() ==> r == Err::<(), ToDoError>(ToDoError::OutOfRange)
                && *final(self) == *old(self),
    {
        if index >= self.pending.len() {
            return Err(ToDoError::OutOfRange);
        }
        self.pending.remove(index);
        Ok(())
    }

    /// Removes the task at `index` from the named sequence; an
    /// out-of-range index is reported, not ignored.
    pub fn remove_task(&mut self, data: ToDoData, index: usize) -> (r: Result<(), ToDoError>)
        ensures
            old(self).same_but_tasks(*final(self)),
            index < old(self).spec_list(data).len() ==> {
                &&& r == Ok::<(), ToDoError>(())
                &&& final(self).spec_list(data) == old(self).spec_list(data).remove(index as int)
                &&& (data == ToDoData::Pending ==> final(self).done == old(self).done)
                &&& (data == ToDoData::Done ==> final(self).pending == old(self).pending)
            },
            index >= old(self).spec_list(data).len() ==> r == Err::<(), ToDoError>(
                ToDoError::OutOfRange,
            ) && *final(self) == *old(self),
    {
        let list = match data {
            ToDoData::Pending => &mut self.pending,
            ToDoData::Done => &mut self.done,
        };
        if index >= list.len() {
            return Err(ToDoError::OutOfRange);
        }
        list.remove(index);
        Ok(())
    }

    /// Moves the pending task at `index` to the end of `done`; the task
    /// record itself is moved unchanged.  An out-of-range index is
    /// reported, not ignored.
    pub fn finish_task(&mut self, index: usize) -> (r: Result<(), ToDoError>)
        ensures
            old(self).same_but_tasks(*final(self)),
            index < old(self).pending@.len() ==> r == Ok::<(), ToDoError>(()) && final(self).pending@ == old(self).pending@.remove(index as int) && final(self).done@ == old(self).done@.push(old(self).pending@[index as int]),
            index >= old(self).pending@.len() ==> r == Err::<(), ToDoError>(ToDoError::OutOfRange)
                && *final(self) == *old(self),
    {
        if index >= self.pending.len() {
            return Err(ToDoError::OutOfRange);
        }
        let task = self.pending.remove(index);
        self.done.push(task);
        Ok(())
    }

    /// Swaps the tasks at `i` and `j` within one sequence, to promote or
    /// demote a task in the manual order; an out-of-range index is
    /// reported, not ignored.
    pub fn swap_tasks(&mut self, data: ToDoData, i: usize, j: usize) -> (r: Result<
        (),
        ToDoError,
    >)
        ensures
            old(self).same_but_tasks(*final(self)),
            i < old(self).spec_list(data).len() && j < old(self).spec_list(data).len() ==> {
                &&& r == Ok::<(), ToDoError>(())
                &&& final(self).spec_list(data) == old(self).spec_list(data).update(
                    i as int,
                    old(self).spec_list(data)[j as int],
                ).update(j as int, old(self).spec_list(data)[i as int])
                &&& (data == ToDoData::Pending ==> final(self).done == old(self).done)
                &&& (data == ToDoData::Done ==> final(self).pending == old(self).pending)
            },
            !(i < old(self).spec_list(data).len() && j < old(self).spec_list(data).len()) ==> r
                == Err::<(), ToDoError>(ToDoError::OutOfRange) && *final(self) == *old(self),
    {
        let list = match data {
            ToDoData::Pending => &mut self.pending,
            ToDoData::Done => &mut self.done,
        };
        if i >= list.len() || j >= list.len() {
            return Err(ToDoError::OutOfRange);
        }
        swap_in_vec(list, i, j);
        Ok(())
    }

    /// The pending tasks that satisfy, for every dimension, the whole of
    /// that dimension's filter set; order and original indices preserved.
    pub fn get_pending_filtered(&self) -> (r: TaskList)
        ensures
            r.entries() == filtered_entries(
                self.pending.deep_view(),
                self.project_filters@,
                self.context_filters@,
                self.hashtag_filters@,
                self.pending.deep_view().len() as int,
            ),
    {
        filter_list(&self.pending, &self.project_filters, &self.context_filters, &self.hashtag_filters)
    }

    /// The done tasks that satisfy every dimension's filter set; order and
    /// original indices preserved.
    pub fn get_done_filtered(&self) -> (r: TaskList)
        ensures
            r.entries() == filtered_entries(
                self.done.deep_view(),
                self.project_filters@,
                self.context_filters@,
                self.hashtag_filters@,
                self.done.deep_view().len() as int,
            ),
    {
        filter_list(&self.done, &self.project_filters, &self.context_filters, &self.hashtag_filters)
    }

    /// All pending tasks with their indices.
    pub fn get_pending_all(&self) -> (r: TaskList)
        ensures
            r.entries() == all_entries(self.pending.deep_view(), self.pending.deep_view().len() as int),
    {
        all_list(&self.pending)
    }

    /// All done tasks with their indices.
    pub fn get_done_all(&self) -> (r: TaskList)
        ensures
            r.entries() == all_entries(self.done.deep_view(), self.done.deep_view().len() as int),
    {
        all_list(&self.done)
    }

    /// Some task the store observes (pending, plus done when `use_done` is
    /// set) carries the tag `name` in `category`.
    pub open spec fn spec_occurs(self, category: ToDoCategory, name: Seq<char>) -> bool {
        occurs_in(self.pending.deep_view(), category, name) || (self.use_done && occurs_in(
            self.done.deep_view(),
            category,
            name,
        ))
    }

    /// What `get_categories` answers: names sorted strictly ascending (so
    /// deduplicated), a name listed exactly when some observed task carries
    /// it, and each flagged with whether it is an active filter.
    pub open spec fn category_list_ok(self, category: ToDoCategory, r: CategoryList) -> bool {
        &&& sorted_names(r.names())
        &&& forall|n: Seq<char>|
            #[trigger] r.names().contains(n) <==> self.spec_occurs(category, n)
        &&& forall|i: int|
            0 <= i < r.entries().len() ==> #[trigger] r.entries()[i].1 == self.spec_filters(
                category,
            ).contains(r.entries()[i].0)
    }

    /// The deduplicated, sorted tag names of one dimension over the
    /// observed tasks, each flagged selected when it is an active filter.
    pub fn get_categories(&self, category: ToDoCategory) -> (r: CategoryList)
        ensures
            self.category_list_ok(category, r),
    {
        let ghost pending_dv = self.pending.deep_view();
        let ghost done_dv = self.done.deep_view();
        let mut occurrences: Vec<String> = Vec::new();
        collect_tags(&mut occurrences, &self.pending, category);
        if self.use_done {
            collect_tags(&mut occurrences, &self.done, category);
        }
        proof {
            lemma_all_tags_occurs(pending_dv, category, pending_dv.len() as int);
            if self.use_done {
                lemma_all_tags_occurs(done_dv, category, done_dv.len() as int);
                let a = all_tags(pending_dv, category, pending_dv.len() as int);
                let b = all_tags(done_dv, category, done_dv.len() as int);
                assert(occurrences.deep_view() =~= a + b);
                assert forall|n: Seq<char>| #[trigger]
                    occurrences.deep_view().contains(n) implies self.spec_occurs(category, n) by {
                    let j = choose|j: int|
                        0 <= j < occurrences.deep_view().len() && occurrences.deep_view()[j] == n;
                    if j < a.len() {
                        assert(a[j] == n);
                        assert(a.contains(n));
                    } else {
                        assert(b[j - a.len()] == n);
                        assert(b.contains(n));
                    }
                }
                assert forall|n: Seq<char>| self.spec_occurs(category, n) implies #[trigger]
                    occurrences.deep_view().contains(n) by {
                    if occurs_in(pending_dv, category, n) {
                        assert(a.contains(n));
                        let j = choose|j: int| 0 <= j < a.len() && a[j] == n;
                        assert((a + b)[j] == n);
                        assert(occurrences.deep_view()[j] == n);
                    } else {
                        assert(b.contains(n));
                        let j = choose|j: int| 0 <= j < b.len() && b[j] == n;
                        assert((a + b)[a.len() + j] == n);
                        assert(occurrences.deep_view()[a.len() + j] == n);
                    }
                }
            } else {
                assert(occurrences.deep_view() =~= all_tags(
                    pending_dv,
                    category,
                    pending_dv.len() as int,
                ));
            }
            assert(forall|n: Seq<char>|
                #[trigger] occurrences.deep_view().contains(n) <==> self.spec_occurs(category, n));
        }
        let ghost occ_dv = occurrences.deep_view();
        let mut names: Vec<String> = Vec::new();
        let mut k: usize = 0;
        while k < occurrences.len()
            invariant
                k <= occurrences@.len(),
                occ_dv == occurrences.deep_view(),
                occ_dv.len() == occurrences@.len(),
                sorted_names(names.deep_view()),
                forall|n: Seq<char>|
                    #[trigger] names.deep_view().contains(n) <==> occ_dv.take(k as int).contains(
                        n,
                    ),
            decreases occurrences@.len() - k,
        {
            insert_sorted(&mut names, occurrences[k].as_str());
            proof {
                let taken = occ_dv.take(k as int);
                let taken1 = occ_dv.take(k + 1);
                assert(occ_dv[k as int] == occurrences@[k as int]@);
                assert forall|n: Seq<char>| #[trigger]
                    taken1.contains(n) implies (taken.contains(n) || n == occ_dv[k as int]) by {
                    let j = choose|j: int| 0 <= j < taken1.len() && taken1[j] == n;
                    if j < k {
                        assert(taken[j] == n);
                    }
                }
                assert forall|n: Seq<char>| #[trigger]
                    taken.contains(n) implies taken1.contains(n) by {
                    let j = choose|j: int| 0 <= j < taken.len() && taken[j] == n;
                    assert(taken1[j] == n);
                }
                assert(taken1[k as int] == occ_dv[k as int]);
                assert(taken1.contains(occ_dv[k as int]));
            }
            k += 1;
        }
        proof {
            assert(occ_dv.take(occ_dv.len() as int) =~= occ_dv);
        }
        let filter_set = match category {
            ToDoCategory::Projects => &self.project_filters,
            ToDoCategory::Contexts => &self.context_filters,
            ToDoCategory::Hashtags => &self.hashtag_filters,
        };
        let ghost names_dv = names.deep_view();
        let mut out: Vec<(String, bool)> = Vec::new();
        let mut t: usize = 0;
        while t < names.len()
            invariant
                t <= names@.len(),
                names_dv == names.deep_view(),
                names_dv.len() == names@.len(),
                out@.len() == t,
                forall|j: int|
                    #![trigger out@[j]]
                    0 <= j < t ==> out@[j].0@ == names_dv[j] && out@[j].1 == filter_set@.contains(
                        names_dv[j],
                    ),
            decreases names@.len() - t,
        {
            proof {
                assert(names_dv[t as int] == names@[t as int]@);
            }
            let flag = filter_set.contains(names[t].as_str());
            out.push((names[t].clone(), flag));
            t += 1;
        }
        let r = CategoryList(out);
        proof {
            assert(r.names() =~= names_dv);
            assert forall|i: int| 0 <= i < r.entries().len() implies #[trigger] r.entries()[i].1
                == self.spec_filters(category).contains(r.entries()[i].0) by {
            }
        }
        r
    }

    /// The sorted project names over the observed tasks, flagged selected.
    pub fn get_projects(&self) -> (r: CategoryList)
        ensures
            self.category_list_ok(ToDoCategory::Projects, r),
    {
        self.get_categories(ToDoCategory::Projects)
    }

    /// The sorted context names over the observed tasks, flagged selected.
    pub fn get_contexts(&self) -> (r: CategoryList)
        ensures
            self.category_list_ok(ToDoCategory::Contexts, r),
    {
        self.get_categories(ToDoCategory::Contexts)
    }

    /// The sorted hashtag names over the observed tasks, flagged selected.
    pub fn get_hashtags(&self) -> (r: CategoryList)
        ensures
            self.category_list_ok(ToDoCategory::Hashtags, r),
    {
        self.get_categories(ToDoCategory::Hashtags)
    }

    /// Every observed task whose `category` tag collection contains
    /// `name`, pending first, in order.
    pub fn get_tasks_with_tag(&self, category: ToDoCategory, name: &str) -> (r: Vec<Task>)
        ensures
            self.use_done ==> r.deep_view() == with_tag(
                self.pending.deep_view(),
                category,
                name@,
                self.pending.deep_view().len() as int,
            ) + with_tag(
                self.done.deep_view(),
                category,
                name@,
                self.done.deep_view().len() as int,
            ),
            !self.use_done ==> r.deep_view() == with_tag(
                self.pending.deep_view(),
                category,
                name@,
                self.pending.deep_view().len() as int,
            ),
    {
        let mut out: Vec<Task> = Vec::new();
        tasks_with_tag_in(&mut out, &self.pending, category, name);
        if self.use_done {
            tasks_with_tag_in(&mut out, &self.done, category, name);
        }
        proof {
            assert(Seq::<TaskView>::empty() + with_tag(
                self.pending.deep_view(),
                category,
                name@,
                self.pending.deep_view().len() as int,
            ) =~= with_tag(
                self.pending.deep_view(),
                category,
                name@,
                self.pending.deep_view().len() as int,
            ));
        }
        out
    }

    /// Every observed task tagged with project `name`.
    pub fn get_project_tasks(&self, name: &str) -> (r: Vec<Task>)
        ensures
            self.use_done ==> r.deep_view() == with_tag(
                self.pending.deep_view(),
                ToDoCategory::Projects,
                name@,
                self.pending.deep_view().len() as int,
            ) + with_tag(
                self.done.deep_view(),
                ToDoCategory::Projects,
                name@,
                self.done.deep_view().len() as int,
            ),
            !self.use_done ==> r.deep_view() == with_tag(
                self.pending.deep_view(),
                ToDoCategory::Projects,
                name@,
                self.pending.deep_view().len() as int,
            ),
    {
        self.get_tasks_with_tag(ToDoCategory::Projects, name)
    }

    /// Every observed task tagged with context `name`.
    pub fn get_context_tasks(&self, name: &str) -> (r: Vec<Task>)
        ensures
            self.use_done ==> r.deep_view() == with_tag(
                self.pending.deep_view(),
                ToDoCategory::Contexts,
                name@,
                self.pending.deep_view().len() as int,
            ) + with_tag(
                self.done.deep_view(),
                ToDoCategory::Contexts,
                name@,
                self.done.deep_view().len() as int,
            ),
            !self.use_done ==> r.deep_view() == with_tag(
                self.pending.deep_view(),
                ToDoCategory::Contexts,
                name@,
                self.pending.deep_view().len() as int,
            ),
    {
        self.get_tasks_with_tag(ToDoCategory::Contexts, name)
    }

    /// Every observed task tagged with hashtag `name`.
    pub fn get_hashtag_tasks(&self, name: &str) -> (r: Vec<Task>)
        ensures
            self.use_done ==> r.deep_view() == with_tag(
                self.pending.deep_view(),
                ToDoCategory::Hashtags,
                name@,
                self.pending.deep_view().len() as int,
            ) + with_tag(
                self.done.deep_view(),
                ToDoCategory::Hashtags,
                name@,
                self.done.deep_view().len() as int,
            ),
            !self.use_done ==> r.deep_view() == with_tag(
                self.pending.deep_view(),
                ToDoCategory::Hashtags,
                name@,
                self.pending.deep_view().len() as int,
            ),
    {
        self.get_tasks_with_tag(ToDoCategory::Hashtags, name)
    }

    /// Toggles membership of `filter` in the given filter set.
    pub fn toggle_filter(filter_set: &mut FilterSet, filter: &str)
        requires
            old(filter_set).wf(),
        ensures
            final(filter_set).wf(),
            final(filter_set)@ == set_toggle(old(filter_set)@, filter@),
    {
        filter_set.toggle(filter)
    }

    /// Toggles membership of `filter` in the filter set of `category`.
    pub fn toggle_category_filter(&mut self, category: ToDoCategory, filter: &str)
        requires
            old(self).wf(),
        ensures
            final(self).wf(),
            final(self).spec_filters(category) == set_toggle(
                old(self).spec_filters(category),
                filter@,
            ),
            forall|c: ToDoCategory|
                c != category ==> final(self).spec_filters(c) == old(self).spec_filters(c),
            final(self).pending == old(self).pending,
            final(self).done == old(self).done,
            final(self).use_done == old(self).use_done,
    {
        match category {
            ToDoCategory::Projects => self.project_filters.toggle(filter),
            ToDoCategory::Contexts => self.context_filters.toggle(filter),
            ToDoCategory::Hashtags => self.hashtag_filters.toggle(filter),
        }
    }
}

/// Swaps the entries at `i` and `j`.
fn swap_in_vec(list: &mut Vec<Task>, i: usize, j: usize)
    requires
        i < old(list)@.len(),
        j < old(list)@.len(),
    ensures
        final(list)@ == old(list)@.update(i as int, old(list)@[j as int]).update(
            j as int,
            old(list)@[i as int],
        ),
{
    if i == j {
        proof {
            assert(final(list)@ =~= old(list)@.update(i as int, old(list)@[j as int]).update(
                j as int,
                old(list)@[i as int],
            ));
        }
        return ;
    }
    let (lo, hi) = if i < j {
        (i, j)
    } else {
        (j, i)
    };
    let hi_task = list.remove(hi);
    let lo_task = list.remove(lo);
    list.insert(lo, hi_task);
    list.insert(hi, lo_task);
    proof {
        assert(final(list)@ =~= old(list)@.update(i as int, old(list)@[j as int]).update(
            j as int,
            old(list)@[i as int],
        ));
    }
}

/// Tasks of one view, each paired with its original index in the backing
/// sequence, so that mutations can keep addressing tasks by absolute index
/// through a filtered view.
#[derive(Debug, PartialEq)]
pub struct TaskList(pub Vec<(usize, Task)>);

/// The mathematical value of an indexed task sequence.
pub open spec fn entries_of(s: Seq<(usize, Task)>) -> Seq<(int, TaskView)> {
    s.map(|i: int, p: (usize, Task)| (p.0 as int, p.1@))
}

impl TaskList {
    pub open spec fn entries(self) -> Seq<(int, TaskView)> {
        entries_of(self.0@)
    }

    pub fn len(&self) -> (r: usize)
        ensures
            r == self.entries().len(),
    {
        self.0.len()
    }
}

/// Every filter name is among the tags: the conjunction of membership over
/// the whole set, vacuously true for an empty filter set.
pub open spec fn covers(tags: Seq<Seq<char>>, fs: Set<Seq<char>>) -> bool {
    forall|n: Seq<char>| fs.contains(n) ==> tags.contains(n)
}

/// The task satisfies all three dimensions' filter sets.
pub open spec fn matches_sets(
    t: TaskView,
    p: Set<Seq<char>>,
    c: Set<Seq<char>>,
    h: Set<Seq<char>>,
) -> bool {
    covers(t.projects, p) && covers(t.contexts, c) && covers(t.hashtags, h)
}

/// The first `n` tasks that satisfy the filters, in order, each with its
/// index in `ts`.
pub open spec fn filtered_entries(
    ts: Seq<TaskView>,
    p: Set<Seq<char>>,
    c: Set<Seq<char>>,
    h: Set<Seq<char>>,
    n: int,
) -> Seq<(int, TaskView)>
    decreases n,
{
    if n <= 0 {
        Seq::empty()
    } else {
        let prev = filtered_entries(ts, p, c, h, n - 1);
        if matches_sets(ts[n - 1], p, c, h) {
            prev.push((n - 1, ts[n - 1]))
        } else {
            prev
        }
    }
}

/// All of the first `n` tasks, in order, each with its index.
pub open spec fn all_entries(ts: Seq<TaskView>, n: int) -> Seq<(int, TaskView)>
    decreases n,
{
    if n <= 0 {
        Seq::empty()
    } else {
        all_entries(ts, n - 1).push((n - 1, ts[n - 1]))
    }
}

/// Whether every active filter of `fs` occurs among `tags`.
fn subset_ok(tags: &Vec<String>, fs: &FilterSet) -> (r: bool)
    ensures
        r == covers(tags.deep_view(), fs@),
{
    let mut k: usize = 0;
    while k < fs.items.len()
        invariant
            k <= fs.items@.len(),
            forall|j: int|
                0 <= j < k ==> tags.deep_view().contains(#[trigger] fs.items.deep_view()[j]),
        decreases fs.items@.len() - k,
    {
        if !contains_str(tags, fs.items[k].as_str()) {
            assert(fs@.contains(fs.items.deep_view()[k as int]));
            return false;
        }
        k += 1;
    }
    proof {
        assert forall|n: Seq<char>| fs@.contains(n) implies tags.deep_view().contains(n) by {
            let j = choose|j: int|
                0 <= j < fs.items.deep_view().len() && fs.items.deep_view()[j] == n;
        }
    }
    true
}

/// Whether the task satisfies all three filter sets.
fn task_matches_exec(t: &Task, pf: &FilterSet, cf: &FilterSet, hf: &FilterSet) -> (r: bool)
    ensures
        r == matches_sets(t@, pf@, cf@, hf@),
{
    subset_ok(&t.projects, pf) && subset_ok(&t.contexts, cf) && subset_ok(&t.hashtags, hf)
}

/// The tasks of `tasks` that satisfy the filters, in order, with their
/// original indices.
fn filter_list(tasks: &Vec<Task>, pf: &FilterSet, cf: &FilterSet, hf: &FilterSet) -> (r: TaskList)
    ensures
        r.entries() == filtered_entries(
            tasks.deep_view(),
            pf@,
            cf@,
            hf@,
            tasks.deep_view().len() as int,
        ),
{
    let ghost dv = tasks.deep_view();
    let mut out: Vec<(usize, Task)> = Vec::new();
    let mut i: usize = 0;
    while i < tasks.len()
        invariant
            i <= tasks@.len(),
            dv == tasks.deep_view(),
            dv.len() == tasks@.len(),
            entries_of(out@) =~= filtered_entries(dv, pf@, cf@, hf@, i as int),
        decreases tasks@.len() - i,
    {
        if task_matches_exec(&tasks[i], pf, cf, hf) {
            let copy = tasks[i].duplicate();
            out.push((i, copy));
        }
        i += 1;
    }
    TaskList(out)
}

/// The tasks of `tasks`, unfiltered, with their indices.
fn all_list(tasks: &Vec<Task>) -> (r: TaskList)
    ensures
        r.entries() == all_entries(tasks.deep_view(), tasks.deep_view().len() as int),
{
    let ghost dv = tasks.deep_view();
    let mut out: Vec<(usize, Task)> = Vec::new();
    let mut i: usize = 0;
    while i < tasks.len()
        invariant
            i <= tasks@.len(),
            dv == tasks.deep_view(),
            dv.len() == tasks@.len(),
            entries_of(out@) =~= all_entries(dv, i as int),
        decreases tasks@.len() - i,
    {
        let copy = tasks[i].duplicate();
        out.push((i, copy));
        i += 1;
    }
    TaskList(out)
}

/// An entry is in a filtered view exactly when its index is in range, it
/// carries the task at that index, and the task satisfies every
/// dimension's filter set.
pub proof fn lemma_filtered_membership(
    ts: Seq<TaskView>,
    p: Set<Seq<char>>,
    c: Set<Seq<char>>,
    h: Set<Seq<char>>,
    n: int,
)
    requires
        n <= ts.len(),
    ensures
        forall|e: (int, TaskView)|
            filtered_entries(ts, p, c, h, n).contains(e) <==> (0 <= e.0 < n && ts[e.0] == e.1
                && matches_sets(e.1, p, c, h)),
    decreases n,
{
    if n > 0 {
        lemma_filtered_membership(ts, p, c, h, n - 1);
        let prev = filtered_entries(ts, p, c, h, n - 1);
        let cur = filtered_entries(ts, p, c, h, n);
        if matches_sets(ts[n - 1], p, c, h) {
            lemma_push_contains(prev, (n - 1, ts[n - 1]));
        }
        assert forall|e: (int, TaskView)| #[trigger]
            cur.contains(e) implies (0 <= e.0 < n && ts[e.0] == e.1 && matches_sets(
            e.1,
            p,
            c,
            h,
        )) by {
            if matches_sets(ts[n - 1], p, c, h) {
                assert(prev.contains(e) || e == (n - 1, ts[n - 1]));
            } else {
                assert(prev.contains(e));
            }
        }
        assert forall|e: (int, TaskView)|
            0 <= e.0 < n && ts[e.0] == e.1 && matches_sets(e.1, p, c, h) implies #[trigger]
            cur.contains(e) by {
            if e.0 < n - 1 {
                assert(prev.contains(e));
            } else {
                assert(e == (n - 1, ts[n - 1]));
            }
        }
    }
}

/// Membership in a sequence extended by one element.
proof fn lemma_push_contains(s: Seq<(int, TaskView)>, x: (int, TaskView))
    ensures
        forall|e: (int, TaskView)| s.push(x).contains(e) <==> (s.contains(e) || e == x),
{
    assert forall|e: (int, TaskView)| s.push(x).contains(e) implies (s.contains(e) || e
        == x) by {
        let j = choose|j: int| 0 <= j < s.push(x).len() && s.push(x)[j] == e;
        if j < s.len() {
            assert(s[j] == e);
        }
    }
    assert forall|e: (int, TaskView)| s.contains(e) implies s.push(x).contains(e) by {
        let j = choose|j: int| 0 <= j < s.len() && s[j] == e;
        assert(s.push(x)[j] == e);
    }
    assert(s.push(x)[s.len() as int] == x);
}

/// One entry per distinct tag name, sorted ascending, each flagged with
/// whether the name is an active filter.
#[derive(Debug)]
pub struct CategoryList(pub Vec<(String, bool)>);

impl CategoryList {
    pub open spec fn entries(self) -> Seq<(Seq<char>, bool)> {
        self.0@.map(|i: int, p: (String, bool)| (p.0@, p.1))
    }

    pub open spec fn names(self) -> Seq<Seq<char>> {
        self.entries().map_values(|p: (Seq<char>, bool)| p.0)
    }

    pub fn len(&self) -> (r: usize)
        ensures
            r == self.entries().len(),
    {
        self.0.len()
    }

    /// The tag name of the entry at `index`.
    pub fn get_name(&self, index: usize) -> (r: &String)
        requires
            index < self.entries().len(),
        ensures
            r@ == self.names()[index as int],
    {
        &self.0[index].0
    }
}

/// The names stand in strictly ascending lexicographic order, so each name
/// occurs once.
pub open spec fn sorted_names(s: Seq<Seq<char>>) -> bool {
    forall|i: int, j: int| 0 <= i && i + 1 == j && j < s.len() ==> lex_lt(#[trigger] s[i], #[trigger] s[j])
}

/// In a sorted sequence every earlier name is below every later one.
pub proof fn lemma_sorted_chain(s: Seq<Seq<char>>, i: int, j: int)
    requires
        sorted_names(s),
        0 <= i < j < s.len(),
    ensures
        lex_lt(s[i], s[j]),
    decreases j - i,
{
    if j == i + 1 {
    } else {
        lemma_sorted_chain(s, i, j - 1);
        crate::lex::lemma_lex_lt_trans(s[i], s[j - 1], s[j]);
    }
}

/// Two strictly sorted name sequences with the same members are the same
/// sequence: the contract of the category index determines its answer
/// completely.
pub proof fn lemma_sorted_names_unique(a: Seq<Seq<char>>, b: Seq<Seq<char>>)
    requires
        sorted_names(a),
        sorted_names(b),
        forall|n: Seq<char>| a.contains(n) <==> b.contains(n),
    ensures
        a == b,
    decreases a.len(),
{
    if a.len() == 0 && b.len() == 0 {
        assert(a =~= b);
    } else if a.len() == 0 {
        assert(b.contains(b[0]));
        assert(false);
    } else if b.len() == 0 {
        assert(a.contains(a[0]));
        assert(false);
    } else {
        assert(a.contains(a[0]));
        let j = choose|j: int| 0 <= j < b.len() && b[j] == a[0];
        assert(b.contains(b[0]));
        let i = choose|i: int| 0 <= i < a.len() && a[i] == b[0];
        if i > 0 && j > 0 {
            lemma_sorted_chain(a, 0, i);
            lemma_sorted_chain(b, 0, j);
            crate::lex::lemma_lex_lt_trans(a[0], a[i], a[0]);
            crate::lex::lemma_lex_lt_irrefl(a[0]);
        }
        assert(a[0] == b[0]);
        let a_tail = a.drop_first();
        let b_tail = b.drop_first();
        assert forall|k: int| 0 <= k < a_tail.len() implies #[trigger] a_tail[k] == a[k + 1] by {}
        assert forall|k: int| 0 <= k < b_tail.len() implies #[trigger] b_tail[k] == b[k + 1] by {}
        assert(sorted_names(a_tail));
        assert(sorted_names(b_tail));
        assert forall|n: Seq<char>| #[trigger] a_tail.contains(n) implies b_tail.contains(n) by {
            let k = choose|k: int| 0 <= k < a_tail.len() && a_tail[k] == n;
            lemma_sorted_chain(a, 0, k + 1);
            crate::lex::lemma_lex_lt_asymmetric(a[0], n);
            assert(a.contains(n));
            let m = choose|m: int| 0 <= m < b.len() && b[m] == n;
            assert(m != 0);
            assert(b_tail[m - 1] == n);
        }
        assert forall|n: Seq<char>| #[trigger] b_tail.contains(n) implies a_tail.contains(n) by {
            let k = choose|k: int| 0 <= k < b_tail.len() && b_tail[k] == n;
            lemma_sorted_chain(b, 0, k + 1);
            crate::lex::lemma_lex_lt_asymmetric(b[0], n);
            assert(b.contains(n));
            let m = choose|m: int| 0 <= m < a.len() && a[m] == n;
            assert(m != 0);
            assert(a_tail[m - 1] == n);
        }
        lemma_sorted_names_unique(a_tail, b_tail);
        assert forall|k: int| 0 <= k < a.len() implies #[trigger] a[k] == b[k] by {
            if k > 0 {
                assert(a[k] == a_tail[k - 1]);
                assert(b[k] == b_tail[k - 1]);
            }
        }
        assert(a =~= b);
    }
}

/// The tags of the first `n` tasks, in scan order, with repetitions.
pub open spec fn all_tags(ts: Seq<TaskView>, c: ToDoCategory, n: int) -> Seq<Seq<char>>
    decreases n,
{
    if n <= 0 {
        Seq::empty()
    } else {
        all_tags(ts, c, n - 1) + ts[n - 1].tags(c)
    }
}

/// Some task among `ts` carries the tag `name` in category `c`.
pub open spec fn occurs_in(ts: Seq<TaskView>, c: ToDoCategory, name: Seq<char>) -> bool {
    exists|k: int| 0 <= k < ts.len() && ts[k].has_tag(c, name)
}

/// A name occurs among the scanned tags exactly when some task carries it.
pub proof fn lemma_all_tags_occurs(ts: Seq<TaskView>, c: ToDoCategory, n: int)
    requires
        n <= ts.len(),
    ensures
        forall|name: Seq<char>|
            all_tags(ts, c, n).contains(name) <==> exists|k: int|
                0 <= k < n && ts[k].has_tag(c, name),
    decreases n,
{
    if n > 0 {
        lemma_all_tags_occurs(ts, c, n - 1);
        let prev = all_tags(ts, c, n - 1);
        let cur = all_tags(ts, c, n);
        assert forall|name: Seq<char>| #[trigger]
            cur.contains(name) implies exists|k: int| 0 <= k < n && ts[k].has_tag(c, name) by {
            let j = choose|j: int| 0 <= j < cur.len() && cur[j] == name;
            if j < prev.len() {
                assert(prev[j] == name);
                assert(prev.contains(name));
            } else {
                assert(ts[n - 1].tags(c)[j - prev.len()] == name);
                assert(ts[n - 1].has_tag(c, name));
            }
        }
        assert forall|name: Seq<char>|
            exists|k: int| 0 <= k < n && ts[k].has_tag(c, name) implies #[trigger] cur.contains(
            name,
        ) by {
            let k = choose|k: int| 0 <= k < n && ts[k].has_tag(c, name);
            if k < n - 1 {
                assert(prev.contains(name));
                let j = choose|j: int| 0 <= j < prev.len() && prev[j] == name;
                assert(cur[j] == name);
            } else {
                let g = choose|g: int|
                    0 <= g < ts[n - 1].tags(c).len() && #[trigger] ts[n - 1].tags(c)[g] == name;
                assert(cur[prev.len() + g] == name);
            }
        }
    }
}

/// Appends a copy of every tag of category `c` of every task to `out`.
fn collect_tags(out: &mut Vec<String>, ts: &Vec<Task>, c: ToDoCategory)
    ensures
        final(out).deep_view() == old(out).deep_view() + all_tags(
            ts.deep_view(),
            c,
            ts.deep_view().len() as int,
        ),
{
    let ghost dv = ts.deep_view();
    let ghost base = out.deep_view();
    let mut i: usize = 0;
    while i < ts.len()
        invariant
            i <= ts@.len(),
            dv == ts.deep_view(),
            dv.len() == ts@.len(),
            base == old(out).deep_view(),
            out.deep_view() =~= base + all_tags(dv, c, i as int),
        decreases ts@.len() - i,
    {
        let ghost before = out.deep_view();
        let mut copied = clone_tags(ts[i].tags(c));
        proof {
            assert(dv[i as int] == ts@[i as int]@);
        }
        out.append(&mut copied);
        proof {
            assert(out.deep_view() =~= before + dv[i as int].tags(c));
            assert(all_tags(dv, c, i + 1) == all_tags(dv, c, i as int) + dv[i as int].tags(c));
            assert(out.deep_view() =~= base + all_tags(dv, c, i + 1));
        }
        i += 1;
    }
}

/// The position of the first entry not below `name`, which is where `name`
/// belongs in the sorted list; found by binary search.
fn lower_bound(names: &Vec<String>, name: &str) -> (i: usize)
    requires
        sorted_names(names.deep_view()),
    ensures
        i <= names@.len(),
        forall|j: int| 0 <= j < i ==> lex_lt(#[trigger] names.deep_view()[j], name@),
        i < names@.len() ==> !lex_lt(names.deep_view()[i as int], name@),
{
    let ghost dv = names.deep_view();
    let mut lo: usize = 0;
    let mut hi: usize = names.len();
    while lo < hi
        invariant
            lo <= hi <= names@.len(),
            dv == names.deep_view(),
            dv.len() == names@.len(),
            sorted_names(dv),
            forall|j: int| 0 <= j < lo ==> lex_lt(#[trigger] dv[j], name@),
            forall|j: int| hi <= j < dv.len() ==> !lex_lt(#[trigger] dv[j], name@),
        decreases hi - lo,
    {
        let mid = lo + (hi - lo) / 2;
        if str_lt(names[mid].as_str(), name) {
            proof {
                assert forall|j: int| 0 <= j < mid + 1 implies lex_lt(#[trigger] dv[j], name@) by {
                    if j < mid {
                        lemma_sorted_chain(dv, j, mid as int);
                        crate::lex::lemma_lex_lt_trans(dv[j], dv[mid as int], name@);
                    }
                }
            }
            lo = mid + 1;
        } else {
            proof {
                assert forall|j: int| mid <= j < dv.len() implies !lex_lt(#[trigger] dv[j], name@) by {
                    if j > mid && lex_lt(dv[j], name@) {
                        lemma_sorted_chain(dv, mid as int, j);
                        crate::lex::lemma_lex_lt_trans(dv[mid as int], dv[j], name@);
                    }
                }
            }
            hi = mid;
        }
    }
    lo
}

/// Inserts `name` into the sorted list of names unless it is already
/// there.
fn insert_sorted(names: &mut Vec<String>, name: &str)
    requires
        sorted_names(old(names).deep_view()),
    ensures
        sorted_names(final(names).deep_view()),
        forall|n: Seq<char>|
            final(names).deep_view().contains(n) <==> (old(names).deep_view().contains(n) || n
                == name@),
{
    let ghost old_dv = names.deep_view();
    let i = lower_bound(names, name);
    if i < names.len() {
        if str_eq(names[i].as_str(), name) {
            proof {
                assert(old_dv[i as int] == name@);
                assert(old_dv.contains(name@));
            }
            return ;
        }
    }
    proof {
        // `name` is new: everything before position `i` is below it, and by
        // trichotomy it is below everything from position `i` on.
        if i < old_dv.len() {
            lemma_lex_lt_trichotomy(name@, old_dv[i as int]);
        }
        assert forall|j: int| i <= j < old_dv.len() implies lex_lt(name@, #[trigger] old_dv[j]) by {
            if j > i {
                lemma_sorted_chain(old_dv, i as int, j);
                crate::lex::lemma_lex_lt_trans(name@, old_dv[i as int], old_dv[j]);
            }
        }
        assert forall|j: int| 0 <= j < old_dv.len() implies #[trigger] old_dv[j] != name@ by {
            if j < i {
                lemma_lex_lt_asymmetric(old_dv[j], name@);
            } else {
                lemma_lex_lt_asymmetric(name@, old_dv[j]);
            }
        }
    }
    names.insert(i, name.to_owned());
    proof {
        let new_dv = names.deep_view();
        assert(new_dv =~= old_dv.insert(i as int, name@));
        assert forall|k: int| 0 <= k < new_dv.len() - 1 implies lex_lt(
            new_dv[k],
            #[trigger] new_dv[k + 1],
        ) by {
            if k + 1 < i {
                assert(new_dv[k] == old_dv[k] && new_dv[k + 1] == old_dv[k + 1]);
            } else if k + 1 == i {
                assert(new_dv[k] == old_dv[k] && new_dv[k + 1] == name@);
            } else if k == i {
                assert(new_dv[k] == name@ && new_dv[k + 1] == old_dv[k]);
            } else {
                assert(new_dv[k] == old_dv[k - 1] && new_dv[k + 1] == old_dv[k]);
            }
        }
        assert forall|n: Seq<char>| #[trigger]
            new_dv.contains(n) implies (old_dv.contains(n) || n == name@) by {
            let j = choose|j: int| 0 <= j < new_dv.len() && new_dv[j] == n;
            if j < i {
                assert(old_dv[j] == n);
            } else if j > i {
                assert(old_dv[j - 1] == n);
            }
        }
        assert forall|n: Seq<char>| old_dv.contains(n) implies #[trigger] new_dv.contains(n) by {
            let j = choose|j: int| 0 <= j < old_dv.len() && old_dv[j] == n;
            if j < i {
                assert(new_dv[j] == n);
            } else {
                assert(new_dv[j + 1] == n);
            }
        }
        assert(new_dv[i as int] == name@);
    }
}

/// The tasks among the first `n` of `ts` that carry tag `name` in
/// category `c`, in order.
pub open spec fn with_tag(ts: Seq<TaskView>, c: ToDoCategory, name: Seq<char>, n: int) -> Seq<
    TaskView,
>
    decreases n,
{
    if n <= 0 {
        Seq::empty()
    } else {
        let prev = with_tag(ts, c, name, n - 1);
        if ts[n - 1].has_tag(c, name) {
            prev.push(ts[n - 1])
        } else {
            prev
        }
    }
}

/// Appends a copy of every task of `ts` that carries tag `name` in
/// category `c` to `out`.
fn tasks_with_tag_in(out: &mut Vec<Task>, ts: &Vec<Task>, c: ToDoCategory, name: &str)
    ensures
        final(out).deep_view() == old(out).deep_view() + with_tag(
            ts.deep_view(),
            c,
            name@,
            ts.deep_view().len() as int,
        ),
{
    let ghost dv = ts.deep_view();
    let ghost base = out.deep_view();
    let mut i: usize = 0;
    while i < ts.len()
        invariant
            i <= ts@.len(),
            dv == ts.deep_view(),
            dv.len() == ts@.len(),
            base == old(out).deep_view(),
            out.deep_view() =~= base + with_tag(dv, c, name@, i as int),
        decreases ts@.len() - i,
    {
        proof {
            assert(dv[i as int] == ts@[i as int]@);
        }
        let ghost prev = with_tag(dv, c, name@, i as int);
        let ghost before = out.deep_view();
        if contains_str(ts[i].tags(c), name) {
            let copy = ts[i].duplicate();
            out.push(copy);
            proof {
                assert(with_tag(dv, c, name@, i + 1) == prev.push(dv[i as int]));
                assert(out.deep_view() =~= before.push(dv[i as int]));
                assert(before.push(dv[i as int]) =~= base + prev.push(dv[i as int]));
            }
        } else {
            proof {
                assert(with_tag(dv, c, name@, i + 1) == prev);
            }
        }
        i += 1;
    }
}

/// The task `t` went to the sequence its `finished` flag selects.
pub open spec fn appended(pre: ToDo, post: ToDo, t: Task) -> bool {
    if t.finished {
        post.done@ == pre.done@.push(t) && post.pending == pre.pending
    } else {
        post.pending@ == pre.pending@.push(t) && post.done == pre.done
    }
}

/// The position of `name` in `items`, if present.
fn index_of(items: &Vec<String>, name: &str) -> (r: Option<usize>)
    ensures
        match r {
            Some(i) => i < items@.len() && items.deep_view()[i as int] == name@,
            None => !items.deep_view().contains(name@),
        },
{
    let mut i: usize = 0;
    while i < items.len()
        invariant
            i <= items@.len(),
            forall|j: int| 0 <= j < i ==> items.deep_view()[j] != name@,
        decreases items@.len() - i,
    {
        if str_eq(items[i].as_str(), name) {
            return Some(i);
        }
        i += 1;
    }
    None
}

} // verus!
