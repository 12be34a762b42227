//! Windowed cursor over a list of externally supplied length.
//!
//! The navigator keeps a selection inside a viewport of `size` rows that
//! shows the items `first .. first + size` of a list of `len` items.  Once
//! the list is longer than the viewport, moving down parks the cursor
//! `list_shift` rows above the bottom edge and scrolls the window underneath
//! it until the true end of the list is reached.

use vstd::prelude::*;

verus! {

/// The kind of pane a widget shows.
#[derive(PartialEq, Eq, Structural, Debug, Copy, Clone)]
pub enum WidgetType {
    Input,
    List,
    Done,
    Project,
    Context,
}

/// An abstract navigation event, as produced by the key-binding layer.
#[derive(PartialEq, Eq, Structural, Debug, Copy, Clone)]
pub enum UIEvent {
    ListDown,
    ListUp,
    ListFirst,
    ListLast,
    Nothing,
}

/// A windowed cursor: `selection` is the offset inside the visible window,
/// `first` the offset of the window inside the full list.
pub struct WidgetList {
    /// Length of the underlying list; recomputed by the caller whenever the
    /// shown view changes.
    pub len: usize,
    pub selection: usize,
    pub first: usize,
    pub size: usize,
    pub list_shift: usize,
}

impl WidgetList {
    /// The state is consistent with the list length: the selection stays
    /// inside the window, the window stays inside the list, and the
    /// configured lookahead is smaller than the window.
    pub open spec fn wf(self) -> bool {
        &&& self.list_shift < self.size
        &&& self.size <= u16::MAX
        &&& self.selection < self.size
        &&& self.len > 0 ==> self.first + self.selection < self.len
        &&& self.len == 0 ==> self.selection == 0 && self.first == 0
        &&& if self.len > self.size {
            self.first + self.size <= self.len
        } else {
            self.first == 0
        }
    }

    /// The absolute position of the cursor in the full list.
    pub open spec fn abs_index(self) -> int {
        self.selection + self.first
    }

    pub open spec fn spec_down(self) -> WidgetList {
        if self.len <= self.size {
            if self.len > self.selection + 1 {
                WidgetList { selection: (self.selection + 1) as usize, ..self }
            } else {
                self
            }
        } else if self.size <= self.selection + 1 + self.list_shift {
            if self.first + self.size < self.len {
                WidgetList { first: (self.first + 1) as usize, ..self }
            } else if self.size > self.selection + 1 {
                WidgetList { selection: (self.selection + 1) as usize, ..self }
            } else {
                self
            }
        } else {
            WidgetList { selection: (self.selection + 1) as usize, ..self }
        }
    }

    pub open spec fn spec_up(self) -> WidgetList {
        if self.selection <= self.list_shift {
            if self.first > 0 {
                WidgetList { first: (self.first - 1) as usize, ..self }
            } else if self.selection > 0 {
                WidgetList { selection: (self.selection - 1) as usize, ..self }
            } else {
                self
            }
        } else {
            WidgetList { selection: (self.selection - 1) as usize, ..self }
        }
    }

    pub open spec fn spec_first(self) -> WidgetList {
        WidgetList { selection: 0, first: 0, ..self }
    }

    pub open spec fn spec_last(self) -> WidgetList {
        if self.size > self.len - 1 {
            WidgetList { first: 0, selection: (self.len - 1) as usize, ..self }
        } else {
            WidgetList {
                first: (self.len - self.size) as usize,
                selection: (self.size - 1) as usize,
                ..self
            }
        }
    }

    /// Creates a navigator with the cursor on the first item and an empty
    /// list; the caller supplies `len` and the window size afterwards.
    pub fn new(list_shift: usize) -> (r: WidgetList)
        ensures
            r.len == 0,
            r.selection == 0,
            r.first == 0,
            r.size == 0,
            r.list_shift == list_shift,
    {
        WidgetList { len: 0, selection: 0, first: 0, size: 0, list_shift }
    }

    /// The currently selected row inside the window.
    pub fn act(&self) -> (r: usize)
        ensures
            r == self.selection,
    {
        self.selection
    }

    /// The index of the selected item within the entire list.
    pub fn index(&self) -> (r: usize)
        requires
            self.wf(),
        ensures
            r == self.abs_index(),
    {
        self.selection + self.first
    }

    /// Updates the window capacity; the cursor is not repositioned, that is
    /// the caller's responsibility.
    pub fn set_size(&mut self, size: u16)
        ensures
            *final(self) == (WidgetList { size: size as usize, ..*old(self) }),
    {
        self.size = size as usize;
    }

    /// Moves the selection down one row, scrolling the window once the
    /// cursor is within `list_shift` rows of the viewport bottom.
    pub fn down(&mut self)
        requires
            old(self).wf(),
        ensures
            *final(self) == old(self).spec_down(),
            final(self).wf(),
    {
        let act = self.act();
        if self.len <= self.size {
            if self.len > act + 1 {
                self.selection = act + 1;
            }
        } else if self.size <= act + 1 + self.list_shift {
            if self.first + self.size < self.len {
                self.first += 1;
            } else if self.size > act + 1 {
                self.selection = act + 1;
            }
        } else {
            self.selection = act + 1;
        }
    }

    /// Moves the selection up one row, scrolling the window once the cursor
    /// is within `list_shift` rows of the viewport top.
    pub fn up(&mut self)
        requires
            old(self).wf(),
        ensures
            *final(self) == old(self).spec_up(),
            final(self).wf(),
    {
        let act = self.act();
        if act <= self.list_shift {
            if self.first > 0 {
                self.first -= 1;
            } else if act > 0 {
                self.selection = act - 1;
            }
        } else {
            self.selection = act - 1;
        }
    }

    /// Moves to the next item; returns the old and new absolute indices, or
    /// `None` when the cursor already sits on the last item.
    pub fn next(&mut self) -> (r: Option<(usize, usize)>)
        requires
            old(self).wf(),
        ensures
            final(self).wf(),
            old(self).abs_index() + 1 >= old(self).len ==> r is None && *final(self) == *old(
                self,
            ),
            old(self).abs_index() + 1 < old(self).len ==> *final(self) == old(self).spec_down()
                && r == Some(
                (old(self).abs_index() as usize, (old(self).abs_index() + 1) as usize),
            ),
    {
        if self.len <= self.index() + 1 {
            None
        } else {
            let old_index = self.index();
            proof {
                self.lemma_down_index();
            }
            self.down();
            Some((old_index, self.index()))
        }
    }

    /// Moves to the previous item; returns the old and new absolute indices,
    /// or `None` when the selection sits on the first window row.  The check
    /// is against the window row, not the absolute index: with a scrolled
    /// window this answers `None` even though earlier items exist.
    pub fn prev(&mut self) -> (r: Option<(usize, usize)>)
        requires
            old(self).wf(),
        ensures
            final(self).wf(),
            old(self).selection == 0 ==> r is None && *final(self) == *old(self),
            old(self).selection > 0 ==> *final(self) == old(self).spec_up() && r == Some(
                (old(self).abs_index() as usize, (old(self).abs_index() - 1) as usize),
            ),
    {
        if self.act() == 0 {
            None
        } else {
            let old_index = self.index();
            proof {
                self.lemma_up_index();
            }
            self.up();
            Some((old_index, self.index()))
        }
    }

    /// Moves the cursor to the first item of the list.
    pub fn first(&mut self)
        requires
            old(self).wf(),
        ensures
            *final(self) == old(self).spec_first(),
            final(self).wf(),
    {
        self.selection = 0;
        self.first = 0;
    }

    /// Moves the cursor to the last item of the list.
    pub fn last(&mut self)
        requires
            old(self).wf(),
            old(self).len > 0,
        ensures
            *final(self) == old(self).spec_last(),
            final(self).wf(),
    {
        let shown_items = self.len - 1;
        if self.size > shown_items {
            self.first = 0;
            self.selection = shown_items;
        } else {
            self.first = self.len - self.size;
            self.selection = self.size - 1;
        }
    }

    /// The half-open range of absolute indices the window shows.
    pub fn range(&self) -> (r: (usize, usize))
        requires
            self.first + self.size <= usize::MAX,
        ensures
            r.0 == self.first,
            r.1 == self.first + self.size,
    {
        (self.first, self.first + self.size)
    }

    /// Routes a navigation event to the matching operation; answers whether
    /// the event was one the navigator handles.
    pub fn handle_event(&mut self, event: UIEvent) -> (r: bool)
        requires
            old(self).wf(),
            event == UIEvent::ListLast ==> old(self).len > 0,
        ensures
            final(self).wf(),
            r == (event != UIEvent::Nothing),
            match event {
                UIEvent::ListDown => *final(self) == old(self).spec_down(),
                UIEvent::ListUp => *final(self) == old(self).spec_up(),
                UIEvent::ListFirst => *final(self) == old(self).spec_first(),
                UIEvent::ListLast => *final(self) == old(self).spec_last(),
                UIEvent::Nothing => *final(self) == *old(self),
            },
    {
        match event {
            UIEvent::ListDown => self.down(),
            UIEvent::ListUp => self.up(),
            UIEvent::ListFirst => self.first(),
            UIEvent::ListLast => self.last(),
            UIEvent::Nothing => {
                return false;
            },
        }
        true
    }

    /// Going down moves the absolute index one item closer to the end of
    /// the list, and stops there.
    pub proof fn lemma_down_index(self)
        requires
            self.wf(),
        ensures
            self.spec_down().wf(),
            self.spec_down().len == self.len,
            self.abs_index() + 1 < self.len ==> self.spec_down().abs_index() == self.abs_index()
                + 1,
            self.abs_index() + 1 >= self.len ==> self.spec_down() == self,
    {
    }

    /// Going up moves the absolute index one item back, and stops at the
    /// start of the list.
    pub proof fn lemma_up_index(self)
        requires
            self.wf(),
        ensures
            self.spec_up().wf(),
            self.spec_up().len == self.len,
            self.abs_index() > 0 ==> self.spec_up().abs_index() == self.abs_index() - 1,
            self.abs_index() == 0 ==> self.spec_up() == self,
    {
    }

    /// The state after `k` calls of `down()`.
    pub open spec fn spec_down_n(self, k: nat) -> WidgetList
        decreases k,
    {
        if k == 0 {
            self
        } else {
            self.spec_down_n((k - 1) as nat).spec_down()
        }
    }

    /// Starting on the first item, `k` calls of `down()` select the item
    /// with absolute index `k`, for every `k` up to the end of the list.
    pub proof fn lemma_down_n_reaches_k(self, k: nat)
        requires
            self.wf(),
            self.selection == 0,
            self.first == 0,
            k < self.len,
        ensures
            self.spec_down_n(k).wf(),
            self.spec_down_n(k).abs_index() == k,
        decreases k,
    {
        if k > 0 {
            self.lemma_down_n_reaches_k((k - 1) as nat);
            self.spec_down_n((k - 1) as nat).lemma_down_index();
            assert(self.spec_down_n((k - 1) as nat).len == self.len) by {
                self.lemma_down_n_keeps_len((k - 1) as nat);
            }
        }
    }

    /// Repeated `down()` never changes the list length.
    pub proof fn lemma_down_n_keeps_len(self, k: nat)
        ensures
            self.spec_down_n(k).len == self.len,
        decreases k,
    {
        if k > 0 {
            self.lemma_down_n_keeps_len((k - 1) as nat);
        }
    }

    /// `first()` is idempotent.
    pub proof fn lemma_first_idempotent(self)
        ensures
            self.spec_first().spec_first() == self.spec_first(),
    {
    }

    /// `last()` is idempotent.
    pub proof fn lemma_last_idempotent(self)
        ensures
            self.spec_last().spec_last() == self.spec_last(),
    {
    }
}

} // verus!
