//! The fetched-item list and its highlighted selection.
//!
//! Items arrive in page order and stay in that order; the highlighted
//! index, when present, always points at a live item.

use vstd::prelude::*;

verus! {

/// The highlight after moving down one item in a list of `n` items.
pub open spec fn sel_next(n: int, sel: Option<usize>) -> Option<usize> {
    match sel {
        Some(i) => if i + 1 < n {
            Some((i + 1) as usize)
        } else {
            Some(((n - 1) as usize))
        },
        None => if n > 0 {
            Some(0usize)
        } else {
            None
        },
    }
}

/// The highlight after moving up one item in a list of `n` items.
pub open spec fn sel_prev(n: int, sel: Option<usize>) -> Option<usize> {
    match sel {
        Some(i) => if i > 0 {
            Some((i - 1) as usize)
        } else {
            Some(0usize)
        },
        None => if n > 0 {
            Some(((n - 1) as usize))
        } else {
            None
        },
    }
}

/// The highlight after a page-up of `page_size` rows.
pub open spec fn sel_page_up(n: int, sel: Option<usize>, page_size: u16) -> Option<usize> {
    if page_size == 0 || n == 0 {
        sel
    } else {
        let cur = match sel {
            Some(i) => i as int,
            None => 0int,
        };
        let jump = page_size - 1;
        if cur - jump >= 0 {
            Some((cur - jump) as usize)
        } else {
            Some(0usize)
        }
    }
}

/// The highlight after a page-down of `page_size` rows.
pub open spec fn sel_page_down(n: int, sel: Option<usize>, page_size: u16) -> Option<usize> {
    if page_size == 0 || n == 0 {
        sel
    } else {
        let cur = match sel {
            Some(i) => i as int,
            None => 0int,
        };
        let jump = page_size - 1;
        if cur + jump < n {
            Some((cur + jump) as usize)
        } else {
            Some(((n - 1) as usize))
        }
    }
}

/// Ordered items plus an optional highlighted index.
pub struct ListState<T> {
    items: Vec<T>,
    selected: Option<usize>,
}

impl<T> ListState<T> {
    /// The items, in insertion (page) order.
    pub closed spec fn items_view(&self) -> Seq<T> {
        self.items@
    }

    /// The highlighted index, if any.
    pub closed spec fn selected_of(&self) -> Option<usize> {
        self.selected
    }

    /// The highlighted index, when present, points at a live item.
    pub closed spec fn wf(&self) -> bool {
        match self.selected {
            Some(i) => i < self.items@.len(),
            None => true,
        }
    }

    /// An empty list with nothing highlighted.
    pub fn new() -> (r: ListState<T>)
        ensures
            r.wf(),
            r.items_view() == Seq::<T>::empty(),
            r.selected_of() is None,
    {
        let r = ListState { items: Vec::new(), selected: None };
        proof {
            assert(r.items_view() =~= Seq::<T>::empty());
        }
        r
    }

    pub fn is_empty(&self) -> (r: bool)
        ensures
            r == (self.items_view().len() == 0),
    {
        self.items.len() == 0
    }

    pub fn len(&self) -> (r: usize)
        ensures
            r == self.items_view().len(),
    {
        self.items.len()
    }

    /// Borrow of the items, for rendering.
    pub fn items(&self) -> (r: &Vec<T>)
        ensures
            r@ == self.items_view(),
    {
        &self.items
    }

    /// The item at `index`, if it is live.
    pub fn get(&self, index: usize) -> (r: Option<&T>)
        ensures
            match r {
                Some(v) => index < self.items_view().len() && *v == self.items_view()[index as int],
                None => index >= self.items_view().len(),
            },
    {
        if index < self.items.len() {
            Some(&self.items[index])
        } else {
            None
        }
    }

    pub fn selected_index(&self) -> (r: Option<usize>)
        ensures
            r == self.selected_of(),
            self.wf() ==> (r matches Some(i) ==> i < self.items_view().len()),
    {
        self.selected
    }

    /// Extends the list; the highlighted index is untouched.
    pub fn append_items(&mut self, new_items: Vec<T>)
        requires
            old(self).wf(),
        ensures
            final(self).wf(),
            final(self).items_view() == old(self).items_view() + new_items@,
            final(self).selected_of() == old(self).selected_of(),
    {
        let mut new_items = new_items;
        self.items.append(&mut new_items);
    }

    /// Replaces the contents; the first item, if any, becomes highlighted.
    pub fn replace_items(&mut self, new_items: Vec<T>)
        requires
            old(self).wf(),
        ensures
            final(self).wf(),
            final(self).items_view() == new_items@,
            final(self).selected_of() == if new_items@.len() == 0 {
                Option::<usize>::None
            } else {
                Option::<usize>::Some(0)
            },
    {
        let empty = new_items.len() == 0;
        self.items = new_items;
        self.selected = if empty {
            None
        } else {
            Some(0)
        };
    }

    /// Moves the highlight down one item, saturating at the end; with
    /// nothing highlighted, highlights the first item.
    pub fn select_next(&mut self)
        requires
            old(self).wf(),
        ensures
            final(self).wf(),
            final(self).items_view() == old(self).items_view(),
            final(self).selected_of() == sel_next(
                old(self).items_view().len() as int,
                old(self).selected_of(),
            ),
    {
        let n = self.items.len();
        match self.selected {
            Some(i) => {
                if i + 1 < n {
                    self.selected = Some(i + 1);
                } else {
                    self.selected = Some(n - 1);
                }
            },
            None => {
                if n > 0 {
                    self.selected = Some(0);
                }
            },
        }
    }

    /// Moves the highlight up one item, saturating at the start; with
    /// nothing highlighted, highlights the last item.
    pub fn select_previous(&mut self)
        requires
            old(self).wf(),
        ensures
            final(self).wf(),
            final(self).items_view() == old(self).items_view(),
            final(self).selected_of() == sel_prev(
                old(self).items_view().len() as int,
                old(self).selected_of(),
            ),
    {
        let n = self.items.len();
        match self.selected {
            Some(i) => {
                if i > 0 {
                    self.selected = Some(i - 1);
                }
            },
            None => {
                if n > 0 {
                    self.selected = Some(n - 1);
                }
            },
        }
    }

    /// Moves the highlight up by one page of `page_size` rows (the row
    /// kept for context makes the jump `page_size - 1`), saturating at
    /// the start; a no-op when `page_size` is zero or the list is empty.
    pub fn select_page_up(&mut self, page_size: u16)
        requires
            old(self).wf(),
        ensures
            final(self).wf(),
            final(self).items_view() == old(self).items_view(),
            final(self).selected_of() == sel_page_up(
                old(self).items_view().len() as int,
                old(self).selected_of(),
                page_size,
            ),
    {
        if page_size == 0 || self.items.len() == 0 {
            return ;
        }
        let cur: usize = match self.selected {
            Some(i) => i,
            None => 0,
        };
        let jump = (page_size - 1) as usize;
        let target = if cur >= jump {
            cur - jump
        } else {
            0
        };
        self.selected = Some(target);
    }

    /// Moves the highlight down by one page of `page_size` rows,
    /// saturating at the end; a no-op when `page_size` is zero or the
    /// list is empty.
    pub fn select_page_down(&mut self, page_size: u16)
        requires
            old(self).wf(),
        ensures
            final(self).wf(),
            final(self).items_view() == old(self).items_view(),
            final(self).selected_of() == sel_page_down(
                old(self).items_view().len() as int,
                old(self).selected_of(),
                page_size,
            ),
    {
        if page_size == 0 || self.items.len() == 0 {
            return ;
        }
        let n = self.items.len();
        let cur: usize = match self.selected {
            Some(i) => i,
            None => 0,
        };
        let jump = (page_size - 1) as usize;
        let target = if jump < n - cur {
            cur + jump
        } else {
            n - 1
        };
        self.selected = Some(target);
    }

    /// Consumes the list, returning the item at `index` if it is live.
    pub fn into_item(self, index: usize) -> (r: Option<T>)
        ensures
            match r {
                Some(v) => index < self.items_view().len() && v == self.items_view()[index as int],
                None => index >= self.items_view().len(),
            },
    {
        let mut items = self.items;
        if index < items.len() {
            let v = items.remove(index);
            Some(v)
        } else {
            None
        }
    }
}

} // verus!
