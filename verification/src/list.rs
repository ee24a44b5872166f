//! A list of items with a cursor on one of them.

use crate::util::texts;
use vstd::prelude::*;

verus! {

/// The mathematical value of a `List`.
pub ghost struct Listing {
    pub items: Seq<Seq<char>>,
    /// The position of the cursor; 0 in an empty list.
    pub selected: nat,
}

/// A list of items with a cursor on one of them.
pub struct List {
    items: Vec<String>,
    selected: usize,
}

/// Where the cursor stands after moving down by `n` in a list of `len`
/// items: `n` further, but not past the last item.
pub open spec fn moved_down(selected: nat, n: nat, len: nat) -> nat {
    if len == 0 {
        0
    } else if selected + n >= len {
        (len - 1) as nat
    } else {
        selected + n
    }
}

/// Where the cursor stands after moving up by `n`: `n` back, but not past
/// the first item.
pub open spec fn moved_up(selected: nat, n: nat) -> nat {
    if n >= selected {
        0
    } else {
        (selected - n) as nat
    }
}

impl View for List {
    type V = Listing;

    closed spec fn view(&self) -> Listing {
        Listing { items: texts(self.items@), selected: self.selected as nat }
    }
}

impl List {
    /// Whether the cursor stands on an item, or at 0 in an empty list.
    pub open spec fn wf(&self) -> bool {
        self@.selected < self@.items.len() || self@.selected == 0
    }

    pub fn new(items: Vec<String>) -> (r: List)
        ensures
            r.wf(),
            r@ == (Listing { items: texts(items@), selected: 0 }),
    {
        List { items, selected: 0 }
    }

    pub fn items(&self) -> (r: &Vec<String>)
        ensures
            texts(r@) == self@.items,
    {
        &self.items
    }

    pub fn len(&self) -> (r: usize)
        ensures
            r == self@.items.len(),
    {
        self.items.len()
    }

    pub fn selected(&self) -> (r: usize)
        ensures
            r == self@.selected,
    {
        self.selected
    }

    /// The item under the cursor, if the list has any.
    pub fn selected_item(&self) -> (r: Option<&String>)
        requires
            self.wf(),
        ensures
            self@.items.len() == 0 ==> r is None,
            self@.items.len() > 0 ==> r is Some && r->0@ == self@.items[self@.selected as int],
    {
        if self.items.len() == 0 {
            None
        } else {
            Some(&self.items[self.selected])
        }
    }

    /// Puts the cursor on the item at `index`, or on the last item where
    /// the list ends before `index`.
    pub fn select(&mut self, index: usize)
        requires
            old(self).wf(),
        ensures
            final(self).wf(),
            final(self)@ == (Listing {
                selected: moved_down(0, index as nat, old(self)@.items.len()),
                ..old(self)@
            }),
    {
        let len: usize = self.items.len();
        self.selected = if len == 0 {
            0
        } else if index >= len {
            len - 1
        } else {
            index
        };
    }

    pub fn select_next(&mut self, n: usize)
        requires
            old(self).wf(),
        ensures
            final(self).wf(),
            final(self)@ == (Listing {
                selected: moved_down(old(self)@.selected, n as nat, old(self)@.items.len()),
                ..old(self)@
            }),
    {
        let len: usize = self.items.len();
        self.selected = if len == 0 {
            0
        } else if n >= len - self.selected {
            len - 1
        } else {
            self.selected + n
        };
    }

    pub fn select_prev(&mut self, n: usize)
        requires
            old(self).wf(),
        ensures
            final(self).wf(),
            final(self)@ == (Listing {
                selected: moved_up(old(self)@.selected, n as nat),
                ..old(self)@
            }),
    {
        self.selected = if n >= self.selected {
            0
        } else {
            self.selected - n
        };
    }

    pub fn select_first(&mut self)
        requires
            old(self).wf(),
        ensures
            final(self).wf(),
            final(self)@ == (Listing { selected: 0, ..old(self)@ }),
    {
        self.selected = 0;
    }

    pub fn select_last(&mut self)
        requires
            old(self).wf(),
        ensures
            final(self).wf(),
            final(self)@ == (Listing {
                selected: if old(self)@.items.len() == 0 {
                    0nat
                } else {
                    (old(self)@.items.len() - 1) as nat
                },
                ..old(self)@
            }),
    {
        let len: usize = self.items.len();
        self.selected = if len == 0 {
            0
        } else {
            len - 1
        };
    }

    /// Replaces the items. The cursor stays where it is if an item is
    /// there, and goes to the last item otherwise.
    pub fn set_items(&mut self, items: Vec<String>)
        requires
            old(self).wf(),
        ensures
            final(self).wf(),
            final(self)@ == (Listing {
                items: texts(items@),
                selected: moved_down(0, old(self)@.selected, items@.len() as nat),
            }),
    {
        let at: usize = self.selected;
        self.items = items;
        let len: usize = self.items.len();
        self.selected = if len == 0 {
            0
        } else if at >= len {
            len - 1
        } else {
            at
        };
    }
}

/// However the cursor is moved, it stays on an item of the list.
pub proof fn lemma_cursor_stays_inside(selected: nat, n: nat, len: nat)
    requires
        selected < len,
    ensures
        moved_down(selected, n, len) < len,
        moved_up(selected, n) < len,
{
}

} // verus!
