//! A table: a header, rows of cells, and a cursor on one of the rows.

use crate::list::{moved_down, moved_up};
use crate::util::texts;
use vstd::prelude::*;

verus! {

/// The cells that the rows of `rows` hold.
pub open spec fn cells(rows: Seq<Vec<String>>) -> Seq<Seq<Seq<char>>> {
    Seq::new(rows.len(), |i: int| texts(rows[i]@))
}

/// The mathematical value of a `Table`.
pub ghost struct Grid {
    pub header: Seq<Seq<char>>,
    pub rows: Seq<Seq<Seq<char>>>,
    /// The position of the cursor; 0 in a table without rows.
    pub selected: nat,
}

/// A header and rows as they arrive from outside.
pub struct KubeTable {
    pub header: Vec<String>,
    pub rows: Vec<Vec<String>>,
}

/// A table with a cursor on one of its rows.
pub struct Table {
    header: Vec<String>,
    rows: Vec<Vec<String>>,
    selected: usize,
}

impl View for Table {
    type V = Grid;

    closed spec fn view(&self) -> Grid {
        Grid { header: texts(self.header@), rows: cells(self.rows@), selected: self.selected as nat }
    }
}

/// Whether `a` and `b` hold the same texts in the same order.
pub fn same_texts(a: &Vec<String>, b: &Vec<String>) -> (r: bool)
    ensures
        r == (texts(a@) == texts(b@)),
{
    if a.len() != b.len() {
        assert(texts(a@).len() != texts(b@).len());
        return false;
    }
    let mut i: usize = 0;
    while i < a.len()
        invariant
            i <= a.len(),
            a.len() == b.len(),
            forall|j: int| 0 <= j < i ==> texts(a@)[j] == texts(b@)[j],
        decreases a.len() - i,
    {
        if a[i] != b[i] {
            assert(texts(a@)[i as int] != texts(b@)[i as int]);
            return false;
        }
        i += 1;
    }
    assert(texts(a@) =~= texts(b@));
    true
}

impl Table {
    /// Whether the cursor stands on a row, or at 0 in a table without rows.
    pub open spec fn wf(&self) -> bool {
        self@.selected < self@.rows.len() || self@.selected == 0
    }

    pub fn new(header: Vec<String>, rows: Vec<Vec<String>>) -> (r: Table)
        ensures
            r.wf(),
            r@ == (Grid { header: texts(header@), rows: cells(rows@), selected: 0 }),
    {
        Table { header, rows, selected: 0 }
    }

    pub fn header(&self) -> (r: &Vec<String>)
        ensures
            texts(r@) == self@.header,
    {
        &self.header
    }

    pub fn rows(&self) -> (r: &Vec<Vec<String>>)
        ensures
            cells(r@) == self@.rows,
    {
        &self.rows
    }

    pub fn selected(&self) -> (r: usize)
        ensures
            r == self@.selected,
    {
        self.selected
    }

    /// Whether the table has this header.
    pub fn equal_header(&self, header: &Vec<String>) -> (r: bool)
        ensures
            r == (self@.header == texts(header@)),
    {
        same_texts(&self.header, header)
    }

    /// Replaces the rows. The cursor stays where it is if a row is there,
    /// and goes to the last row otherwise.
    pub fn update_rows(&mut self, rows: Vec<Vec<String>>)
        requires
            old(self).wf(),
        ensures
            final(self).wf(),
            final(self)@ == (Grid {
                rows: cells(rows@),
                selected: moved_down(0, old(self)@.selected, rows@.len() as nat),
                ..old(self)@
            }),
    {
        let at: usize = self.selected;
        self.rows = rows;
        let len: usize = self.rows.len();
        self.selected = if len == 0 {
            0
        } else if at >= len {
            len - 1
        } else {
            at
        };
    }

    /// Replaces the header and the rows, and puts the cursor on the first
    /// row.
    pub fn update_header_and_rows(&mut self, header: Vec<String>, rows: Vec<Vec<String>>)
        ensures
            final(self).wf(),
            final(self)@ == (Grid { header: texts(header@), rows: cells(rows@), selected: 0 }),
    {
        self.header = header;
        self.rows = rows;
        self.selected = 0;
    }

    /// Puts the cursor on the row at `index`, or on the last row where the
    /// table ends before `index`.
    pub fn select(&mut self, index: usize)
        requires
            old(self).wf(),
        ensures
            final(self).wf(),
            final(self)@ == (Grid {
                selected: moved_down(0, index as nat, old(self)@.rows.len()),
                ..old(self)@
            }),
    {
        let len: usize = self.rows.len();
        self.selected = if len == 0 {
            0
        } else if index >= len {
            len - 1
        } else {
            index
        };
    }

    pub fn select_first(&mut self)
        requires
            old(self).wf(),
        ensures
            final(self).wf(),
            final(self)@ == (Grid { selected: 0, ..old(self)@ }),
    {
        self.selected = 0;
    }

    pub fn select_last(&mut self)
        requires
            old(self).wf(),
        ensures
            final(self).wf(),
            final(self)@ == (Grid {
                selected: if old(self)@.rows.len() == 0 {
                    0nat
                } else {
                    (old(self)@.rows.len() - 1) as nat
                },
                ..old(self)@
            }),
    {
        let len: usize = self.rows.len();
        self.selected = if len == 0 {
            0
        } else {
            len - 1
        };
    }

    pub fn select_next(&mut self, n: usize)
        requires
            old(self).wf(),
        ensures
            final(self).wf(),
            final(self)@ == (Grid {
                selected: moved_down(old(self)@.selected, n as nat, old(self)@.rows.len()),
                ..old(self)@
            }),
    {
        let len: usize = self.rows.len();
        self.selected = if len == 0 {
            0
        } else if n >= len - self.selected {
            len - 1
        } else {
            self.selected + n
        };
    }

    pub fn select_prev(&mut self, n: usize)
        requires
            old(self).wf(),
        ensures
            final(self).wf(),
            final(self)@ == (Grid { selected: moved_up(old(self)@.selected, n as nat), ..old(self)@ }),
    {
        self.selected = if n >= self.selected {
            0
        } else {
            self.selected - n
        };
    }
}

} // verus!
