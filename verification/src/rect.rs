//! Rectangles of screen cells.

use vstd::prelude::*;

verus! {

/// A rectangle of cells: its top left corner and its size.
#[derive(Clone, Copy, Debug, PartialEq, Eq, Structural)]
pub struct Rect {
    pub x: u16,
    pub y: u16,
    pub width: u16,
    pub height: u16,
}

impl Rect {
    /// Whether the cell in column `column` and row `row` lies in the
    /// rectangle.
    pub open spec fn contains(self, column: int, row: int) -> bool {
        &&& self.x <= column < self.x + self.width
        &&& self.y <= row < self.y + self.height
    }

    /// Whether the rectangle lies inside `outer`.
    pub open spec fn within(self, outer: Rect) -> bool {
        &&& outer.x <= self.x
        &&& self.x + self.width <= outer.x + outer.width
        &&& outer.y <= self.y
        &&& self.y + self.height <= outer.y + outer.height
    }

    /// What is left of the rectangle inside a border one cell wide.
    pub open spec fn shrunk(self) -> Rect {
        Rect {
            x: if self.width >= 1 && self.x < u16::MAX {
                (self.x + 1) as u16
            } else {
                self.x
            },
            y: if self.height >= 1 && self.y < u16::MAX {
                (self.y + 1) as u16
            } else {
                self.y
            },
            width: if self.width >= 2 {
                (self.width - 2) as u16
            } else {
                0
            },
            height: if self.height >= 2 {
                (self.height - 2) as u16
            } else {
                0
            },
        }
    }

    pub fn new(x: u16, y: u16, width: u16, height: u16) -> (r: Rect)
        ensures
            r == (Rect { x, y, width, height }),
    {
        Rect { x, y, width, height }
    }

    /// The rectangle without cells, at the origin.
    pub fn zero() -> (r: Rect)
        ensures
            r == (Rect { x: 0, y: 0, width: 0, height: 0 }),
    {
        Rect { x: 0, y: 0, width: 0, height: 0 }
    }

    /// Whether the cell at `pos`, a column and a row, lies in the rectangle.
    pub fn contains_point(&self, pos: (u16, u16)) -> (r: bool)
        ensures
            r == self.contains(pos.0 as int, pos.1 as int),
    {
        let column: u32 = pos.0 as u32;
        let row: u32 = pos.1 as u32;
        self.x as u32 <= column && column < self.x as u32 + self.width as u32 && self.y as u32
            <= row && row < self.y as u32 + self.height as u32
    }

    /// What is left of the rectangle inside a border one cell wide.
    pub fn inner(&self) -> (r: Rect)
        ensures
            r == self.shrunk(),
    {
        Rect {
            x: if self.width >= 1 && self.x < u16::MAX {
                self.x + 1
            } else {
                self.x
            },
            y: if self.height >= 1 && self.y < u16::MAX {
                self.y + 1
            } else {
                self.y
            },
            width: if self.width >= 2 {
                self.width - 2
            } else {
                0
            },
            height: if self.height >= 2 {
                self.height - 2
            } else {
                0
            },
        }
    }
}

impl Default for Rect {
    fn default() -> (r: Rect)
        ensures
            r == (Rect { x: 0, y: 0, width: 0, height: 0 }),
    {
        Rect::zero()
    }
}

/// The part of `len` that is `rate` hundredths of it; all of it where
/// `rate` is over 100.
pub open spec fn share(len: u16, rate: u16) -> u16 {
    if rate >= 100 {
        len
    } else {
        (len * rate / 100) as u16
    }
}

/// The column or row `offset` past `start`, or the last one that can be
/// counted where that lies further out.
pub open spec fn shifted(start: u16, offset: int) -> u16 {
    if start + offset <= u16::MAX {
        (start + offset) as u16
    } else {
        u16::MAX
    }
}

/// The rectangle in the middle of `chunk` that takes `width_rate`
/// hundredths of its width and `height_rate` hundredths of its height.
/// Where `chunk` reaches past the last column or row that can be counted,
/// the corner of the rectangle stays at that column or row.
pub open spec fn centered(width_rate: u16, height_rate: u16, chunk: Rect) -> Rect {
    let width = share(chunk.width, width_rate);
    let height = share(chunk.height, height_rate);
    Rect {
        x: shifted(chunk.x, (chunk.width - width) / 2),
        y: shifted(chunk.y, (chunk.height - height) / 2),
        width,
        height,
    }
}

fn share_of(len: u16, rate: u16) -> (r: u16)
    ensures
        r == share(len, rate),
        r <= len,
{
    if rate >= 100 {
        len
    } else {
        assert(len * rate <= 65535 * 100) by (nonlinear_arith)
            requires
                len <= 65535,
                rate < 100,
        ;
        let part: u32 = len as u32 * rate as u32 / 100;
        assert(len * rate / 100 <= len) by (nonlinear_arith)
            requires
                rate < 100,
                len >= 0,
        ;
        part as u16
    }
}

/// The area of a window that is opened in the middle of `chunk`.
pub fn child_window_chunk(width_rate: u16, height_rate: u16, chunk: Rect) -> (r: Rect)
    ensures
        r == centered(width_rate, height_rate, chunk),
{
    let width: u16 = share_of(chunk.width, width_rate);
    let height: u16 = share_of(chunk.height, height_rate);
    let dx: u16 = (chunk.width - width) / 2;
    let dy: u16 = (chunk.height - height) / 2;
    Rect {
        x: if dx <= u16::MAX - chunk.x {
            chunk.x + dx
        } else {
            u16::MAX
        },
        y: if dy <= u16::MAX - chunk.y {
            chunk.y + dy
        } else {
            u16::MAX
        },
        width,
        height,
    }
}

/// A window in the middle of an area lies inside the area.
pub proof fn lemma_centered_is_inside(
    width_rate: u16,
    height_rate: u16,
    chunk: Rect,
    column: int,
    row: int,
)
    requires
        centered(width_rate, height_rate, chunk).contains(column, row),
        chunk.x + chunk.width <= u16::MAX,
        chunk.y + chunk.height <= u16::MAX,
    ensures
        chunk.contains(column, row),
{
    if width_rate < 100 {
        assert(chunk.width * width_rate / 100 <= chunk.width) by (nonlinear_arith)
            requires
                width_rate < 100,
                chunk.width >= 0,
        ;
    }
    if height_rate < 100 {
        assert(chunk.height * height_rate / 100 <= chunk.height) by (nonlinear_arith)
            requires
                height_rate < 100,
                chunk.height >= 0,
        ;
    }
}

/// A cell inside what a border leaves lies inside the rectangle.
pub proof fn lemma_inner_is_inside(rect: Rect, column: int, row: int)
    requires
        rect.shrunk().contains(column, row),
    ensures
        rect.contains(column, row),
{
}

} // verus!
