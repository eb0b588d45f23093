//! Cells of the screen.

use vstd::prelude::*;

verus! {

/// An area of cells.
#[derive(Clone, Copy, Debug, PartialEq, Eq, Structural)]
pub struct Rect {
    pub x: u16,
    pub y: u16,
    pub width: u16,
    pub height: u16,
}

impl Rect {
    pub open spec fn spec_empty() -> Rect {
        Rect { x: 0, y: 0, width: 0, height: 0 }
    }

    /// The area ends within the coordinates there are.
    pub open spec fn wf(&self) -> bool {
        self.x + self.width <= u16::MAX && self.y + self.height <= u16::MAX
    }

    pub open spec fn has_col(&self, col: u16) -> bool {
        self.x <= col < self.x + self.width
    }

    pub open spec fn has_row(&self, row: u16) -> bool {
        self.y <= row < self.y + self.height
    }

    pub open spec fn has(&self, col: u16, row: u16) -> bool {
        self.has_col(col) && self.has_row(row)
    }

    /// The area as far as the coordinates go.
    pub open spec fn spec_new(x: u16, y: u16, width: u16, height: u16) -> Rect {
        Rect {
            x,
            y,
            width: if x + width > u16::MAX {
                (u16::MAX - x) as u16
            } else {
                width
            },
            height: if y + height > u16::MAX {
                (u16::MAX - y) as u16
            } else {
                height
            },
        }
    }

    pub fn new(x: u16, y: u16, width: u16, height: u16) -> (r: Rect)
        ensures
            r == Rect::spec_new(x, y, width, height),
            r.wf(),
    {
        Rect {
            x,
            y,
            width: if width > u16::MAX - x {
                u16::MAX - x
            } else {
                width
            },
            height: if height > u16::MAX - y {
                u16::MAX - y
            } else {
                height
            },
        }
    }

    pub fn empty() -> (r: Rect)
        ensures
            r == Rect::spec_empty(),
            r.wf(),
    {
        Rect { x: 0, y: 0, width: 0, height: 0 }
    }

    pub fn contains_row(&self, row: u16) -> (r: bool)
        requires
            self.wf(),
        ensures
            r == self.has_row(row),
    {
        row >= self.y && row < self.y + self.height
    }

    pub fn contains(&self, col: u16, row: u16) -> (r: bool)
        requires
            self.wf(),
        ensures
            r == self.has(col, row),
    {
        col >= self.x && col < self.x + self.width && self.contains_row(row)
    }
}

} // verus!
