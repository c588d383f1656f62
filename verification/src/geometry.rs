//! Rectangles of terminal cells.

use vstd::prelude::*;

verus! {

/// A rectangle of terminal cells.
#[derive(Debug, Clone, Copy, PartialEq, Eq, Structural)]
pub struct Rect {
    pub x: u16,
    pub y: u16,
    pub width: u16,
    pub height: u16,
}

/// The lesser of two numbers.
pub open spec fn least(a: int, b: int) -> int {
    if a <= b {
        a
    } else {
        b
    }
}

/// `a` less `b`, or zero where that would be negative.
pub open spec fn minus(a: int, b: int) -> int {
    if a >= b {
        a - b
    } else {
        0
    }
}

/// The rectangle at `(x, y)` that is `width` by `height` cells large, clamped so that its right
/// and bottom ends are still `u16` coordinates.
pub open spec fn clamped_rect(x: u16, y: u16, width: u16, height: u16) -> Rect {
    Rect {
        x,
        y,
        width: least(width as int, u16::MAX - x) as u16,
        height: least(height as int, u16::MAX - y) as u16,
    }
}

/// `ratatui::layout::Rect::new`: the rectangle with the given corner and size, where the size is
/// reduced as far as needed to keep the right and bottom ends within `u16`.
#[verifier::external_body]
fn ratatui_rect(x: u16, y: u16, width: u16, height: u16) -> (rect: Rect)
    ensures
        rect == clamped_rect(x, y, width, height),
{
    let rect = ratatui::layout::Rect::new(x, y, width, height);
    Rect { x: rect.x, y: rect.y, width: rect.width, height: rect.height }
}

impl Rect {
    /// The first column right of the rectangle, or the last coordinate where there is none.
    pub open spec fn right_end(self) -> int {
        least(self.x + self.width, u16::MAX as int)
    }

    /// The first row below the rectangle, or the last coordinate where there is none.
    pub open spec fn bottom_end(self) -> int {
        least(self.y + self.height, u16::MAX as int)
    }

    /// Whether the cell at `(x, y)` lies in the rectangle.
    pub open spec fn has(self, x: u16, y: u16) -> bool {
        self.x <= x < self.right_end() && self.y <= y < self.bottom_end()
    }

    /// Whether the right and bottom ends are `u16` coordinates.
    pub open spec fn in_range(self) -> bool {
        self.x + self.width <= u16::MAX && self.y + self.height <= u16::MAX
    }

    /// Whether every cell of this rectangle lies in `outer`.
    pub open spec fn within(self, outer: Rect) -> bool {
        &&& outer.x <= self.x
        &&& outer.y <= self.y
        &&& self.x + self.width <= outer.x + outer.width
        &&& self.y + self.height <= outer.y + outer.height
    }

    /// The rectangle with the given corner and size, clamped to the coordinates there are.
    pub fn new(x: u16, y: u16, width: u16, height: u16) -> (rect: Rect)
        ensures
            rect == clamped_rect(x, y, width, height),
            rect.in_range(),
    {
        ratatui_rect(x, y, width, height)
    }

    /// Whether the rectangle has no cells.
    pub fn is_empty(&self) -> (empty: bool)
        ensures
            empty == (self.width == 0 || self.height == 0),
    {
        self.width == 0 || self.height == 0
    }

    /// The first column right of the rectangle.
    pub fn right(&self) -> (right: u16)
        ensures
            right == self.right_end(),
    {
        self.x.saturating_add(self.width)
    }

    /// The first row below the rectangle.
    pub fn bottom(&self) -> (bottom: u16)
        ensures
            bottom == self.bottom_end(),
    {
        self.y.saturating_add(self.height)
    }
}

/// A rectangle whose ends are coordinates has the cells from its corner on, as many each way as it
/// is wide and high.
pub proof fn law_a_rectangle_has_its_cells(rect: Rect, x: u16, y: u16)
    requires
        rect.x + rect.width <= u16::MAX,
        rect.y + rect.height <= u16::MAX,
    ensures
        rect.in_range(),
        rect.has(x, y) <==> rect.x <= x < rect.x + rect.width && rect.y <= y < rect.y + rect.height,
        rect.right_end() == rect.x + rect.width,
        rect.bottom_end() == rect.y + rect.height,
{
}

/// A rectangle with a given corner keeps that corner. It keeps a size that leaves its ends
/// coordinates, and reaches the last coordinate where the size is larger.
pub proof fn law_a_rectangle_keeps_its_corner(x: u16, y: u16, width: u16, height: u16)
    ensures
        ({
            let rect = clamped_rect(x, y, width, height);
            &&& rect.x == x
            &&& rect.y == y
            &&& x + width <= u16::MAX ==> rect.width == width
            &&& x + width > u16::MAX ==> x + rect.width == u16::MAX
            &&& y + height <= u16::MAX ==> rect.height == height
            &&& y + height > u16::MAX ==> y + rect.height == u16::MAX
        }),
{
}

} // verus!
