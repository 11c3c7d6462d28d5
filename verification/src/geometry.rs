//! Rectangles on the terminal screen.

use vstd::prelude::*;

verus! {

/// A rectangle of cells. One that is well formed ends on the screen.
#[derive(Debug, Clone, Copy, PartialEq, Eq, Structural)]
pub struct Rect {
    pub x: u16,
    pub y: u16,
    pub width: u16,
    pub height: u16,
}

/// A number of columns and rows.
#[derive(Debug, Clone, Copy, PartialEq, Eq, Structural)]
pub struct Size {
    pub width: u16,
    pub height: u16,
}

/// The sum of two coordinates, at most the largest one.
pub open spec fn plus(a: u16, b: u16) -> u16 {
    if a + b > u16::MAX {
        u16::MAX
    } else {
        (a + b) as u16
    }
}

/// The difference of two coordinates, at least zero.
pub open spec fn minus(a: u16, b: u16) -> u16 {
    if a < b {
        0
    } else {
        (a - b) as u16
    }
}

/// The smaller of two coordinates.
pub open spec fn least(a: u16, b: u16) -> u16 {
    if a < b {
        a
    } else {
        b
    }
}

/// The larger of two coordinates.
pub open spec fn greatest(a: u16, b: u16) -> u16 {
    if a < b {
        b
    } else {
        a
    }
}

/// The sum of two coordinates, at most the largest one.
pub fn add_cells(a: u16, b: u16) -> (r: u16)
    ensures
        r == plus(a, b),
{
    if b > u16::MAX - a {
        u16::MAX
    } else {
        a + b
    }
}

/// The difference of two coordinates, at least zero.
pub fn sub_cells(a: u16, b: u16) -> (r: u16)
    ensures
        r == minus(a, b),
{
    if a < b {
        0
    } else {
        a - b
    }
}

/// The smaller of two coordinates.
pub fn min_cells(a: u16, b: u16) -> (r: u16)
    ensures
        r == least(a, b),
{
    if a < b {
        a
    } else {
        b
    }
}

/// The larger of two coordinates.
pub fn max_cells(a: u16, b: u16) -> (r: u16)
    ensures
        r == greatest(a, b),
{
    if a < b {
        b
    } else {
        a
    }
}

/// A count as a coordinate, at most the largest one.
pub open spec fn as_cells(n: int) -> u16 {
    if n > u16::MAX {
        u16::MAX
    } else {
        n as u16
    }
}

/// A count as a coordinate.
pub fn to_cells(n: usize) -> (r: u16)
    ensures
        r == as_cells(n as int),
{
    if n > 65535 {
        u16::MAX
    } else {
        n as u16
    }
}

impl Rect {
    /// Whether the rectangle ends on the screen.
    pub open spec fn wf(&self) -> bool {
        &&& self.x + self.width <= u16::MAX
        &&& self.y + self.height <= u16::MAX
    }

    /// A rectangle. What reaches beyond the last column or row is cut off.
    pub fn new(x: u16, y: u16, width: u16, height: u16) -> (r: Self)
        ensures
            r.wf(),
            r == (Rect {
                x,
                y,
                width: least(width, (u16::MAX - x) as u16),
                height: least(height, (u16::MAX - y) as u16),
            }),
    {
        Rect {
            x,
            y,
            width: min_cells(width, u16::MAX - x),
            height: min_cells(height, u16::MAX - y),
        }
    }

    /// The rectangle without any cell at the origin.
    pub fn zero() -> (r: Self)
        ensures
            r == (Rect { x: 0, y: 0, width: 0, height: 0 }),
    {
        Rect { x: 0, y: 0, width: 0, height: 0 }
    }

    /// Whether the rectangle has no cell.
    pub fn is_empty(&self) -> (r: bool)
        ensures
            r == (self.width == 0 || self.height == 0),
    {
        self.width == 0 || self.height == 0
    }

    /// The first column to the right of the rectangle.
    pub fn right(&self) -> (r: u16)
        ensures
            r == plus(self.x, self.width),
    {
        add_cells(self.x, self.width)
    }

    /// The first row below the rectangle.
    pub fn bottom(&self) -> (r: u16)
        ensures
            r == plus(self.y, self.height),
    {
        add_cells(self.y, self.height)
    }
}

/// A rectangle in another one: in the middle from left to right, with one part of
/// the free rows above it and `parts - 1` below it.
pub open spec fn placed(area: Rect, width: u16, height: u16, parts: int) -> Rect {
    Rect {
        x: (area.x + minus(area.width, width) as int / 2) as u16,
        y: (area.y + minus(area.height, height) as int / parts) as u16,
        width,
        height,
    }
}

/// A rectangle in another one.
pub fn place(area: Rect, width: u16, height: u16, parts: u16) -> (r: Rect)
    requires
        area.wf(),
        0 < parts,
    ensures
        r == placed(area, width, height, parts as int),
{
    let left: u16 = sub_cells(area.width, width) / 2;
    let free: u16 = sub_cells(area.height, height);
    let above: u16 = free / parts;
    assert(above <= free) by (nonlinear_arith)
        requires
            above == free as int / parts as int,
            0 < parts,
    ;
    Rect { x: area.x + left, y: area.y + above, width, height }
}

/// A rectangle that is no larger than the one it is placed in lies inside.
pub proof fn law_placed_inside(area: Rect, width: u16, height: u16, parts: int)
    requires
        area.wf(),
        width <= area.width,
        height <= area.height,
        0 < parts,
    ensures
        area.x <= placed(area, width, height, parts).x,
        placed(area, width, height, parts).x + width <= area.x + area.width,
        area.y <= placed(area, width, height, parts).y,
        placed(area, width, height, parts).y + height <= area.y + area.height,
{
    let free = minus(area.height, height) as int;
    assert(0 <= free / parts <= free) by (nonlinear_arith)
        requires
            0 <= free,
            0 < parts,
    ;
}

/// A number of rows as far as sixteen bits hold it.
pub open spec fn wrapped_rows(n: int) -> u16 {
    (n % 65536) as u16
}

/// A number of rows as far as sixteen bits hold it.
pub fn wrap_rows(n: usize) -> (r: u16)
    ensures
        r == wrapped_rows(n as int),
{
    (n % 65536) as u16
}

} // verus!
