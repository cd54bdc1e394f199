//! Screen geometry: positions, rectangles, movement directions and split
//! orientations.

use vstd::prelude::*;

verus! {

/// A point on the character grid, or a grid extent (`x` columns by `y` rows).
#[derive(Debug, Clone, Copy, PartialEq, Eq, Structural)]
pub struct Position {
    pub x: usize,
    pub y: usize,
}

/// An axis-aligned rectangle on the character grid, stored as its top-left
/// corner (inclusive) and bottom-right corner (exclusive).
///
/// A rectangle is well formed when `corner1` lies no further right and no
/// further down than `corner2`.
#[derive(Debug, Clone, Copy, PartialEq, Eq, Structural)]
pub struct Rect {
    pub corner1: Position,
    pub corner2: Position,
}

/// A movement direction on the grid.
#[derive(Debug, Clone, Copy, PartialEq, Eq, Structural)]
pub enum Direction {
    Up,
    Down,
    Left,
    Right,
}

/// The axis along which a branch of the layout tree splits its rectangle.
#[derive(Debug, Clone, Copy, PartialEq, Eq, Structural)]
pub enum Orientation {
    Horizontal,
    Vertical,
}

impl Position {
    pub fn new(x: usize, y: usize) -> (r: Position)
        ensures
            r.x == x,
            r.y == y,
    {
        Position { x, y }
    }

    /// The number of cells in a grid of this extent.
    pub fn area(self) -> (r: usize)
        requires
            self.x * self.y <= usize::MAX,
        ensures
            r == self.x * self.y,
    {
        self.x * self.y
    }
}

impl Rect {
    /// A rectangle is well formed when its corners are ordered on both axes.
    pub open spec fn wf(self) -> bool {
        self.corner1.x <= self.corner2.x && self.corner1.y <= self.corner2.y
    }

    pub open spec fn spec_width(&self) -> int {
        self.corner2.x - self.corner1.x
    }

    pub open spec fn spec_height(&self) -> int {
        self.corner2.y - self.corner1.y
    }

    pub fn new(corner1: Position, corner2: Position) -> (r: Rect)
        ensures
            r.corner1 == corner1,
            r.corner2 == corner2,
    {
        Rect { corner1, corner2 }
    }

    pub fn width(&self) -> (r: usize)
        requires
            self.wf(),
        ensures
            r == self.spec_width(),
    {
        self.corner2.x - self.corner1.x
    }

    pub fn height(&self) -> (r: usize)
        requires
            self.wf(),
        ensures
            r == self.spec_height(),
    {
        self.corner2.y - self.corner1.y
    }
}

impl Direction {
    /// The direction a quarter turn counter-clockwise from this one.
    pub fn rotate_left(self) -> (r: Direction)
        ensures
            r == match self {
                Direction::Up => Direction::Left,
                Direction::Left => Direction::Down,
                Direction::Down => Direction::Right,
                Direction::Right => Direction::Up,
            },
    {
        match self {
            Direction::Up => Direction::Left,
            Direction::Left => Direction::Down,
            Direction::Down => Direction::Right,
            Direction::Right => Direction::Up,
        }
    }

    /// The direction a quarter turn clockwise from this one.
    pub fn rotate_right(self) -> (r: Direction)
        ensures
            r == match self {
                Direction::Up => Direction::Right,
                Direction::Right => Direction::Down,
                Direction::Down => Direction::Left,
                Direction::Left => Direction::Up,
            },
    {
        match self {
            Direction::Up => Direction::Right,
            Direction::Right => Direction::Down,
            Direction::Down => Direction::Left,
            Direction::Left => Direction::Up,
        }
    }

    /// The direction opposite to this one.
    pub fn opposite(self) -> (r: Direction)
        ensures
            r == match self {
                Direction::Up => Direction::Down,
                Direction::Down => Direction::Up,
                Direction::Left => Direction::Right,
                Direction::Right => Direction::Left,
            },
    {
        match self {
            Direction::Up => Direction::Down,
            Direction::Down => Direction::Up,
            Direction::Left => Direction::Right,
            Direction::Right => Direction::Left,
        }
    }
}

} // verus!
