//! Grid constants, coordinates, headings and the cells of the board.

use vstd::prelude::*;

verus! {

/// Number of cells along the first coordinate of the grid.
pub const GRID_WIDTH: usize = 32;

/// Number of cells along the second coordinate of the grid.
pub const GRID_HEIGHT: usize = 32;

/// Side of one cell on the drawing surface, in logical pixels.
pub const CELL_SIZE: i32 = 16;

/// Side of the square play field on the drawing surface, in logical pixels.
pub const BOX_SIZE: i32 = 512;

/// A position on the grid: the first component is the one that `Left` and
/// `Right` change, the second the one that `Up` and `Down` change.
pub type Coord = (usize, usize);

/// A heading of the snake. `Noop` stands for "no heading" and leaves the head
/// where it is.
#[derive(Clone, Copy, Debug, PartialEq, Eq, Structural)]
pub enum Direction {
    Noop,
    Up,
    Down,
    Left,
    Right,
}

/// One position of the board.
#[derive(Clone, Copy, Debug, PartialEq, Eq, Structural)]
pub struct Cell {
    pub is_food: bool,
    pub is_part_of_snake: bool,
    pub direction: Direction,
}

/// Whether `c` lies on the grid.
pub open spec fn in_grid(c: Coord) -> bool {
    c.0 < GRID_WIDTH && c.1 < GRID_HEIGHT
}

/// The heading that points the other way; `Noop` has none and maps to itself.
pub open spec fn opposite(d: Direction) -> Direction {
    match d {
        Direction::Noop => Direction::Noop,
        Direction::Up => Direction::Down,
        Direction::Down => Direction::Up,
        Direction::Left => Direction::Right,
        Direction::Right => Direction::Left,
    }
}

/// The cell reached from `head` by one step in direction `d`. A step that
/// would leave the grid stays on the edge cell instead.
pub open spec fn next_head(head: Coord, d: Direction) -> Coord {
    match d {
        Direction::Noop => head,
        Direction::Up => (head.0, if head.1 > 0 { (head.1 - 1) as usize } else { 0 }),
        Direction::Down => (
            head.0,
            if head.1 + 1 < GRID_HEIGHT { (head.1 + 1) as usize } else { (GRID_HEIGHT - 1) as usize },
        ),
        Direction::Left => (if head.0 > 0 { (head.0 - 1) as usize } else { 0 }, head.1),
        Direction::Right => (
            if head.0 + 1 < GRID_WIDTH { (head.0 + 1) as usize } else { (GRID_WIDTH - 1) as usize },
            head.1,
        ),
    }
}

impl Direction {
    /// The heading that points the other way.
    pub fn reversed(self) -> (r: Direction)
        ensures
            r == opposite(self),
    {
        match self {
            Direction::Noop => Direction::Noop,
            Direction::Up => Direction::Down,
            Direction::Down => Direction::Up,
            Direction::Left => Direction::Right,
            Direction::Right => Direction::Left,
        }
    }
}

impl Cell {
    /// An empty cell: no food, no snake, no heading.
    pub fn new() -> (c: Cell)
        ensures
            c == (Cell { is_food: false, is_part_of_snake: false, direction: Direction::Noop }),
    {
        Cell { is_food: false, is_part_of_snake: false, direction: Direction::Noop }
    }

    /// Sets or clears the food flag and leaves the rest as it was.
    pub fn set_is_food(&mut self, state: bool)
        ensures
            *final(self) == (Cell { is_food: state, ..*old(self) }),
    {
        self.is_food = state;
    }

    /// Sets or clears the occupancy flag and leaves the rest as it was.
    pub fn set_is_part_of_snake(&mut self, state: bool)
        ensures
            *final(self) == (Cell { is_part_of_snake: state, ..*old(self) }),
    {
        self.is_part_of_snake = state;
    }

    /// Sets the heading tag and leaves the rest as it was.
    pub fn set_direction(&mut self, direction: Direction)
        ensures
            *final(self) == (Cell { direction: direction, ..*old(self) }),
    {
        self.direction = direction;
    }
}

} // verus!
