//! The board as a list of squares to draw.

use crate::cell::{Cell, CELL_SIZE, GRID_HEIGHT, GRID_WIDTH};
use crate::game::Game;
use crate::state::Cells;
use vstd::prelude::*;

verus! {

/// How a cell is drawn.
#[derive(Clone, Copy, Debug, PartialEq, Eq, Structural)]
pub enum CellKind {
    /// A filled square in the food's colour.
    Food,
    /// A filled square in the snake's colour.
    Snake,
    /// An outlined square.
    Empty,
}

/// One square on the drawing surface.
#[derive(Clone, Copy, Debug, PartialEq, Eq, Structural)]
pub struct CellDraw {
    /// The left edge.
    pub x: i32,
    /// The top edge.
    pub y: i32,
    /// The side.
    pub size: u32,
    /// How the square is drawn.
    pub kind: CellKind,
}

/// How `cell` is drawn: a cell with food as food even where the snake lies on
/// it, an occupied cell without food as snake, any other as empty.
pub open spec fn kind_of(cell: Cell) -> CellKind {
    if cell.is_food {
        CellKind::Food
    } else if cell.is_part_of_snake {
        CellKind::Snake
    } else {
        CellKind::Empty
    }
}

/// The square for the cell at (`row`, `col`) of `cells`, on a surface where
/// the board's corner is at (`offset_x`, `offset_y`).
pub open spec fn cell_draw(cells: Cells, offset_x: i32, offset_y: i32, row: int, col: int)
    -> CellDraw {
    CellDraw {
        x: (offset_x + row * CELL_SIZE) as i32,
        y: (offset_y + col * CELL_SIZE) as i32,
        size: CELL_SIZE as u32,
        kind: kind_of(cells[row][col]),
    }
}

/// Whether a board whose corner is at `offset` along one axis stays within the
/// coordinates that the drawing surface can express.
pub open spec fn fits_surface(offset: i32) -> bool {
    offset + (GRID_WIDTH - 1) * CELL_SIZE <= i32::MAX
}

impl CellKind {
    /// How `cell` is drawn.
    pub fn of(cell: &Cell) -> (kind: CellKind)
        ensures
            kind == kind_of(*cell),
    {
        if cell.is_food {
            CellKind::Food
        } else if cell.is_part_of_snake {
            CellKind::Snake
        } else {
            CellKind::Empty
        }
    }
}

impl Game {
    /// The squares of the board, row after row, for a surface on which the
    /// board's corner is at (`offset_x`, `offset_y`). The game is not changed.
    pub fn draw_board(&self, offset_x: i32, offset_y: i32) -> (squares: Vec<CellDraw>)
        requires
            self@.wf(),
            fits_surface(offset_x),
            fits_surface(offset_y),
        ensures
            squares@.len() == GRID_HEIGHT * GRID_WIDTH,
            forall|k: int|
                0 <= k < GRID_HEIGHT * GRID_WIDTH ==> #[trigger] squares@[k] == cell_draw(
                    self@.cells,
                    offset_x,
                    offset_y,
                    k / (GRID_WIDTH as int),
                    k % (GRID_WIDTH as int),
                ),
    {
        let mut squares: Vec<CellDraw> = Vec::new();
        let mut row: usize = 0;
        while row < GRID_HEIGHT
            invariant
                row <= GRID_HEIGHT,
                self@.wf(),
                fits_surface(offset_x),
                fits_surface(offset_y),
                squares@.len() == row * GRID_WIDTH,
                forall|k: int|
                    0 <= k < row * GRID_WIDTH ==> #[trigger] squares@[k] == cell_draw(
                        self@.cells,
                        offset_x,
                        offset_y,
                        k / (GRID_WIDTH as int),
                        k % (GRID_WIDTH as int),
                    ),
            decreases GRID_HEIGHT - row,
        {
            let mut col: usize = 0;
            while col < GRID_WIDTH
                invariant
                    row < GRID_HEIGHT,
                    col <= GRID_WIDTH,
                    self@.wf(),
                    fits_surface(offset_x),
                    fits_surface(offset_y),
                    squares@.len() == row * GRID_WIDTH + col,
                    forall|k: int|
                        0 <= k < row * GRID_WIDTH + col ==> #[trigger] squares@[k] == cell_draw(
                            self@.cells,
                            offset_x,
                            offset_y,
                            k / (GRID_WIDTH as int),
                            k % (GRID_WIDTH as int),
                        ),
                decreases GRID_WIDTH - col,
            {
                assert(self@.cells[row as int].len() == GRID_WIDTH);
                let kind = match self.cell((row, col)) {
                    Some(cell) => CellKind::of(&cell),
                    None => CellKind::Empty,
                };
                squares.push(
                    CellDraw {
                        x: offset_x + (row as i32) * CELL_SIZE,
                        y: offset_y + (col as i32) * CELL_SIZE,
                        size: CELL_SIZE as u32,
                        kind,
                    },
                );
                col += 1;
            }
            row += 1;
        }
        squares
    }
}

} // verus!
