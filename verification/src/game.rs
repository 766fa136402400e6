//! The game itself: the board, the snake, the heading and the food, and the
//! steps that change them.

use crate::cell::{in_grid, next_head, Cell, Coord, Direction, GRID_HEIGHT, GRID_WIDTH};
use crate::random::random_in_range;
use crate::state::{
    board_shaped, cell_at, empty_board, empty_row, lemma_grown_valid, lemma_initial_valid,
    lemma_moved_valid, lemma_place_segments, lemma_relocated_valid, lemma_tick_keeps_in_step,
    lemma_tick_length, lemma_tick_valid, mark_direction, mark_food, mark_snake, place_segments,
    segments, tail_leaves_cleanly, Cells, GameView,
};
use std::collections::VecDeque;
use vstd::prelude::*;

verus! {

/// A game in progress.
#[derive(Debug)]
pub struct Game {
    board: Vec<Vec<Cell>>,
    snake: VecDeque<(usize, usize)>,
    current_direction: Direction,
    food: (usize, usize),
}

/// The rows of a board as a sequence of sequences of cells.
pub open spec fn rows(board: &Vec<Vec<Cell>>) -> Cells {
    Seq::new(board@.len(), |x: int| board@[x]@)
}

impl View for Game {
    type V = GameView;

    closed spec fn view(&self) -> GameView {
        GameView {
            cells: rows(&self.board),
            snake: self.snake@,
            direction: self.current_direction,
            food: self.food,
        }
    }
}

/// Builds a board on which every cell is empty.
fn new_board() -> (board: Vec<Vec<Cell>>)
    ensures
        rows(&board) == empty_board(),
{
    let mut board: Vec<Vec<Cell>> = Vec::new();
    let mut x: usize = 0;
    while x < GRID_HEIGHT
        invariant
            x <= GRID_HEIGHT,
            board@.len() == x,
            forall|i: int| 0 <= i < x ==> (#[trigger] board@[i])@ == empty_row(),
        decreases GRID_HEIGHT - x,
    {
        let mut row: Vec<Cell> = Vec::new();
        let mut y: usize = 0;
        while y < GRID_WIDTH
            invariant
                y <= GRID_WIDTH,
                row@.len() == y,
                forall|j: int| 0 <= j < y ==> #[trigger] row@[j] == empty_row()[j],
            decreases GRID_WIDTH - y,
        {
            row.push(Cell::new());
            y += 1;
        }
        assert(row@ =~= empty_row());
        board.push(row);
        x += 1;
    }
    assert(rows(&board) =~= empty_board());
    board
}

/// Sets the food flag of the cell at `c`.
fn set_food_flag(board: &mut Vec<Vec<Cell>>, c: Coord, state: bool)
    requires
        board_shaped(rows(old(board))),
        in_grid(c),
    ensures
        rows(final(board)) == mark_food(rows(old(board)), c, state),
        board_shaped(rows(final(board))),
{
    assert(rows(board)[c.0 as int].len() == GRID_WIDTH);
    board[c.0][c.1].set_is_food(state);
    assert(rows(board) =~~= mark_food(rows(old(board)), c, state));
}

/// Sets the occupancy flag of the cell at `c`.
fn set_snake_flag(board: &mut Vec<Vec<Cell>>, c: Coord, state: bool)
    requires
        board_shaped(rows(old(board))),
        in_grid(c),
    ensures
        rows(final(board)) == mark_snake(rows(old(board)), c, state),
        board_shaped(rows(final(board))),
{
    assert(rows(board)[c.0 as int].len() == GRID_WIDTH);
    board[c.0][c.1].set_is_part_of_snake(state);
    assert(rows(board) =~~= mark_snake(rows(old(board)), c, state));
}

/// Sets the heading tag of the cell at `c`.
fn set_direction_tag(board: &mut Vec<Vec<Cell>>, c: Coord, direction: Direction)
    requires
        board_shaped(rows(old(board))),
        in_grid(c),
    ensures
        rows(final(board)) == mark_direction(rows(old(board)), c, direction),
        board_shaped(rows(final(board))),
{
    assert(rows(board)[c.0 as int].len() == GRID_WIDTH);
    board[c.0][c.1].set_direction(direction);
    assert(rows(board) =~~= mark_direction(rows(old(board)), c, direction));
}

impl Game {
    /// Starts a game with the food on a random cell of the grid and the snake
    /// at a random place at least three cells away from every edge.
    pub fn new() -> (game: Game)
        ensures
            game@.wf(),
            game@.in_step(),
            exists|food: Coord, start: Coord|
                in_grid(food) && 3 <= start.0 < GRID_WIDTH - 3 && 3 <= start.1 < GRID_HEIGHT - 3
                    && game@ == GameView::initial(food, start),
    {
        let food = Self::get_food_location();
        let start_x = random_in_range(3, GRID_WIDTH as i32 - 3) as usize;
        let start_y = random_in_range(3, GRID_HEIGHT as i32 - 3) as usize;
        Self::with_layout(food, (start_x, start_y))
    }

    /// Starts a game with the food at `food` and a snake of three segments
    /// whose head is at `start`, the others following towards larger first
    /// components, heading left.
    pub fn with_layout(food: Coord, start: Coord) -> (game: Game)
        requires
            in_grid(food),
            start.0 + 2 < GRID_WIDTH,
            start.1 < GRID_HEIGHT,
        ensures
            game@ == GameView::initial(food, start),
            game@.wf(),
            game@.in_step(),
    {
        let mut board = new_board();
        set_food_flag(&mut board, food, true);
        let ghost base = rows(&board);
        let mut snake: VecDeque<(usize, usize)> = VecDeque::new();
        let mut i: usize = 0;
        while i < 3
            invariant
                i <= 3,
                start.0 + 2 < GRID_WIDTH,
                start.1 < GRID_HEIGHT,
                board_shaped(base),
                rows(&board) == place_segments(base, start, i as nat),
                snake@ == segments(start, i as nat),
            decreases 3 - i,
        {
            proof {
                lemma_place_segments(base, start, i as nat);
            }
            let c = (start.0 + i, start.1);
            set_snake_flag(&mut board, c, true);
            set_direction_tag(&mut board, c, Direction::Left);
            snake.push_back(c);
            i += 1;
            assert(snake@ =~= segments(start, i as nat));
        }
        proof {
            lemma_initial_valid(food, start);
        }
        Game { board, snake, current_direction: Direction::Left, food }
    }

    /// Draws a random cell of the grid for the food.
    pub fn get_food_location() -> (c: Coord)
        ensures
            in_grid(c),
    {
        let x = random_in_range(0, GRID_WIDTH as i32) as usize;
        let y = random_in_range(0, GRID_HEIGHT as i32) as usize;
        (x, y)
    }

    /// Makes `direction` the heading, whatever the heading was.
    pub fn move_snake(&mut self, direction: Direction)
        ensures
            final(self)@ == old(self)@.heading(direction),
            old(self)@.wf() ==> final(self)@.wf(),
            old(self)@.in_step() ==> final(self)@.in_step(),
    {
        self.current_direction = direction;
    }

    /// The cell that the head reaches by one step in `direction`.
    pub fn calculate_new_head(&self, direction: &Direction) -> (c: Coord)
        requires
            self@.wf(),
        ensures
            c == next_head(self@.head(), *direction),
            in_grid(c),
    {
        let head = self.snake[0];
        let head_x = head.0;
        let head_y = head.1;
        match direction {
            Direction::Up => {
                let new_y = if head_y > 0 { head_y - 1 } else { 0 };
                (head_x, new_y)
            },
            Direction::Down => {
                let new_y = if head_y + 1 < GRID_HEIGHT { head_y + 1 } else { GRID_HEIGHT - 1 };
                (head_x, new_y)
            },
            Direction::Left => {
                let new_x = if head_x > 0 { head_x - 1 } else { 0 };
                (new_x, head_y)
            },
            Direction::Right => {
                let new_x = if head_x + 1 < GRID_WIDTH { head_x + 1 } else { GRID_WIDTH - 1 };
                (new_x, head_y)
            },
            Direction::Noop => (head_x, head_y),
        }
    }

    /// Advances the game by one tick; where the head reaches the food, the food
    /// is laid on a random cell of the grid.
    pub fn update(&mut self)
        requires
            old(self)@.wf(),
        ensures
            final(self)@.wf(),
            exists|next_food: Coord|
                in_grid(next_food) && final(self)@ == old(self)@.tick(next_food),
            !old(self)@.reaches_food() ==> final(self)@ == old(self)@.moved(),
            final(self)@.snake.len() == old(self)@.snake.len() + (if old(self)@.reaches_food() {
                1int
            } else {
                0int
            }),
            old(self)@.in_step() && tail_leaves_cleanly(old(self)@) ==> final(self)@.in_step(),
    {
        let target = self.calculate_new_head(&self.current_direction);
        let next_food = if self.food.0 == target.0 && self.food.1 == target.1 {
            Self::get_food_location()
        } else {
            self.food
        };
        proof {
            lemma_tick_length(self@, next_food);
        }
        self.update_with(next_food);
    }

    /// Advances the game by one tick: the snake moves by one cell, and if its
    /// head then lies on the food, the food is laid at `next_food` and the
    /// snake grows.
    pub fn update_with(&mut self, next_food: Coord)
        requires
            old(self)@.wf(),
            in_grid(next_food),
        ensures
            final(self)@ == old(self)@.tick(next_food),
            final(self)@.wf(),
            old(self)@.in_step() && tail_leaves_cleanly(old(self)@) ==> final(self)@.in_step(),
    {
        let target = self.calculate_new_head(&self.current_direction);
        proof {
            lemma_moved_valid(self@);
            lemma_tick_valid(self@, next_food);
            if self@.in_step() && tail_leaves_cleanly(self@) {
                lemma_tick_keeps_in_step(self@, next_food);
            }
        }
        match self.snake.pop_back() {
            Some(tail) => {
                set_snake_flag(&mut self.board, tail, false);
            },
            None => {},
        }
        set_snake_flag(&mut self.board, target, true);
        self.snake.push_front(target);
        assert(self@ =~= old(self)@.moved());
        if self.food.0 == target.0 && self.food.1 == target.1 {
            self.relocate_food(next_food);
            self.grow_snake();
        }
    }

    /// Takes the food from its cell and lays it at `to`.
    pub fn relocate_food(&mut self, to: Coord)
        requires
            old(self)@.wf(),
            in_grid(to),
        ensures
            final(self)@ == old(self)@.relocated(to),
            final(self)@.wf(),
    {
        proof {
            lemma_relocated_valid(self@, to);
        }
        let from = self.food;
        set_food_flag(&mut self.board, from, false);
        set_food_flag(&mut self.board, to, true);
        self.food = to;
    }

    /// Lengthens the snake by one segment: the cell one step ahead of the head
    /// is marked occupied and appended at the tail end.
    pub fn grow_snake(&mut self)
        requires
            old(self)@.wf(),
        ensures
            final(self)@ == old(self)@.grown(),
            final(self)@.wf(),
    {
        proof {
            lemma_grown_valid(self@);
        }
        let extra = self.calculate_new_head(&self.current_direction);
        set_snake_flag(&mut self.board, extra, true);
        self.snake.push_back(extra);
    }
    /// Where the food lies.
    pub fn food(&self) -> (c: Coord)
        ensures
            c == self@.food,
    {
        self.food
    }

    /// The heading that the next tick applies.
    pub fn current_direction(&self) -> (d: Direction)
        ensures
            d == self@.direction,
    {
        self.current_direction
    }

    /// The number of segments of the snake.
    pub fn snake_len(&self) -> (n: usize)
        ensures
            n == self@.snake.len(),
    {
        self.snake.len()
    }

    /// The snake's head, or `None` if the snake has no segment.
    pub fn head(&self) -> (c: Option<Coord>)
        ensures
            c == (if self@.snake.len() > 0 {
                Some(self@.head())
            } else {
                None
            }),
    {
        if self.snake.len() > 0 {
            Some(self.snake[0])
        } else {
            None
        }
    }

    /// The snake's segments, head first.
    pub fn snake(&self) -> (segments: Vec<Coord>)
        ensures
            segments@ == self@.snake,
    {
        let mut segments: Vec<Coord> = Vec::new();
        let n = self.snake.len();
        let mut i: usize = 0;
        while i < n
            invariant
                i <= n,
                n == self.snake@.len(),
                segments@ == self.snake@.subrange(0, i as int),
            decreases n - i,
        {
            segments.push(self.snake[i]);
            i += 1;
            assert(segments@ =~= self.snake@.subrange(0, i as int));
        }
        assert(segments@ =~= self.snake@);
        segments
    }

    /// The cell at `c`, or `None` if `c` lies off the board.
    pub fn cell(&self, c: Coord) -> (cell: Option<Cell>)
        ensures
            cell == (if c.0 < self@.cells.len() && c.1 < self@.cells[c.0 as int].len() {
                Some(cell_at(self@.cells, c))
            } else {
                None
            }),
    {
        if c.0 < self.board.len() && c.1 < self.board[c.0].len() {
            Some(self.board[c.0][c.1])
        } else {
            None
        }
    }
    /// Whether the snake has a segment at `c`.
    pub fn snake_covers(&self, c: Coord) -> (covers: bool)
        ensures
            covers == self@.snake.contains(c),
    {
        let mut i: usize = 0;
        while i < self.snake.len()
            invariant
                i <= self.snake@.len(),
                forall|j: int| 0 <= j < i ==> self.snake@[j] != c,
            decreases self.snake@.len() - i,
        {
            let segment = self.snake[i];
            if segment.0 == c.0 && segment.1 == c.1 {
                return true;
            }
            i += 1;
        }
        false
    }

    /// Whether the board and the snake agree: whether the cells marked
    /// occupied are exactly the snake's segments.
    pub fn board_matches_snake(&self) -> (agree: bool)
        requires
            self@.wf(),
        ensures
            agree == self@.in_step(),
    {
        let mut x: usize = 0;
        while x < GRID_WIDTH
            invariant
                x <= GRID_WIDTH,
                self@.wf(),
                forall|c: Coord|
                    in_grid(c) && c.0 < x ==> ((#[trigger] cell_at(
                        self@.cells,
                        c,
                    )).is_part_of_snake <==> self@.snake.contains(c)),
            decreases GRID_WIDTH - x,
        {
            let mut y: usize = 0;
            while y < GRID_HEIGHT
                invariant
                    x < GRID_WIDTH,
                    y <= GRID_HEIGHT,
                    self@.wf(),
                    forall|c: Coord|
                        in_grid(c) && (c.0 < x || (c.0 == x && c.1 < y)) ==> ((#[trigger] cell_at(
                            self@.cells,
                            c,
                        )).is_part_of_snake <==> self@.snake.contains(c)),
                decreases GRID_HEIGHT - y,
            {
                assert(self@.cells[x as int].len() == GRID_WIDTH);
                let marked = self.board[x][y].is_part_of_snake;
                let covered = self.snake_covers((x, y));
                if marked != covered {
                    assert(cell_at(self@.cells, (x, y)).is_part_of_snake == marked);
                    return false;
                }
                y += 1;
            }
            x += 1;
        }
        true
    }
}

impl Clone for Game {
    /// A game in the same state.
    fn clone(&self) -> (copy: Game)
        ensures
            copy@ == self@,
    {
        let mut board: Vec<Vec<Cell>> = Vec::new();
        let mut x: usize = 0;
        while x < self.board.len()
            invariant
                x <= self.board@.len(),
                board@.len() == x,
                forall|i: int| 0 <= i < x ==> (#[trigger] board@[i])@ == self.board@[i]@,
            decreases self.board@.len() - x,
        {
            let mut row: Vec<Cell> = Vec::new();
            let mut y: usize = 0;
            while y < self.board[x].len()
                invariant
                    x < self.board@.len(),
                    y <= self.board@[x as int]@.len(),
                    row@.len() == y,
                    forall|j: int| 0 <= j < y ==> #[trigger] row@[j] == self.board@[x as int]@[j],
                decreases self.board@[x as int]@.len() - y,
            {
                row.push(self.board[x][y]);
                y += 1;
            }
            assert(row@ =~= self.board@[x as int]@);
            board.push(row);
            x += 1;
        }
        let mut snake: VecDeque<(usize, usize)> = VecDeque::new();
        let mut i: usize = 0;
        while i < self.snake.len()
            invariant
                i <= self.snake@.len(),
                snake@ == self.snake@.subrange(0, i as int),
            decreases self.snake@.len() - i,
        {
            snake.push_back(self.snake[i]);
            i += 1;
            assert(snake@ =~= self.snake@.subrange(0, i as int));
        }
        assert(snake@ =~= self.snake@);
        assert(rows(&board) =~= rows(&self.board));
        Game { board, snake, current_direction: self.current_direction, food: self.food }
    }
}

} // verus!
