//! The mathematical model of a game: what the board, the snake and the food
//! are, which states are valid, and what one tick does to a state.

use crate::cell::{in_grid, next_head, Cell, Coord, Direction, GRID_HEIGHT, GRID_WIDTH};
use vstd::prelude::*;

verus! {

/// The board as a sequence of rows of cells, indexed by the first and then the
/// second component of a coordinate.
pub type Cells = Seq<Seq<Cell>>;

/// Whether `cells` has the dimensions of the grid.
pub open spec fn board_shaped(cells: Cells) -> bool {
    &&& cells.len() == GRID_HEIGHT
    &&& forall|x: int| 0 <= x < GRID_HEIGHT ==> (#[trigger] cells[x]).len() == GRID_WIDTH
}

/// The cell of `cells` at `c`.
pub open spec fn cell_at(cells: Cells, c: Coord) -> Cell {
    cells[c.0 as int][c.1 as int]
}

/// `cells` with the cell at `c` replaced by `cell`.
pub open spec fn put_cell(cells: Cells, c: Coord, cell: Cell) -> Cells {
    cells.update(c.0 as int, cells[c.0 as int].update(c.1 as int, cell))
}

/// `cells` with the food flag at `c` set to `state`.
pub open spec fn mark_food(cells: Cells, c: Coord, state: bool) -> Cells {
    put_cell(cells, c, Cell { is_food: state, ..cell_at(cells, c) })
}

/// `cells` with the occupancy flag at `c` set to `state`.
pub open spec fn mark_snake(cells: Cells, c: Coord, state: bool) -> Cells {
    put_cell(cells, c, Cell { is_part_of_snake: state, ..cell_at(cells, c) })
}

/// `cells` with the heading tag at `c` set to `d`.
pub open spec fn mark_direction(cells: Cells, c: Coord, d: Direction) -> Cells {
    put_cell(cells, c, Cell { direction: d, ..cell_at(cells, c) })
}

/// A row of the grid's width in which every cell is empty.
pub open spec fn empty_row() -> Seq<Cell> {
    Seq::new(
        GRID_WIDTH as nat,
        |y: int| Cell { is_food: false, is_part_of_snake: false, direction: Direction::Noop },
    )
}

/// A board of the grid's dimensions on which every cell is empty.
pub open spec fn empty_board() -> Cells {
    Seq::new(GRID_HEIGHT as nat, |x: int| empty_row())
}

/// `cells` with a segment of the starting snake placed at `c`.
pub open spec fn place_segment(cells: Cells, c: Coord) -> Cells {
    mark_direction(mark_snake(cells, c, true), c, Direction::Left)
}

/// The `i`-th segment of a snake that starts at `start` and extends towards
/// larger first components.
pub open spec fn segment(start: Coord, i: int) -> Coord {
    ((start.0 + i) as usize, start.1)
}

/// The first `n` segments of the starting snake, head first.
pub open spec fn segments(start: Coord, n: nat) -> Seq<Coord> {
    Seq::new(n, |i: int| segment(start, i))
}

/// `cells` with the first `n` segments of the starting snake placed.
pub open spec fn place_segments(cells: Cells, start: Coord, n: nat) -> Cells
    decreases n,
{
    if n == 0 {
        cells
    } else {
        place_segment(place_segments(cells, start, (n - 1) as nat), segment(start, n - 1))
    }
}

/// The whole state of a game as plain mathematical values.
pub struct GameView {
    /// The board.
    pub cells: Cells,
    /// The snake's coordinates, head first.
    pub snake: Seq<Coord>,
    /// The heading that the next tick applies.
    pub direction: Direction,
    /// Where the food lies.
    pub food: Coord,
}

impl GameView {
    /// The snake's head.
    pub open spec fn head(self) -> Coord {
        self.snake[0]
    }

    /// The snake's last segment.
    pub open spec fn tail(self) -> Coord {
        self.snake[self.snake.len() - 1]
    }

    /// The validity of a state: the board has the grid's dimensions, the snake
    /// has at least three segments and lies on the grid, the food lies on the
    /// grid, the food flag is set on the food's cell and on no other, and
    /// every cell marked occupied is a segment of the snake.
    pub open spec fn wf(self) -> bool {
        &&& board_shaped(self.cells)
        &&& self.snake.len() >= 3
        &&& forall|i: int| 0 <= i < self.snake.len() ==> in_grid(#[trigger] self.snake[i])
        &&& in_grid(self.food)
        &&& forall|c: Coord|
            in_grid(c) ==> ((#[trigger] cell_at(self.cells, c)).is_food <==> c == self.food)
        &&& forall|c: Coord|
            in_grid(c) && (#[trigger] cell_at(self.cells, c)).is_part_of_snake
                ==> self.snake.contains(c)
    }

    /// The board and the snake agree: a cell is marked occupied exactly if its
    /// coordinate is a segment of the snake.
    pub open spec fn in_step(self) -> bool {
        forall|c: Coord|
            in_grid(c) ==> ((#[trigger] cell_at(self.cells, c)).is_part_of_snake
                <==> self.snake.contains(c))
    }

    /// The state a game starts in: food at `food`, a snake of three segments
    /// from `start` towards larger first components, heading left.
    pub open spec fn initial(food: Coord, start: Coord) -> GameView {
        GameView {
            cells: place_segments(mark_food(empty_board(), food, true), start, 3),
            snake: segments(start, 3),
            direction: Direction::Left,
            food,
        }
    }

    /// The state with the heading replaced by `d`.
    pub open spec fn heading(self, d: Direction) -> GameView {
        GameView { direction: d, ..self }
    }

    /// The snake moved by one cell: the tail leaves its cell, and the cell
    /// that the head steps to becomes the new head.
    pub open spec fn moved(self) -> GameView {
        let target = next_head(self.head(), self.direction);
        GameView {
            cells: mark_snake(mark_snake(self.cells, self.tail(), false), target, true),
            snake: seq![target] + self.snake.drop_last(),
            ..self
        }
    }

    /// The food taken from its cell and laid at `to`.
    pub open spec fn relocated(self, to: Coord) -> GameView {
        GameView {
            cells: mark_food(mark_food(self.cells, self.food, false), to, true),
            food: to,
            ..self
        }
    }

    /// The snake longer by one segment. The new segment is the cell one step
    /// ahead of the head, appended at the tail end.
    pub open spec fn grown(self) -> GameView {
        let extra = next_head(self.head(), self.direction);
        GameView {
            cells: mark_snake(self.cells, extra, true),
            snake: self.snake.push(extra),
            ..self
        }
    }

    /// Whether the head's next step lands on the food.
    pub open spec fn reaches_food(self) -> bool {
        next_head(self.head(), self.direction) == self.food
    }

    /// One tick: the snake moves; if its head then lies on the food, the food
    /// is laid at `next_food` and the snake grows.
    pub open spec fn tick(self, next_food: Coord) -> GameView {
        if self.reaches_food() {
            self.moved().relocated(next_food).grown()
        } else {
            self.moved()
        }
    }
}

/// A step from a cell of the grid ends on a cell of the grid.
pub proof fn lemma_next_head_in_grid(head: Coord, d: Direction)
    requires
        in_grid(head),
    ensures
        in_grid(next_head(head, d)),
{
}

/// Replacing one cell of a board keeps its dimensions, puts the new cell at
/// that place and leaves every other cell as it was.
pub proof fn lemma_put_cell(cells: Cells, c: Coord, cell: Cell)
    requires
        board_shaped(cells),
        in_grid(c),
    ensures
        board_shaped(put_cell(cells, c, cell)),
        cell_at(put_cell(cells, c, cell), c) == cell,
        forall|d: Coord|
            in_grid(d) && d != c ==> #[trigger] cell_at(put_cell(cells, c, cell), d) == cell_at(
                cells,
                d,
            ),
{
}

/// Whether `c` is one of the first `n` segments of the starting snake.
pub open spec fn on_segments(start: Coord, n: nat, c: Coord) -> bool {
    c.1 == start.1 && start.0 <= c.0 < start.0 + n
}

/// Placing the first `n` segments marks exactly their cells occupied and
/// heading left, and changes nothing else on the board.
pub proof fn lemma_place_segments(cells: Cells, start: Coord, n: nat)
    requires
        board_shaped(cells),
        start.0 + n <= GRID_WIDTH,
        start.1 < GRID_HEIGHT,
    ensures
        board_shaped(place_segments(cells, start, n)),
        forall|c: Coord|
            in_grid(c) ==> #[trigger] cell_at(place_segments(cells, start, n), c) == (if on_segments(
                start,
                n,
                c,
            ) {
                Cell { is_part_of_snake: true, direction: Direction::Left, ..cell_at(cells, c) }
            } else {
                cell_at(cells, c)
            }),
    decreases n,
{
    if n > 0 {
        lemma_place_segments(cells, start, (n - 1) as nat);
        lemma_place_segment(place_segments(cells, start, (n - 1) as nat), segment(start, n - 1));
    }
}

/// The starting state is valid, and its board and snake agree.
pub proof fn lemma_initial_valid(food: Coord, start: Coord)
    requires
        in_grid(food),
        start.0 + 2 < GRID_WIDTH,
        start.1 < GRID_HEIGHT,
    ensures
        GameView::initial(food, start).wf(),
        GameView::initial(food, start).in_step(),
{
    let b0 = empty_board();
    let b1 = mark_food(b0, food, true);
    let g = GameView::initial(food, start);
    assert(board_shaped(b0));
    lemma_put_cell(b0, food, Cell { is_food: true, ..cell_at(b0, food) });
    lemma_place_segments(b1, start, 3);
    assert forall|c: Coord| in_grid(c) implies ((#[trigger] cell_at(g.cells, c)).is_part_of_snake
        <==> g.snake.contains(c)) by {
        assert(!cell_at(b1, c).is_part_of_snake);
        if on_segments(start, 3, c) {
            assert(g.snake[c.0 - start.0] == c);
        }
    }
    assert forall|c: Coord| in_grid(c) implies ((#[trigger] cell_at(g.cells, c)).is_food <==> c
        == g.food) by {
        assert(cell_at(g.cells, c).is_food == cell_at(b1, c).is_food);
    }
}

/// Placing a starting segment marks that cell occupied and heading left, and
/// changes no food flag and no other cell.
pub proof fn lemma_place_segment(cells: Cells, c: Coord)
    requires
        board_shaped(cells),
        in_grid(c),
    ensures
        board_shaped(place_segment(cells, c)),
        cell_at(place_segment(cells, c), c) == (Cell {
            is_part_of_snake: true,
            direction: Direction::Left,
            ..cell_at(cells, c)
        }),
        forall|d: Coord|
            in_grid(d) && d != c ==> #[trigger] cell_at(place_segment(cells, c), d) == cell_at(
                cells,
                d,
            ),
{
    let m = mark_snake(cells, c, true);
    lemma_put_cell(cells, c, Cell { is_part_of_snake: true, ..cell_at(cells, c) });
    lemma_put_cell(m, c, Cell { direction: Direction::Left, ..cell_at(m, c) });
}

/// Moving the snake by one cell keeps a valid state valid.
pub proof fn lemma_moved_valid(g: GameView)
    requires
        g.wf(),
    ensures
        g.moved().wf(),
        g.moved().snake.len() == g.snake.len(),
        g.moved().head() == next_head(g.head(), g.direction),
{
    let target = next_head(g.head(), g.direction);
    let tail = g.tail();
    let m = g.moved();
    let cleared = mark_snake(g.cells, tail, false);
    lemma_next_head_in_grid(g.head(), g.direction);
    lemma_put_cell(g.cells, tail, Cell { is_part_of_snake: false, ..cell_at(g.cells, tail) });
    lemma_put_cell(cleared, target, Cell { is_part_of_snake: true, ..cell_at(cleared, target) });
    assert(m.snake[0] == target);
    assert forall|i: int| 0 <= i < m.snake.len() implies in_grid(#[trigger] m.snake[i]) by {
        if i > 0 {
            assert(m.snake[i] == g.snake[i - 1]);
        }
    }
    assert forall|c: Coord|
        in_grid(c) && (#[trigger] cell_at(m.cells, c)).is_part_of_snake implies m.snake.contains(
        c,
    ) by {
        if c != target {
            assert(c != tail);
            assert(cell_at(g.cells, c).is_part_of_snake);
            let i = choose|i: int| 0 <= i < g.snake.len() && g.snake[i] == c;
            assert(m.snake[i + 1] == c);
        }
    }
    assert forall|c: Coord| in_grid(c) implies ((#[trigger] cell_at(m.cells, c)).is_food <==> c
        == m.food) by {
        assert(cell_at(m.cells, c).is_food == cell_at(g.cells, c).is_food);
    }
}

/// Laying the food on another cell of the grid keeps a valid state valid.
pub proof fn lemma_relocated_valid(g: GameView, to: Coord)
    requires
        g.wf(),
        in_grid(to),
    ensures
        g.relocated(to).wf(),
{
    let r = g.relocated(to);
    let lifted = mark_food(g.cells, g.food, false);
    lemma_put_cell(g.cells, g.food, Cell { is_food: false, ..cell_at(g.cells, g.food) });
    lemma_put_cell(lifted, to, Cell { is_food: true, ..cell_at(lifted, to) });
    assert forall|c: Coord|
        in_grid(c) && (#[trigger] cell_at(r.cells, c)).is_part_of_snake implies r.snake.contains(
        c,
    ) by {
        assert(cell_at(g.cells, c).is_part_of_snake);
    }
    assert forall|c: Coord| in_grid(c) implies ((#[trigger] cell_at(r.cells, c)).is_food <==> c
        == r.food) by {
        if c != to && c != g.food {
            assert(cell_at(r.cells, c).is_food == cell_at(g.cells, c).is_food);
        }
    }
}

/// Growing the snake keeps a valid state valid.
pub proof fn lemma_grown_valid(g: GameView)
    requires
        g.wf(),
    ensures
        g.grown().wf(),
        g.grown().snake.len() == g.snake.len() + 1,
{
    let extra = next_head(g.head(), g.direction);
    let w = g.grown();
    lemma_next_head_in_grid(g.head(), g.direction);
    lemma_put_cell(g.cells, extra, Cell { is_part_of_snake: true, ..cell_at(g.cells, extra) });
    assert(w.snake[g.snake.len() as int] == extra);
    assert forall|i: int| 0 <= i < w.snake.len() implies in_grid(#[trigger] w.snake[i]) by {
        if i < g.snake.len() {
            assert(w.snake[i] == g.snake[i]);
        }
    }
    assert forall|c: Coord|
        in_grid(c) && (#[trigger] cell_at(w.cells, c)).is_part_of_snake implies w.snake.contains(
        c,
    ) by {
        if c != extra {
            assert(cell_at(g.cells, c).is_part_of_snake);
            let i = choose|i: int| 0 <= i < g.snake.len() && g.snake[i] == c;
            assert(w.snake[i] == c);
        }
    }
    assert forall|c: Coord| in_grid(c) implies ((#[trigger] cell_at(w.cells, c)).is_food <==> c
        == w.food) by {
        assert(cell_at(w.cells, c).is_food == cell_at(g.cells, c).is_food);
    }
}

/// A tick keeps a valid state valid, whatever cell of the grid the food is
/// laid on.
pub proof fn lemma_tick_valid(g: GameView, next_food: Coord)
    requires
        g.wf(),
        in_grid(next_food),
    ensures
        g.tick(next_food).wf(),
{
    lemma_moved_valid(g);
    if g.reaches_food() {
        lemma_relocated_valid(g.moved(), next_food);
        lemma_grown_valid(g.moved().relocated(next_food));
    }
}

/// A tick leaves the snake's length as it was, unless the head steps onto the
/// food: then the snake is longer by exactly one segment.
pub proof fn lemma_tick_length(g: GameView, next_food: Coord)
    requires
        g.wf(),
    ensures
        g.reaches_food() ==> g.tick(next_food).snake.len() == g.snake.len() + 1,
        !g.reaches_food() ==> g.tick(next_food).snake.len() == g.snake.len(),
        g.tick(next_food).head() == next_head(g.head(), g.direction),
{
    assert(g.moved().snake[0] == next_head(g.head(), g.direction));
}

/// Whether a tick keeps the board and the snake in agreement. It does unless
/// the tail's coordinate is also that of another segment, so that clearing
/// the tail's cell clears a cell that the snake still lies on; even then it
/// does if a segment added in this tick marks that cell again.
pub open spec fn tail_leaves_cleanly(g: GameView) -> bool {
    let target = next_head(g.head(), g.direction);
    ||| !g.snake.drop_last().contains(g.tail())
    ||| g.tail() == target
    ||| (g.reaches_food() && g.tail() == next_head(target, g.direction))
}

/// If the board and the snake agree before a tick, and the tail leaves
/// cleanly, they agree after it: the cells marked occupied are exactly the
/// snake's segments.
pub proof fn lemma_tick_keeps_in_step(g: GameView, next_food: Coord)
    requires
        g.wf(),
        g.in_step(),
        in_grid(next_food),
        tail_leaves_cleanly(g),
    ensures
        g.tick(next_food).in_step(),
{
    let target = next_head(g.head(), g.direction);
    let tail = g.tail();
    let m = g.moved();
    let cleared = mark_snake(g.cells, tail, false);
    lemma_next_head_in_grid(g.head(), g.direction);
    lemma_moved_valid(g);
    lemma_put_cell(g.cells, tail, Cell { is_part_of_snake: false, ..cell_at(g.cells, tail) });
    lemma_put_cell(cleared, target, Cell { is_part_of_snake: true, ..cell_at(cleared, target) });
    assert(m.snake[0] == target);
    if g.reaches_food() {
        let r = m.relocated(next_food);
        let lifted = mark_food(m.cells, m.food, false);
        let extra = next_head(target, g.direction);
        let t = r.grown();
        lemma_next_head_in_grid(target, g.direction);
        lemma_relocated_valid(m, next_food);
        lemma_grown_valid(r);
        lemma_put_cell(m.cells, m.food, Cell { is_food: false, ..cell_at(m.cells, m.food) });
        lemma_put_cell(lifted, next_food, Cell { is_food: true, ..cell_at(lifted, next_food) });
        lemma_put_cell(r.cells, extra, Cell { is_part_of_snake: true, ..cell_at(r.cells, extra) });
        assert(t.snake[m.snake.len() as int] == extra);
        assert(g.tick(next_food) == t);
        assert forall|c: Coord| in_grid(c) implies ((#[trigger] cell_at(
            t.cells,
            c,
        )).is_part_of_snake <==> t.snake.contains(c)) by {
            if c != extra && c != target {
                assert(cell_at(r.cells, c).is_part_of_snake == cell_at(m.cells, c).is_part_of_snake);
                if t.snake.contains(c) {
                    let i = choose|i: int| 0 <= i < t.snake.len() && t.snake[i] == c;
                    assert(0 < i < m.snake.len());
                    assert(g.snake.drop_last()[i - 1] == c);
                    assert(g.snake[i - 1] == c);
                }
            } else if c == target {
                assert(cell_at(r.cells, c).is_part_of_snake == cell_at(m.cells, c).is_part_of_snake);
                assert(t.snake[0] == c);
            }
        }
    } else {
        assert(g.tick(next_food) == m);
        assert forall|c: Coord| in_grid(c) implies ((#[trigger] cell_at(
            m.cells,
            c,
        )).is_part_of_snake <==> m.snake.contains(c)) by {
            if c != target {
                if m.snake.contains(c) {
                    let i = choose|i: int| 0 <= i < m.snake.len() && m.snake[i] == c;
                    assert(g.snake.drop_last()[i - 1] == c);
                    assert(g.snake[i - 1] == c);
                }
            }
        }
    }
}

/// A tick in which the head reaches the food lays the food at `next_food`:
/// afterwards that cell carries the food flag and no other cell does, so the
/// cell the food lay on has lost it unless the food was laid there again. A
/// tick in which the head does not reach the food leaves the food alone.
pub proof fn lemma_tick_food(g: GameView, next_food: Coord)
    requires
        g.wf(),
        in_grid(next_food),
    ensures
        g.reaches_food() ==> g.tick(next_food).food == next_food,
        !g.reaches_food() ==> g.tick(next_food).food == g.food,
        forall|c: Coord|
            in_grid(c) ==> ((#[trigger] cell_at(g.tick(next_food).cells, c)).is_food <==> c
                == g.tick(next_food).food),
        g.reaches_food() && next_food != g.food ==> !cell_at(
            g.tick(next_food).cells,
            g.food,
        ).is_food,
{
    lemma_tick_valid(g, next_food);
}

/// A step against an edge of the grid holds the position: it neither leaves
/// the grid nor comes out on the far side.
pub proof fn lemma_step_holds_at_edge(head: Coord, d: Direction)
    requires
        in_grid(head),
    ensures
        d == Direction::Left && head.0 == 0 ==> next_head(head, d) == head,
        d == Direction::Right && head.0 == GRID_WIDTH - 1 ==> next_head(head, d) == head,
        d == Direction::Up && head.1 == 0 ==> next_head(head, d) == head,
        d == Direction::Down && head.1 == GRID_HEIGHT - 1 ==> next_head(head, d) == head,
        d == Direction::Noop ==> next_head(head, d) == head,
{
}

/// A snake that lies on no cell twice has a tail that leaves cleanly.
pub proof fn lemma_distinct_segments_leave_cleanly(g: GameView)
    requires
        g.wf(),
        g.snake.no_duplicates(),
    ensures
        tail_leaves_cleanly(g),
{
    if g.snake.drop_last().contains(g.tail()) {
        let i = choose|i: int|
            0 <= i < g.snake.drop_last().len() && g.snake.drop_last()[i] == g.tail();
        assert(g.snake[i] == g.snake[g.snake.len() - 1]);
    }
}

/// If the board and the snake agree before a tick and the tail does not
/// leave cleanly, they disagree after it: the tail's cell is cleared although
/// another segment still lies on it.
pub proof fn lemma_tick_falls_out_of_step(g: GameView, next_food: Coord)
    requires
        g.wf(),
        g.in_step(),
        in_grid(next_food),
        !tail_leaves_cleanly(g),
    ensures
        g.tick(next_food).snake.contains(g.tail()),
        !cell_at(g.tick(next_food).cells, g.tail()).is_part_of_snake,
        !g.tick(next_food).in_step(),
{
    let target = next_head(g.head(), g.direction);
    let tail = g.tail();
    let m = g.moved();
    let cleared = mark_snake(g.cells, tail, false);
    lemma_next_head_in_grid(g.head(), g.direction);
    lemma_moved_valid(g);
    lemma_put_cell(g.cells, tail, Cell { is_part_of_snake: false, ..cell_at(g.cells, tail) });
    lemma_put_cell(cleared, target, Cell { is_part_of_snake: true, ..cell_at(cleared, target) });
    let i = choose|i: int| 0 <= i < g.snake.drop_last().len() && g.snake.drop_last()[i] == tail;
    assert(m.snake[i + 1] == tail);
    assert(!cell_at(m.cells, tail).is_part_of_snake);
    if g.reaches_food() {
        let r = m.relocated(next_food);
        let lifted = mark_food(m.cells, m.food, false);
        let extra = next_head(target, g.direction);
        let t = r.grown();
        lemma_next_head_in_grid(target, g.direction);
        lemma_relocated_valid(m, next_food);
        lemma_put_cell(m.cells, m.food, Cell { is_food: false, ..cell_at(m.cells, m.food) });
        lemma_put_cell(lifted, next_food, Cell { is_food: true, ..cell_at(lifted, next_food) });
        lemma_put_cell(r.cells, extra, Cell { is_part_of_snake: true, ..cell_at(r.cells, extra) });
        assert(m.snake[0] == target);
        assert(g.tick(next_food) == t);
        assert(t.snake[i + 1] == tail);
        assert(cell_at(r.cells, tail).is_part_of_snake == cell_at(m.cells, tail).is_part_of_snake);
    }
}

} // verus!
