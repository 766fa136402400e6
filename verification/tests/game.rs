use snake_game::cell::{Cell, Coord, Direction, GRID_HEIGHT, GRID_WIDTH};
use snake_game::game::Game;

fn occupied(game: &Game, c: Coord) -> bool {
    game.cell(c).unwrap().is_part_of_snake
}

fn has_food(game: &Game, c: Coord) -> bool {
    game.cell(c).unwrap().is_food
}

fn food_cells(game: &Game) -> Vec<Coord> {
    let mut found = Vec::new();
    for x in 0..GRID_WIDTH {
        for y in 0..GRID_HEIGHT {
            if has_food(game, (x, y)) {
                found.push((x, y));
            }
        }
    }
    found
}

fn occupied_cells(game: &Game) -> Vec<Coord> {
    let mut found = Vec::new();
    for x in 0..GRID_WIDTH {
        for y in 0..GRID_HEIGHT {
            if occupied(game, (x, y)) {
                found.push((x, y));
            }
        }
    }
    found
}

fn board_matches_snake(game: &Game) -> bool {
    let snake = game.snake();
    let mut agree = true;
    for x in 0..GRID_WIDTH {
        for y in 0..GRID_HEIGHT {
            assert_eq!(game.snake_covers((x, y)), snake.contains(&(x, y)));
            if occupied(game, (x, y)) != snake.contains(&(x, y)) {
                agree = false;
            }
        }
    }
    assert_eq!(game.board_matches_snake(), agree);
    agree
}

#[test]
fn cell_starts_empty() {
    let cell = Cell::new();
    assert!(!cell.is_food);
    assert!(!cell.is_part_of_snake);
    assert_eq!(cell.direction, Direction::Noop);
}

#[test]
fn cell_setters_change_one_field() {
    let mut cell = Cell::new();
    cell.set_is_food(true);
    assert_eq!(
        cell,
        Cell { is_food: true, is_part_of_snake: false, direction: Direction::Noop }
    );
    cell.set_is_part_of_snake(true);
    assert_eq!(
        cell,
        Cell { is_food: true, is_part_of_snake: true, direction: Direction::Noop }
    );
    cell.set_direction(Direction::Up);
    assert_eq!(
        cell,
        Cell { is_food: true, is_part_of_snake: true, direction: Direction::Up }
    );
    cell.set_is_food(false);
    assert_eq!(
        cell,
        Cell { is_food: false, is_part_of_snake: true, direction: Direction::Up }
    );
}

#[test]
fn direction_reversed() {
    assert_eq!(Direction::Up.reversed(), Direction::Down);
    assert_eq!(Direction::Down.reversed(), Direction::Up);
    assert_eq!(Direction::Left.reversed(), Direction::Right);
    assert_eq!(Direction::Right.reversed(), Direction::Left);
    assert_eq!(Direction::Noop.reversed(), Direction::Noop);
}

#[test]
fn layout_places_snake_and_food() {
    let game = Game::with_layout((10, 10), (5, 5));
    assert_eq!(game.snake(), vec![(5, 5), (6, 5), (7, 5)]);
    assert_eq!(game.snake_len(), 3);
    assert_eq!(game.head(), Some((5, 5)));
    assert_eq!(game.current_direction(), Direction::Left);
    assert_eq!(game.food(), (10, 10));
    assert_eq!(food_cells(&game), vec![(10, 10)]);
    assert_eq!(occupied_cells(&game), vec![(5, 5), (6, 5), (7, 5)]);
    for c in [(5, 5), (6, 5), (7, 5)] {
        assert_eq!(game.cell(c).unwrap().direction, Direction::Left);
    }
    assert_eq!(game.cell((4, 5)).unwrap(), Cell::new());
}

#[test]
fn layout_allows_food_under_snake() {
    let game = Game::with_layout((6, 5), (5, 5));
    assert_eq!(
        game.cell((6, 5)).unwrap(),
        Cell { is_food: true, is_part_of_snake: true, direction: Direction::Left }
    );
    assert_eq!(food_cells(&game), vec![(6, 5)]);
}

#[test]
fn cell_off_board_is_none() {
    let game = Game::with_layout((10, 10), (5, 5));
    assert_eq!(game.cell((GRID_WIDTH, 0)), None);
    assert_eq!(game.cell((0, GRID_HEIGHT)), None);
    assert!(game.cell((GRID_WIDTH - 1, GRID_HEIGHT - 1)).is_some());
}

#[test]
fn one_tick_moves_snake_left() {
    let mut game = Game::with_layout((10, 10), (5, 5));
    game.update();
    assert_eq!(game.snake(), vec![(4, 5), (5, 5), (6, 5)]);
    assert_eq!(game.head(), Some((4, 5)));
    assert!(!occupied(&game, (7, 5)));
    assert!(occupied(&game, (4, 5)));
    assert_eq!(occupied_cells(&game), vec![(4, 5), (5, 5), (6, 5)]);
    assert_eq!(game.food(), (10, 10));
    assert_eq!(game.current_direction(), Direction::Left);
}

#[test]
fn one_tick_with_given_food_moves_snake_left() {
    let mut game = Game::with_layout((10, 10), (5, 5));
    game.update_with((0, 0));
    assert_eq!(game.snake(), vec![(4, 5), (5, 5), (6, 5)]);
    assert_eq!(game.food(), (10, 10));
    assert_eq!(food_cells(&game), vec![(10, 10)]);
}

#[test]
fn new_head_in_each_direction() {
    let game = Game::with_layout((10, 10), (5, 5));
    assert_eq!(game.calculate_new_head(&Direction::Up), (5, 4));
    assert_eq!(game.calculate_new_head(&Direction::Down), (5, 6));
    assert_eq!(game.calculate_new_head(&Direction::Left), (4, 5));
    assert_eq!(game.calculate_new_head(&Direction::Right), (6, 5));
    assert_eq!(game.calculate_new_head(&Direction::Noop), (5, 5));
}

#[test]
fn new_head_holds_at_each_edge() {
    let game = Game::with_layout((10, 10), (0, 0));
    assert_eq!(game.calculate_new_head(&Direction::Left), (0, 0));
    assert_eq!(game.calculate_new_head(&Direction::Up), (0, 0));
    let mut game = Game::with_layout((10, 10), (GRID_WIDTH - 3, GRID_HEIGHT - 1));
    assert_eq!(game.calculate_new_head(&Direction::Down), (GRID_WIDTH - 3, GRID_HEIGHT - 1));
    game.move_snake(Direction::Right);
    game.update();
    game.update();
    assert_eq!(game.head(), Some((GRID_WIDTH - 1, GRID_HEIGHT - 1)));
    assert_eq!(
        game.calculate_new_head(&Direction::Right),
        (GRID_WIDTH - 1, GRID_HEIGHT - 1)
    );
}

#[test]
fn left_edge_holds_position() {
    let mut game = Game::with_layout((10, 10), (0, 5));
    game.update();
    assert_eq!(game.head(), Some((0, 5)));
    assert_eq!(game.snake(), vec![(0, 5), (0, 5), (1, 5)]);
    game.update();
    game.update();
    assert_eq!(game.snake(), vec![(0, 5), (0, 5), (0, 5)]);
    assert_eq!(occupied_cells(&game), vec![(0, 5)]);
}

#[test]
fn right_edge_holds_position() {
    let mut game = Game::with_layout((10, 10), (29, 5));
    game.move_snake(Direction::Right);
    game.update();
    assert_eq!(game.head(), Some((30, 5)));
    game.update();
    assert_eq!(game.head(), Some((31, 5)));
    game.update();
    assert_eq!(game.head(), Some((31, 5)));
    assert_eq!(game.snake_len(), 3);
}

#[test]
fn top_and_bottom_edges_hold_position() {
    let mut game = Game::with_layout((10, 10), (5, 1));
    game.move_snake(Direction::Up);
    game.update();
    assert_eq!(game.head(), Some((5, 0)));
    game.update();
    assert_eq!(game.head(), Some((5, 0)));
    let mut game = Game::with_layout((10, 10), (5, 30));
    game.move_snake(Direction::Down);
    game.update();
    assert_eq!(game.head(), Some((5, 31)));
    game.update();
    assert_eq!(game.head(), Some((5, 31)));
}

#[test]
fn noop_heading_keeps_head() {
    let mut game = Game::with_layout((10, 10), (5, 5));
    game.move_snake(Direction::Noop);
    game.update();
    assert_eq!(game.snake(), vec![(5, 5), (5, 5), (6, 5)]);
}

#[test]
fn eating_food_grows_and_relocates() {
    let mut game = Game::with_layout((4, 5), (5, 5));
    game.update_with((20, 21));
    assert_eq!(game.snake(), vec![(4, 5), (5, 5), (6, 5), (3, 5)]);
    assert_eq!(game.snake_len(), 4);
    assert_eq!(game.food(), (20, 21));
    assert!(!has_food(&game, (4, 5)));
    assert!(has_food(&game, (20, 21)));
    assert_eq!(food_cells(&game), vec![(20, 21)]);
    assert_eq!(occupied_cells(&game), vec![(3, 5), (4, 5), (5, 5), (6, 5)]);
}

#[test]
fn food_may_return_to_the_same_cell() {
    let mut game = Game::with_layout((4, 5), (5, 5));
    game.update_with((4, 5));
    assert_eq!(game.food(), (4, 5));
    assert_eq!(food_cells(&game), vec![(4, 5)]);
    assert_eq!(game.snake_len(), 4);
}

#[test]
fn eating_with_random_food_keeps_one_food_cell() {
    for _ in 0..200 {
        let mut game = Game::with_layout((4, 5), (5, 5));
        game.update();
        assert_eq!(game.snake_len(), 4);
        let food = game.food();
        assert!(food.0 < GRID_WIDTH && food.1 < GRID_HEIGHT);
        assert_eq!(food_cells(&game), vec![food]);
        if food != (4, 5) {
            assert!(!has_food(&game, (4, 5)));
        }
    }
}

#[test]
fn length_changes_only_on_food() {
    let mut game = Game::with_layout((2, 5), (5, 5));
    let mut expected = 3;
    for tick in 0..6 {
        let target = game.calculate_new_head(&game.current_direction());
        let eats = target == game.food();
        game.update_with((31, 31));
        if eats {
            expected += 1;
        }
        assert_eq!(game.snake_len(), expected, "tick {}", tick);
    }
    assert_eq!(expected, 4);
}

#[test]
fn grow_adds_cell_ahead_of_head() {
    let mut game = Game::with_layout((10, 10), (5, 5));
    game.grow_snake();
    assert_eq!(game.snake(), vec![(5, 5), (6, 5), (7, 5), (4, 5)]);
    assert!(occupied(&game, (4, 5)));
}

#[test]
fn relocate_food_moves_the_flag() {
    let mut game = Game::with_layout((10, 10), (5, 5));
    game.relocate_food((1, 2));
    assert_eq!(game.food(), (1, 2));
    assert_eq!(food_cells(&game), vec![(1, 2)]);
}

#[test]
fn move_snake_sets_heading() {
    let mut game = Game::with_layout((10, 10), (5, 5));
    game.move_snake(Direction::Right);
    assert_eq!(game.current_direction(), Direction::Right);
    game.move_snake(Direction::Up);
    assert_eq!(game.current_direction(), Direction::Up);
    assert_eq!(game.snake(), vec![(5, 5), (6, 5), (7, 5)]);
}

#[test]
fn board_matches_snake_on_a_winding_path() {
    let mut game = Game::with_layout((31, 31), (10, 10));
    assert!(board_matches_snake(&game));
    let path = [
        Direction::Left,
        Direction::Left,
        Direction::Up,
        Direction::Up,
        Direction::Right,
        Direction::Right,
        Direction::Right,
        Direction::Down,
        Direction::Down,
        Direction::Down,
        Direction::Left,
    ];
    for d in path {
        game.move_snake(d);
        game.update();
        assert!(board_matches_snake(&game));
        assert_eq!(game.snake_len(), 3);
    }
}

#[test]
fn occupied_cells_are_segments_after_random_play() {
    let headings = [Direction::Up, Direction::Down, Direction::Left, Direction::Right];
    let mut state: u64 = 0x2545F4914F6CDD1D;
    let mut game = Game::with_layout((12, 12), (10, 10));
    for _ in 0..5000 {
        state ^= state << 13;
        state ^= state >> 7;
        state ^= state << 17;
        let d = headings[(state % 4) as usize];
        if d.reversed() != game.current_direction() {
            game.move_snake(d);
        }
        let before = game.snake_len();
        let eats = game.calculate_new_head(&game.current_direction()) == game.food();
        game.update();
        assert_eq!(game.snake_len(), before + if eats { 1 } else { 0 });
        let snake = game.snake();
        for c in occupied_cells(&game) {
            assert!(snake.contains(&c));
        }
        assert_eq!(food_cells(&game), vec![game.food()]);
    }
}

#[test]
fn new_game_starts_away_from_edges() {
    for _ in 0..200 {
        let game = Game::new();
        let snake = game.snake();
        assert_eq!(snake.len(), 3);
        let (x, y) = snake[0];
        assert!((3..GRID_WIDTH - 3).contains(&x));
        assert!((3..GRID_HEIGHT - 3).contains(&y));
        assert_eq!(snake, vec![(x, y), (x + 1, y), (x + 2, y)]);
        assert_eq!(game.current_direction(), Direction::Left);
        assert_eq!(food_cells(&game), vec![game.food()]);
        assert!(board_matches_snake(&game));
    }
}

#[test]
fn food_locations_lie_on_grid_and_vary() {
    let mut seen_x = [false; GRID_WIDTH];
    let mut seen_y = [false; GRID_HEIGHT];
    for _ in 0..4000 {
        let (x, y) = Game::get_food_location();
        assert!(x < GRID_WIDTH && y < GRID_HEIGHT);
        seen_x[x] = true;
        seen_y[y] = true;
    }
    assert!(seen_x.iter().all(|s| *s));
    assert!(seen_y.iter().all(|s| *s));
}

#[test]
fn overlapping_tail_clears_a_cell_the_snake_lies_on() {
    let mut game = Game::with_layout((0, 5), (1, 5));
    game.update_with((20, 20));
    assert_eq!(game.snake(), vec![(0, 5), (1, 5), (2, 5), (0, 5)]);
    assert!(board_matches_snake(&game));
    game.move_snake(Direction::Up);
    game.update_with((20, 20));
    assert_eq!(game.snake(), vec![(0, 4), (0, 5), (1, 5), (2, 5)]);
    assert!(!occupied(&game, (0, 5)));
    assert_eq!(occupied_cells(&game), vec![(0, 4), (1, 5), (2, 5)]);
    assert!(!board_matches_snake(&game));
    assert!(game.snake_covers((0, 5)));
}

#[test]
fn snake_covers_its_segments_only() {
    let game = Game::with_layout((10, 10), (5, 5));
    assert!(game.snake_covers((5, 5)));
    assert!(game.snake_covers((7, 5)));
    assert!(!game.snake_covers((8, 5)));
    assert!(!game.snake_covers((5, 6)));
    assert!(!game.snake_covers((10, 10)));
}

#[test]
fn clone_is_independent() {
    let game = Game::with_layout((10, 10), (5, 5));
    let mut copy = game.clone();
    assert_eq!(copy.snake(), game.snake());
    assert_eq!(copy.food(), game.food());
    assert_eq!(copy.current_direction(), game.current_direction());
    assert_eq!(occupied_cells(&copy), occupied_cells(&game));
    copy.move_snake(Direction::Up);
    copy.update();
    assert_eq!(copy.snake(), vec![(5, 4), (5, 5), (6, 5)]);
    assert_eq!(game.snake(), vec![(5, 5), (6, 5), (7, 5)]);
    assert_eq!(game.current_direction(), Direction::Left);
    assert!(!occupied(&game, (5, 4)));
}
