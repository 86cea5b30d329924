use snake::direction::{Direction, ValidDirection};
use snake::game::{update_food, Game, TickError};
use snake::grid::{Grid, Tile, GRID_HEIGHT, GRID_WIDTH};
use snake::input::direction_for_key;
use snake::render::render;

fn opposite(d: Direction) -> Direction {
    match d {
        Direction::Up => Direction::Down,
        Direction::Down => Direction::Up,
        Direction::Left => Direction::Right,
        Direction::Right => Direction::Left,
    }
}

const ALL_DIRECTIONS: [Direction; 4] =
    [Direction::Up, Direction::Down, Direction::Left, Direction::Right];

fn snapshot(grid: &Grid) -> Vec<Vec<Tile>> {
    let mut rows = Vec::new();
    for y in 0..GRID_HEIGHT {
        let mut row = Vec::new();
        for x in 0..GRID_WIDTH {
            row.push(grid.tile_at((x, y)));
        }
        rows.push(row);
    }
    rows
}

fn food_cells(grid: &Grid) -> Vec<(usize, usize)> {
    let mut cells = Vec::new();
    for y in 0..GRID_HEIGHT {
        for x in 0..GRID_WIDTH {
            if grid.tile_at((x, y)) == Tile::Food {
                cells.push((x, y));
            }
        }
    }
    cells
}

fn snake_cells(grid: &Grid) -> Vec<(usize, usize)> {
    let mut cells = Vec::new();
    for y in 0..GRID_HEIGHT {
        for x in 0..GRID_WIDTH {
            if matches!(grid.tile_at((x, y)), Tile::Snake(_)) {
                cells.push((x, y));
            }
        }
    }
    cells
}

/// A board that is empty except for one snake segment and one food tile.
fn small_game(
    head: (usize, usize),
    heading: Direction,
    food: (usize, usize),
) -> Game {
    let mut grid = Grid::new();
    grid.set_tile(head, Tile::Snake(heading));
    grid.set_tile(food, Tile::Food);
    Game { grid, head, tail: head, direction: heading }
}

#[test]
fn arbiter_rejects_exactly_the_four_reversals() {
    for &current in ALL_DIRECTIONS.iter() {
        for &requested in ALL_DIRECTIONS.iter() {
            let resolved = ValidDirection::new(current, requested).0;
            if requested == opposite(current) {
                assert_eq!(resolved, current);
            } else {
                assert_eq!(resolved, requested);
            }
        }
    }
}

#[test]
fn arbiter_accepts_requesting_the_current_heading() {
    for &current in ALL_DIRECTIONS.iter() {
        assert_eq!(ValidDirection::new(current, current).0, current);
    }
}

#[test]
fn step_wraps_at_all_four_edges() {
    let grid = Grid::new();
    assert_eq!(grid.step((15, 8), Direction::Right), (0, 8));
    assert_eq!(grid.step((0, 8), Direction::Left), (15, 8));
    assert_eq!(grid.step((8, 0), Direction::Up), (8, 15));
    assert_eq!(grid.step((8, 15), Direction::Down), (8, 0));
}

#[test]
fn step_moves_by_one_inside_the_board() {
    let grid = Grid::new();
    assert_eq!(grid.step((3, 4), Direction::Right), (4, 4));
    assert_eq!(grid.step((3, 4), Direction::Left), (2, 4));
    assert_eq!(grid.step((3, 4), Direction::Up), (3, 3));
    assert_eq!(grid.step((3, 4), Direction::Down), (3, 5));
}

#[test]
fn step_then_opposite_step_returns_home() {
    let grid = Grid::new();
    for y in 0..GRID_HEIGHT {
        for x in 0..GRID_WIDTH {
            for &d in ALL_DIRECTIONS.iter() {
                let there = grid.step((x, y), d);
                assert_eq!(grid.step(there, opposite(d)), (x, y));
            }
        }
    }
}

#[test]
fn new_game_has_one_centred_segment_and_one_food() {
    let game = Game::new();
    assert_eq!(game.head, (8, 8));
    assert_eq!(game.tail, (8, 8));
    assert_eq!(game.direction, Direction::Right);
    assert_eq!(game.grid.tile_at((8, 8)), Tile::Snake(Direction::Right));
    assert_eq!(snake_cells(&game.grid), vec![(8, 8)]);
    let food = food_cells(&game.grid);
    assert_eq!(food.len(), 1);
    assert_ne!(food[0], (8, 8));
}

#[test]
fn ticks_without_food_keep_length_one_and_head_equal_tail() {
    let mut game = small_game((8, 8), Direction::Right, (0, 0));
    for i in 0..5 {
        assert_eq!(game.update(), Ok(()));
        assert_eq!(game.head, (9 + i, 8));
        assert_eq!(game.head, game.tail);
        assert_eq!(snake_cells(&game.grid), vec![game.head]);
        assert_eq!(food_cells(&game.grid), vec![(0, 0)]);
    }
}

#[test]
fn eating_grows_by_one_and_places_food_on_a_formerly_empty_cell() {
    let mut game = small_game((8, 8), Direction::Right, (9, 8));
    let before = snapshot(&game.grid);
    assert_eq!(game.update(), Ok(()));
    assert_eq!(game.head, (9, 8));
    assert_eq!(game.tail, (8, 8));
    assert_eq!(game.grid.tile_at((9, 8)), Tile::Snake(Direction::Right));
    assert_eq!(game.grid.tile_at((8, 8)), Tile::Snake(Direction::Right));
    assert_eq!(snake_cells(&game.grid).len(), 2);
    let food = food_cells(&game.grid);
    assert_eq!(food.len(), 1);
    let (fx, fy) = food[0];
    assert_ne!((fx, fy), (8, 8));
    assert_ne!((fx, fy), (9, 8));
    assert_eq!(before[fy][fx], Tile::Empty);
}

#[test]
fn three_segment_snake_advances_and_frees_its_old_tail_cell() {
    let mut grid = Grid::new();
    grid.set_tile((8, 8), Tile::Snake(Direction::Right));
    grid.set_tile((9, 8), Tile::Snake(Direction::Right));
    grid.set_tile((10, 8), Tile::Snake(Direction::Right));
    grid.set_tile((0, 0), Tile::Food);
    let mut game = Game { grid, head: (10, 8), tail: (8, 8), direction: Direction::Right };
    assert_eq!(game.update(), Ok(()));
    assert_eq!(game.head, (11, 8));
    assert_eq!(game.tail, (9, 8));
    assert_eq!(game.grid.tile_at((8, 8)), Tile::Empty);
    assert_eq!(game.grid.tile_at((11, 8)), Tile::Snake(Direction::Right));
    assert_eq!(
        snake_cells(&game.grid),
        vec![(9, 8), (10, 8), (11, 8)]
    );
    assert_eq!(food_cells(&game.grid), vec![(0, 0)]);
}

#[test]
fn reversal_request_is_ignored_during_a_tick() {
    let mut game = small_game((8, 8), Direction::Right, (0, 0));
    game.direction = Direction::Left;
    assert_eq!(game.update(), Ok(()));
    assert_eq!(game.head, (9, 8));
    assert_eq!(game.direction, Direction::Right);
}

#[test]
fn moving_right_from_the_last_column_wraps_to_the_first() {
    let mut game = small_game((15, 8), Direction::Right, (0, 0));
    assert_eq!(game.update(), Ok(()));
    assert_eq!(game.head, (0, 8));
    assert_eq!(game.tail, (0, 8));
}

#[test]
fn self_collision_ends_the_game_and_leaves_the_grid_unchanged() {
    let mut grid = Grid::new();
    grid.set_tile((8, 8), Tile::Snake(Direction::Right));
    grid.set_tile((9, 8), Tile::Snake(Direction::Up));
    grid.set_tile((0, 0), Tile::Food);
    let mut game = Game { grid, head: (8, 8), tail: (9, 8), direction: Direction::Right };
    let before = snapshot(&game.grid);
    assert_eq!(game.update(), Err(TickError::SelfCollision));
    assert_eq!(snapshot(&game.grid), before);
    assert_eq!(game.head, (8, 8));
    assert_eq!(game.tail, (9, 8));
}

#[test]
fn a_tail_cell_without_a_segment_is_reported_as_a_defect() {
    let mut grid = Grid::new();
    grid.set_tile((8, 8), Tile::Snake(Direction::Right));
    grid.set_tile((0, 0), Tile::Food);
    let mut game = Game { grid, head: (8, 8), tail: (5, 5), direction: Direction::Right };
    let before = snapshot(&game.grid);
    assert_eq!(game.update(), Err(TickError::TailInvariant));
    assert_eq!(snapshot(&game.grid), before);
    assert_eq!(game.head, (8, 8));
    assert_eq!(game.tail, (5, 5));
}

#[test]
fn eating_the_last_free_cell_reports_a_full_board() {
    let mut grid = Grid::new();
    for y in 0..GRID_HEIGHT {
        for x in 0..GRID_WIDTH {
            grid.set_tile((x, y), Tile::Snake(Direction::Right));
        }
    }
    grid.set_tile((9, 8), Tile::Food);
    let mut game = Game { grid, head: (8, 8), tail: (8, 8), direction: Direction::Right };
    assert_eq!(game.update(), Err(TickError::BoardFull));
    assert_eq!(game.head, (9, 8));
    assert!(food_cells(&game.grid).is_empty());
}

#[test]
fn food_lands_on_the_single_remaining_empty_cell() {
    let mut grid = Grid::new();
    for y in 0..GRID_HEIGHT {
        for x in 0..GRID_WIDTH {
            if (x, y) != (0, 0) {
                grid.set_tile((x, y), Tile::Snake(Direction::Right));
            }
        }
    }
    assert_eq!(update_food(&mut grid), Some((0, 0)));
    assert_eq!(grid.tile_at((0, 0)), Tile::Food);
}

#[test]
fn a_full_board_yields_no_food_position() {
    let mut grid = Grid::new();
    for y in 0..GRID_HEIGHT {
        for x in 0..GRID_WIDTH {
            grid.set_tile((x, y), Tile::Snake(Direction::Right));
        }
    }
    let before = snapshot(&grid);
    assert_eq!(update_food(&mut grid), None);
    assert_eq!(snapshot(&grid), before);
}

#[test]
fn render_draws_blanks_arrows_and_the_food_star() {
    let mut grid = Grid::new();
    grid.set_tile((2, 1), Tile::Snake(Direction::Up));
    grid.set_tile((3, 1), Tile::Snake(Direction::Down));
    grid.set_tile((4, 1), Tile::Snake(Direction::Left));
    grid.set_tile((5, 1), Tile::Snake(Direction::Right));
    grid.set_tile((7, 9), Tile::Food);
    let game = Game { grid, head: (5, 1), tail: (2, 1), direction: Direction::Right };
    let rows = render(&game);
    assert_eq!(rows.len(), GRID_HEIGHT);
    for row in rows.iter() {
        assert_eq!(row.len(), GRID_WIDTH);
    }
    assert_eq!(rows[1][2], '^');
    assert_eq!(rows[1][3], 'v');
    assert_eq!(rows[1][4], '<');
    assert_eq!(rows[1][5], '>');
    assert_eq!(rows[9][7], '*');
    assert_eq!(rows[0][0], ' ');
    assert_eq!(rows[15][15], ' ');
}

#[test]
fn character_keys_steer_case_insensitively() {
    assert_eq!(direction_for_key('w'), Some(Direction::Up));
    assert_eq!(direction_for_key('W'), Some(Direction::Up));
    assert_eq!(direction_for_key('s'), Some(Direction::Down));
    assert_eq!(direction_for_key('S'), Some(Direction::Down));
    assert_eq!(direction_for_key('a'), Some(Direction::Left));
    assert_eq!(direction_for_key('A'), Some(Direction::Left));
    assert_eq!(direction_for_key('d'), Some(Direction::Right));
    assert_eq!(direction_for_key('D'), Some(Direction::Right));
    assert_eq!(direction_for_key('q'), None);
    assert_eq!(direction_for_key(' '), None);
}
