use vstd::prelude::*;

use crate::direction::Direction;
use crate::game::Game;
use crate::grid::{grid_ok, tile_of, Tile, GRID_HEIGHT, GRID_WIDTH};

verus! {

/// The glyph a tile is drawn with: blank for empty, a star for food, and an
/// arrow per heading for a snake segment, so the body shows its local motion.
pub open spec fn glyph_of(t: Tile) -> char {
    match t {
        Tile::Empty => ' ',
        Tile::Snake(d) => match d {
            Direction::Up => '^',
            Direction::Down => 'v',
            Direction::Left => '<',
            Direction::Right => '>',
        },
        Tile::Food => '*',
    }
}

/// The glyph for one tile, as executable code.
pub fn tile_glyph(t: Tile) -> (c: char)
    ensures
        c == glyph_of(t),
{
    match t {
        Tile::Empty => ' ',
        Tile::Snake(d) => match d {
            Direction::Up => '^',
            Direction::Down => 'v',
            Direction::Left => '<',
            Direction::Right => '>',
        },
        Tile::Food => '*',
    }
}

/// The whole board as rows of glyphs, top row first: a pure function of the
/// state, for a terminal collaborator to draw.
pub fn render(game: &Game) -> (rows: Vec<Vec<char>>)
    requires
        grid_ok(game.grid@),
    ensures
        rows@.len() == GRID_HEIGHT,
        forall|y: int| 0 <= y < GRID_HEIGHT ==> (#[trigger] rows@[y])@.len() == GRID_WIDTH,
        forall|y: int, x: int|
            0 <= y < GRID_HEIGHT && 0 <= x < GRID_WIDTH ==> (#[trigger] rows@[y]@[x]) == glyph_of(
                tile_of(game.grid@, (x as usize, y as usize)),
            ),
{
    let mut rows: Vec<Vec<char>> = Vec::new();
    let mut y: usize = 0;
    while y < GRID_HEIGHT
        invariant
            grid_ok(game.grid@),
            y <= GRID_HEIGHT,
            rows@.len() == y,
            forall|j: int| 0 <= j < y ==> (#[trigger] rows@[j])@.len() == GRID_WIDTH,
            forall|j: int, x: int|
                0 <= j < y && 0 <= x < GRID_WIDTH ==> (#[trigger] rows@[j]@[x]) == glyph_of(
                    tile_of(game.grid@, (x as usize, j as usize)),
                ),
        decreases GRID_HEIGHT - y,
    {
        let mut row: Vec<char> = Vec::new();
        let mut x: usize = 0;
        while x < GRID_WIDTH
            invariant
                grid_ok(game.grid@),
                y < GRID_HEIGHT,
                x <= GRID_WIDTH,
                row@.len() == x,
                forall|i: int|
                    0 <= i < x ==> (#[trigger] row@[i]) == glyph_of(
                        tile_of(game.grid@, (i as usize, y as usize)),
                    ),
            decreases GRID_WIDTH - x,
        {
            let t = game.grid.tile_at((x, y));
            row.push(tile_glyph(t));
            x = x + 1;
        }
        rows.push(row);
        y = y + 1;
    }
    rows
}

} // verus!
