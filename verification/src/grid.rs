use vstd::prelude::*;

use crate::direction::{opposite, Direction};

verus! {

/// Board width (number of columns).
pub const GRID_WIDTH: usize = 16;

/// Board height (number of rows).
pub const GRID_HEIGHT: usize = 16;

/// What one cell of the board holds. A snake segment remembers the heading
/// it was moving with when it occupied the cell, so the tail can follow the
/// body without an explicit list of segments.
#[derive(Clone, Copy, PartialEq, Eq, Structural, Debug)]
pub enum Tile {
    Empty,
    Snake(Direction),
    Food,
}

/// A position lies on the board.
pub open spec fn in_bounds(p: (usize, usize)) -> bool {
    p.0 < GRID_WIDTH && p.1 < GRID_HEIGHT
}

/// Index of a position in the row-major flat storage.
pub open spec fn idx_of(p: (usize, usize)) -> int {
    p.1 * GRID_WIDTH + p.0
}

/// The tile a flat grid holds at a position.
pub open spec fn tile_of(g: Seq<Tile>, p: (usize, usize)) -> Tile {
    g[idx_of(p)]
}

/// A flat grid has exactly one cell per board position.
pub open spec fn grid_ok(g: Seq<Tile>) -> bool {
    g.len() == GRID_WIDTH * GRID_HEIGHT
}

/// One coordinate moved down by one, wrapping at zero.
pub open spec fn dec_wrap(v: usize, limit: usize) -> usize {
    if v == 0 {
        (limit - 1) as usize
    } else {
        (v - 1) as usize
    }
}

/// One coordinate moved up by one, wrapping at the limit.
pub open spec fn inc_wrap(v: usize, limit: usize) -> usize {
    if v + 1 == limit {
        0
    } else {
        (v + 1) as usize
    }
}

/// The wrapped neighbour of a position in a direction: the board is a torus,
/// so stepping off an edge re-enters on the opposite edge.
pub open spec fn step_pos(p: (usize, usize), d: Direction) -> (usize, usize) {
    match d {
        Direction::Up => (p.0, dec_wrap(p.1, GRID_HEIGHT)),
        Direction::Down => (p.0, inc_wrap(p.1, GRID_HEIGHT)),
        Direction::Left => (dec_wrap(p.0, GRID_WIDTH), p.1),
        Direction::Right => (inc_wrap(p.0, GRID_WIDTH), p.1),
    }
}

/// A position holds a snake segment.
pub open spec fn snake_at(g: Seq<Tile>, p: (usize, usize)) -> bool {
    in_bounds(p) && tile_of(g, p) is Snake
}

/// Food sits at `p` and nowhere else.
pub open spec fn food_only_at(g: Seq<Tile>, p: (usize, usize)) -> bool {
    &&& in_bounds(p)
    &&& tile_of(g, p) is Food
    &&& forall|q: (usize, usize)| in_bounds(q) && #[trigger] tile_of(g, q) is Food ==> q == p
}

/// The board holds exactly one food tile.
pub open spec fn unique_food(g: Seq<Tile>) -> bool {
    exists|p: (usize, usize)| #[trigger] food_only_at(g, p)
}

/// Distinct on-board positions occupy distinct flat cells.
pub proof fn lemma_idx_of_injective(p: (usize, usize), q: (usize, usize))
    requires
        in_bounds(p),
        in_bounds(q),
        idx_of(p) == idx_of(q),
    ensures
        p == q,
{
}

/// Distinct positions never share a flat cell: the contrapositive form of
/// index injectivity, convenient inside quantified proofs.
pub proof fn lemma_idx_of_injective_contra(p: (usize, usize), q: (usize, usize))
    requires
        in_bounds(p),
        in_bounds(q),
        p != q,
    ensures
        idx_of(p) != idx_of(q),
{
    if idx_of(p) == idx_of(q) {
        lemma_idx_of_injective(p, q);
    }
}

/// Stepping never stays in place: the board is wider and taller than one cell.
pub proof fn lemma_step_moves(p: (usize, usize), d: Direction)
    requires
        in_bounds(p),
    ensures
        step_pos(p, d) != p,
        in_bounds(step_pos(p, d)),
{
}

/// Stepping in a direction and then in the opposite direction returns to the
/// starting position, for every on-board position and every direction.
pub proof fn lemma_step_round_trip(p: (usize, usize), d: Direction)
    requires
        in_bounds(p),
    ensures
        step_pos(step_pos(p, d), opposite(d)) == p,
{
}

/// The fixed-size toroidal board: a row-major vector of tiles.
pub struct Grid {
    tiles: Vec<Tile>,
}

impl View for Grid {
    type V = Seq<Tile>;

    closed spec fn view(&self) -> Seq<Tile> {
        self.tiles@
    }
}

impl Grid {
    /// A board of the fixed dimensions with every cell empty.
    pub fn new() -> (g: Grid)
        ensures
            grid_ok(g@),
            forall|q: (usize, usize)| in_bounds(q) ==> #[trigger] tile_of(g@, q) is Empty,
    {
        let tiles: Vec<Tile> = vec![Tile::Empty; GRID_WIDTH * GRID_HEIGHT];
        let g = Grid { tiles };
        proof {
            assert forall|q: (usize, usize)| in_bounds(q) implies #[trigger] tile_of(g@, q)
                is Empty by {
                assert(0 <= idx_of(q) < g@.len());
            }
        }
        g
    }

    /// Read the tile at an on-board position.
    pub fn tile_at(&self, p: (usize, usize)) -> (t: Tile)
        requires
            grid_ok(self@),
            in_bounds(p),
        ensures
            t == tile_of(self@, p),
    {
        self.tiles[p.1 * GRID_WIDTH + p.0]
    }

    /// Write the tile at an on-board position; every other cell is unchanged.
    pub fn set_tile(&mut self, p: (usize, usize), t: Tile)
        requires
            grid_ok(old(self)@),
            in_bounds(p),
        ensures
            grid_ok(final(self)@),
            final(self)@ == old(self)@.update(idx_of(p), t),
            tile_of(final(self)@, p) == t,
            forall|q: (usize, usize)|
                in_bounds(q) && q != p ==> #[trigger] tile_of(final(self)@, q) == tile_of(
                    old(self)@,
                    q,
                ),
    {
        self.tiles[p.1 * GRID_WIDTH + p.0] = t;
        proof {
            assert forall|q: (usize, usize)| in_bounds(q) && q != p implies #[trigger] tile_of(
                self@,
                q,
            ) == tile_of(old(self)@, q) by {
                if idx_of(q) == idx_of(p) {
                    lemma_idx_of_injective(q, p);
                }
            }
        }
    }

    /// The wrapped neighbour of a position in a direction; pure, no mutation.
    pub fn step(&self, p: (usize, usize), d: Direction) -> (r: (usize, usize))
        requires
            in_bounds(p),
        ensures
            r == step_pos(p, d),
            in_bounds(r),
    {
        match d {
            Direction::Up => (p.0, if p.1 == 0 { GRID_HEIGHT - 1 } else { p.1 - 1 }),
            Direction::Down => (p.0, if p.1 + 1 == GRID_HEIGHT { 0 } else { p.1 + 1 }),
            Direction::Left => (if p.0 == 0 { GRID_WIDTH - 1 } else { p.0 - 1 }, p.1),
            Direction::Right => (if p.0 + 1 == GRID_WIDTH { 0 } else { p.0 + 1 }, p.1),
        }
    }
}

} // verus!
