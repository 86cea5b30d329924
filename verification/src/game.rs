use vstd::prelude::*;
use vstd::pervasive::unreached;

use crate::direction::{resolve, Direction, ValidDirection};
use crate::grid::{
    food_only_at, grid_ok, idx_of, in_bounds, lemma_idx_of_injective, lemma_idx_of_injective_contra,
    lemma_step_moves, snake_at, step_pos, tile_of, unique_food, Grid, Tile, GRID_HEIGHT, GRID_WIDTH,
};

verus! {

/// How a tick can end other than with the snake advancing.
#[derive(Clone, Copy, PartialEq, Eq, Structural, Debug)]
pub enum TickError {
    /// The head stepped onto a snake segment: the session is over.
    SelfCollision,
    /// The tail position does not hold a snake segment: an internal defect,
    /// reported rather than repaired.
    TailInvariant,
    /// The snake ate and no empty cell is left to receive new food.
    BoardFull,
}

/// The board has at least one empty cell.
pub open spec fn has_empty(g: Seq<Tile>) -> bool {
    exists|q: (usize, usize)| in_bounds(q) && #[trigger] tile_of(g, q) is Empty
}

/// Relies on rand::random: one uniformly distributed `u32` from the thread's
/// generator. Nothing is promised of the value.
#[verifier::external_body]
fn random_u32() -> u32 {
    rand::random::<u32>()
}

/// A cell able to receive food: empty, and found by rejection sampling with a
/// bounded number of draws, falling back to the first empty cell in row order.
/// Returns `None` exactly when the board has no empty cell.
pub fn next_food_position(grid: &Grid) -> (r: Option<(usize, usize)>)
    requires
        grid_ok(grid@),
    ensures
        match r {
            Some(p) => in_bounds(p) && tile_of(grid@, p) is Empty,
            None => !has_empty(grid@),
        },
{
    let mut attempts: usize = 0;
    while attempts < GRID_WIDTH * GRID_HEIGHT
        invariant
            grid_ok(grid@),
        decreases GRID_WIDTH * GRID_HEIGHT - attempts,
    {
        let x = (random_u32() as usize) % GRID_WIDTH;
        let y = (random_u32() as usize) % GRID_HEIGHT;
        if matches!(grid.tile_at((x, y)), Tile::Empty) {
            return Some((x, y));
        }
        attempts = attempts + 1;
    }
    let mut y: usize = 0;
    while y < GRID_HEIGHT
        invariant
            grid_ok(grid@),
            y <= GRID_HEIGHT,
            forall|q: (usize, usize)|
                in_bounds(q) && q.1 < y ==> !(#[trigger] tile_of(grid@, q) is Empty),
        decreases GRID_HEIGHT - y,
    {
        let mut x: usize = 0;
        while x < GRID_WIDTH
            invariant
                grid_ok(grid@),
                x <= GRID_WIDTH,
                y < GRID_HEIGHT,
                forall|q: (usize, usize)|
                    in_bounds(q) && q.1 < y ==> !(#[trigger] tile_of(grid@, q) is Empty),
                forall|q: (usize, usize)|
                    in_bounds(q) && q.1 == y && q.0 < x ==> !(#[trigger] tile_of(grid@, q)
                        is Empty),
            decreases GRID_WIDTH - x,
        {
            if matches!(grid.tile_at((x, y)), Tile::Empty) {
                return Some((x, y));
            }
            x = x + 1;
        }
        y = y + 1;
    }
    None
}

/// Place one food tile on an empty cell, chosen by `next_food_position`.
/// Returns the cell, or `None` with the board unchanged when it is full.
pub fn update_food(grid: &mut Grid) -> (r: Option<(usize, usize)>)
    requires
        grid_ok(old(grid)@),
    ensures
        grid_ok(final (grid)@),
        match r {
            Some(p) => in_bounds(p) && tile_of(old(grid)@, p) is Empty && final (grid)@ == old(
                grid,
            )@.update(idx_of(p), Tile::Food),
            None => final (grid)@ == old(grid)@ && !has_empty(old(grid)@),
        },
{
    match next_food_position(grid) {
        Some(p) => {
            grid.set_tile(p, Tile::Food);
            Some(p)
        },
        None => None,
    }
}

/// The whole game state: the board, where the head and the tail of the snake
/// sit on it, and the most recently requested direction.
pub struct Game {
    pub grid: Grid,
    pub head: (usize, usize),
    pub tail: (usize, usize),
    pub direction: Direction,
}

impl Game {
    /// The heading recorded at the head's cell: the direction the snake was
    /// last committed to.
    pub open spec fn head_heading(self) -> Direction {
        tile_of(self.grid@, self.head)->Snake_0
    }

    /// The heading recorded at the tail's cell.
    pub open spec fn tail_heading(self) -> Direction {
        tile_of(self.grid@, self.tail)->Snake_0
    }

    /// The direction the next tick will move in: the requested direction,
    /// arbitrated against the committed heading.
    pub open spec fn effective_dir(self) -> Direction {
        resolve(self.head_heading(), self.direction)
    }

    /// Where the head will go on the next tick.
    pub open spec fn target(self) -> (usize, usize) {
        step_pos(self.head, self.effective_dir())
    }

    /// What the head will find there.
    pub open spec fn target_tile(self) -> Tile {
        tile_of(self.grid@, self.target())
    }

    /// Well-formedness of a running game: the board has its fixed size, head
    /// and tail lie on it, the head's cell holds a snake segment, and exactly
    /// one food tile exists.
    pub open spec fn wf(self) -> bool {
        &&& grid_ok(self.grid@)
        &&& in_bounds(self.head)
        &&& in_bounds(self.tail)
        &&& tile_of(self.grid@, self.head) is Snake
        &&& unique_food(self.grid@)
    }
}

/// The snake has length one: head and tail coincide and the head's cell is
/// the only snake segment on the board.
pub open spec fn length_one(s: Game) -> bool {
    &&& s.head == s.tail
    &&& forall|q: (usize, usize)| #[trigger] snake_at(s.grid@, q) <==> q == s.head
}

/// How one tick rewrites the state when the target cell is empty: the head
/// advances, the vacated head cell records the new heading, and the tail
/// either catches up with the head (length one) or follows its recorded
/// heading while its old cell is cleared.
pub open spec fn tick_moves(pre: Game, post: Game) -> bool {
    let d = pre.effective_dir();
    let nh = pre.target();
    &&& post.direction == d
    &&& post.head == nh
    &&& if pre.head == pre.tail {
        &&& post.tail == nh
        &&& post.grid@ == pre.grid@.update(idx_of(nh), Tile::Snake(d)).update(
            idx_of(pre.head),
            Tile::Empty,
        )
    } else {
        &&& post.tail == step_pos(pre.tail, pre.tail_heading())
        &&& post.grid@ == pre.grid@.update(idx_of(nh), Tile::Snake(d)).update(
            idx_of(pre.head),
            Tile::Snake(d),
        ).update(idx_of(pre.tail), Tile::Empty)
    }
}

/// How one tick rewrites the state when the target cell holds food: the head
/// advances, the tail stays (the snake grows), and new food appears at a cell
/// `food` that was empty beforehand.
pub open spec fn tick_grows(pre: Game, post: Game, food: (usize, usize)) -> bool {
    let d = pre.effective_dir();
    let nh = pre.target();
    &&& post.direction == d
    &&& post.head == nh
    &&& post.tail == pre.tail
    &&& in_bounds(food)
    &&& tile_of(pre.grid@, food) is Empty
    &&& post.grid@ == pre.grid@.update(idx_of(nh), Tile::Snake(d)).update(
        idx_of(pre.head),
        Tile::Snake(d),
    ).update(idx_of(food), Tile::Food)
}

/// A plain move keeps the game well formed: the new head cell holds a snake
/// segment and the single food tile is untouched.
pub proof fn lemma_moves_preserves_wf(pre: Game, post: Game)
    requires
        pre.wf(),
        pre.target_tile() is Empty,
        pre.head != pre.tail ==> tile_of(pre.grid@, pre.tail) is Snake,
        tick_moves(pre, post),
    ensures
        post.wf(),
{
    let d = pre.effective_dir();
    let nh = pre.target();
    lemma_step_moves(pre.head, d);
    let p = choose|p: (usize, usize)| food_only_at(pre.grid@, p);
    assert(food_only_at(pre.grid@, p));
    assert(idx_of(p) != idx_of(nh));
    assert(idx_of(p) != idx_of(pre.head));
    if pre.head != pre.tail {
        assert(idx_of(p) != idx_of(pre.tail));
        lemma_step_moves(pre.tail, pre.tail_heading());
    }
    assert(tile_of(post.grid@, p) is Food);
    assert forall|q: (usize, usize)| in_bounds(q) && #[trigger] tile_of(post.grid@, q)
        is Food implies q == p by {
        if idx_of(q) != idx_of(nh) && idx_of(q) != idx_of(pre.head) && (pre.head == pre.tail
            || idx_of(q) != idx_of(pre.tail)) {
            assert(tile_of(pre.grid@, q) is Food);
        } else {
            assert(false);
        }
    }
    assert(food_only_at(post.grid@, p));
    assert(tile_of(post.grid@, nh) is Snake);
}

/// Eating keeps the game well formed: the head lands on the food cell, which
/// becomes a snake segment, and exactly one new food tile appears.
pub proof fn lemma_grows_preserves_wf(pre: Game, post: Game, food: (usize, usize))
    requires
        pre.wf(),
        pre.target_tile() is Food,
        tick_grows(pre, post, food),
    ensures
        post.wf(),
        food_only_at(post.grid@, food),
{
    let d = pre.effective_dir();
    let nh = pre.target();
    lemma_step_moves(pre.head, d);
    let p = choose|p: (usize, usize)| food_only_at(pre.grid@, p);
    assert(food_only_at(pre.grid@, p));
    assert(p == nh);
    assert(idx_of(food) != idx_of(nh));
    assert(idx_of(food) != idx_of(pre.head));
    assert(tile_of(post.grid@, food) is Food);
    assert forall|q: (usize, usize)| in_bounds(q) && #[trigger] tile_of(post.grid@, q)
        is Food implies q == food by {
        if idx_of(q) == idx_of(food) {
            lemma_idx_of_injective(q, food);
        } else if idx_of(q) != idx_of(nh) && idx_of(q) != idx_of(pre.head) {
            assert(tile_of(pre.grid@, q) is Food);
            assert(q == nh);
            assert(false);
        } else {
            assert(false);
        }
    }
    assert(food_only_at(post.grid@, food));
    assert(tile_of(post.grid@, nh) is Snake);
}

/// A tick that finds no food ahead keeps a length-one snake at length one,
/// with head and tail still equal: the single segment merely moves.
pub proof fn lemma_move_keeps_length_one(pre: Game, post: Game)
    requires
        pre.wf(),
        length_one(pre),
        pre.target_tile() is Empty,
        tick_moves(pre, post),
    ensures
        post.wf(),
        length_one(post),
        post.head == post.tail,
{
    let d = pre.effective_dir();
    let nh = pre.target();
    assert(snake_at(pre.grid@, pre.head));
    lemma_moves_preserves_wf(pre, post);
    lemma_step_moves(pre.head, d);
    assert forall|q: (usize, usize)| #[trigger] snake_at(post.grid@, q) <==> q == nh by {
        if in_bounds(q) {
            if idx_of(q) == idx_of(nh) {
                lemma_idx_of_injective(q, nh);
            } else if idx_of(q) == idx_of(pre.head) {
                lemma_idx_of_injective(q, pre.head);
            } else {
                if snake_at(pre.grid@, q) {
                    assert(q == pre.head);
                    assert(false);
                }
            }
        }
    }
}

/// Along any run of ticks in which the head always finds an empty cell ahead
/// (no food is ever eaten), a snake of length one stays at length one and its
/// head and tail stay equal, at every state of the run.
pub proof fn lemma_run_keeps_length_one(states: Seq<Game>, k: int)
    requires
        0 <= k < states.len(),
        states[0].wf(),
        length_one(states[0]),
        forall|i: int| #![trigger states[i]]
            0 <= i < states.len() - 1 ==> tick_moves(states[i], states[i + 1])
                && states[i].target_tile() is Empty,
    ensures
        states[k].wf(),
        length_one(states[k]),
        states[k].head == states[k].tail,
    decreases k,
{
    if k > 0 {
        lemma_run_keeps_length_one(states, k - 1);
        assert(tick_moves(states[k - 1], states[k - 1 + 1]));
        lemma_move_keeps_length_one(states[k - 1], states[k]);
    }
}

/// A plain move of a snake longer than one swaps exactly one cell: the old
/// tail cell is freed, the new head cell becomes a segment, and every other
/// snake cell stays, so no segment appears or vanishes.
pub proof fn lemma_move_swaps_one_segment(pre: Game, post: Game)
    requires
        pre.wf(),
        pre.target_tile() is Empty,
        pre.head != pre.tail,
        tile_of(pre.grid@, pre.tail) is Snake,
        tick_moves(pre, post),
    ensures
        !snake_at(pre.grid@, pre.target()),
        snake_at(pre.grid@, pre.tail),
        forall|q: (usize, usize)| #[trigger]
            snake_at(post.grid@, q) <==> ((snake_at(pre.grid@, q) || q == pre.target()) && q
                != pre.tail),
{
    let d = pre.effective_dir();
    let nh = pre.target();
    lemma_step_moves(pre.head, d);
    lemma_idx_of_injective_contra(pre.head, pre.tail);
    assert(idx_of(nh) != idx_of(pre.tail));
    assert forall|q: (usize, usize)| #[trigger]
        snake_at(post.grid@, q) <==> ((snake_at(pre.grid@, q) || q == nh) && q != pre.tail) by {
        if in_bounds(q) {
            if idx_of(q) == idx_of(pre.tail) {
                lemma_idx_of_injective(q, pre.tail);
            } else if idx_of(q) == idx_of(nh) {
                lemma_idx_of_injective(q, nh);
            } else if idx_of(q) == idx_of(pre.head) {
                lemma_idx_of_injective(q, pre.head);
            }
        }
    }
}

/// Eating grows the snake by exactly one segment: afterwards the snake cells
/// are the old ones plus the new head, which was not a snake cell before; and
/// the new food sits alone at a cell that was empty beforehand.
pub proof fn lemma_grow_adds_one_segment(pre: Game, post: Game, food: (usize, usize))
    requires
        pre.wf(),
        pre.target_tile() is Food,
        tick_grows(pre, post, food),
    ensures
        !snake_at(pre.grid@, pre.target()),
        forall|q: (usize, usize)| #[trigger]
            snake_at(post.grid@, q) <==> (snake_at(pre.grid@, q) || q == pre.target()),
        food_only_at(post.grid@, food),
        tile_of(pre.grid@, food) is Empty,
{
    let d = pre.effective_dir();
    let nh = pre.target();
    lemma_grows_preserves_wf(pre, post, food);
    lemma_step_moves(pre.head, d);
    assert forall|q: (usize, usize)| #[trigger]
        snake_at(post.grid@, q) <==> (snake_at(pre.grid@, q) || q == nh) by {
        if in_bounds(q) {
            if idx_of(q) == idx_of(food) {
                lemma_idx_of_injective(q, food);
            } else if idx_of(q) == idx_of(nh) {
                lemma_idx_of_injective(q, nh);
            } else if idx_of(q) == idx_of(pre.head) {
                lemma_idx_of_injective(q, pre.head);
            }
        }
    }
}

impl Game {
    /// A fresh session: an otherwise empty board with a single snake segment
    /// heading right at the centre, head and tail equal, and one food tile on
    /// some empty cell.
    pub fn new() -> (g: Game)
        ensures
            g.wf(),
            g.head.0 == GRID_WIDTH / 2 && g.head.1 == GRID_HEIGHT / 2,
            g.tail == g.head,
            g.direction == Direction::Right,
            tile_of(g.grid@, g.head) == Tile::Snake(Direction::Right),
            length_one(g),
            exists|f: (usize, usize)|
                #[trigger] food_only_at(g.grid@, f) && tile_of(g.grid@, f) is Food && f != g.head
                    && forall|q: (usize, usize)|
                    in_bounds(q) && q != g.head && q != f ==> #[trigger] tile_of(g.grid@, q)
                        is Empty,
    {
        let mut grid = Grid::new();
        let ghost base = grid@;
        let head = (GRID_WIDTH / 2, GRID_HEIGHT / 2);
        grid.set_tile(head, Tile::Snake(Direction::Right));
        let ghost with_head = grid@;
        proof {
            assert(tile_of(base, (0usize, 0usize)) is Empty);
            assert(tile_of(with_head, (0usize, 0usize)) is Empty);
        }
        match update_food(&mut grid) {
            Some(f) => {
                let g = Game { grid, head, tail: head, direction: Direction::Right };
                proof {
                    assert(idx_of(f) != idx_of(head));
                    assert(tile_of(g.grid@, head) == Tile::Snake(Direction::Right));
                    assert forall|q: (usize, usize)|
                        in_bounds(q) && q != head && q != f implies #[trigger] tile_of(g.grid@, q)
                        is Empty by {
                        lemma_idx_of_injective_contra(q, head);
                        lemma_idx_of_injective_contra(q, f);
                        assert(0 <= idx_of(q) < base.len());
                        assert(tile_of(g.grid@, q) == tile_of(base, q));
                        assert(tile_of(base, q) is Empty);
                    }
                    assert(food_only_at(g.grid@, f)) by {
                        assert forall|q: (usize, usize)|
                            in_bounds(q) && #[trigger] tile_of(g.grid@, q) is Food implies q
                            == f by {
                            if q != f && q != head {
                                assert(tile_of(g.grid@, q) is Empty);
                            }
                        }
                    }
                    assert forall|q: (usize, usize)| #[trigger]
                        snake_at(g.grid@, q) <==> q == head by {
                        if in_bounds(q) && q != head && q != f {
                            assert(tile_of(g.grid@, q) is Empty);
                        }
                        if q == f {
                            assert(tile_of(g.grid@, q) is Food);
                        }
                    }
                }
                g
            },
            None => unreached(),
        }
    }

    /// One tick of the engine, while the game is running.
    ///
    /// The requested direction is arbitrated against the committed heading;
    /// the head steps to the wrapped neighbour in the effective direction.
    /// An empty cell ahead moves the snake; a food cell grows it by one and
    /// puts new food on some empty cell; a snake cell ahead ends the game
    /// with `SelfCollision` and changes nothing on the board. A full board
    /// after eating ends the game with `BoardFull`; a tail cell that holds no
    /// snake segment is reported as `TailInvariant` with the board unchanged.
    pub fn update(&mut self) -> (r: Result<(), TickError>)
        requires
            old(self).wf(),
        ensures
            final (self).direction == old(self).effective_dir(),
            r is Ok ==> final (self).wf(),
            (r == Err::<(), TickError>(TickError::SelfCollision) <==> old(self).target_tile()
                is Snake),
            r == Err::<(), TickError>(TickError::SelfCollision) ==> final (self).grid@ == old(
                self,
            ).grid@ && final (self).head == old(self).head && final (self).tail == old(self).tail,
            (r == Err::<(), TickError>(TickError::TailInvariant) <==> (old(self).target_tile()
                is Empty && old(self).head != old(self).tail && !(tile_of(
                old(self).grid@,
                old(self).tail,
            ) is Snake))),
            r == Err::<(), TickError>(TickError::TailInvariant) ==> final (self).grid@ == old(
                self,
            ).grid@ && final (self).head == old(self).head && final (self).tail == old(self).tail,
            (old(self).target_tile() is Empty && (old(self).head == old(self).tail || tile_of(
                old(self).grid@,
                old(self).tail,
            ) is Snake)) ==> r == Ok::<(), TickError>(()) && tick_moves(*old(self), *final (self)),
            (old(self).target_tile() is Food && has_empty(old(self).grid@)) ==> r == Ok::<
                (),
                TickError,
            >(()) && exists|f: (usize, usize)| #[trigger] tick_grows(*old(self), *final (self), f),
            (r == Err::<(), TickError>(TickError::BoardFull) <==> (old(self).target_tile() is Food
                && !has_empty(old(self).grid@))),
            r == Err::<(), TickError>(TickError::BoardFull) ==> final (self).head == old(
                self,
            ).target() && final (self).tail == old(self).tail && final (self).grid@ == old(
                self,
            ).grid@.update(
                idx_of(old(self).target()),
                Tile::Snake(old(self).effective_dir()),
            ).update(idx_of(old(self).head), Tile::Snake(old(self).effective_dir())),
    {
        let old_direction = match self.grid.tile_at(self.head) {
            Tile::Snake(h) => h,
            _ => unreached(),
        };
        let valid_direction = ValidDirection::new(old_direction, self.direction);
        let d = valid_direction.0;
        self.direction = d;
        let old_head = self.head;
        let old_tail = self.tail;
        let new_head = self.grid.step(old_head, d);
        proof {
            lemma_step_moves(old_head, d);
        }
        match self.grid.tile_at(new_head) {
            Tile::Snake(_) => Err(TickError::SelfCollision),
            Tile::Empty => {
                if old_head.0 == old_tail.0 && old_head.1 == old_tail.1 {
                    self.grid.set_tile(new_head, Tile::Snake(d));
                    self.grid.set_tile(old_head, Tile::Empty);
                    self.head = new_head;
                    self.tail = new_head;
                    proof {
                        assert(tick_moves(*old(self), *self));
                        lemma_moves_preserves_wf(*old(self), *self);
                    }
                    Ok(())
                } else {
                    match self.grid.tile_at(old_tail) {
                        Tile::Snake(tail_tile) => {
                            let new_tail = self.grid.step(old_tail, tail_tile);
                            self.grid.set_tile(new_head, Tile::Snake(d));
                            self.grid.set_tile(old_head, Tile::Snake(d));
                            self.grid.set_tile(old_tail, Tile::Empty);
                            self.head = new_head;
                            self.tail = new_tail;
                            proof {
                                assert(tick_moves(*old(self), *self));
                                lemma_moves_preserves_wf(*old(self), *self);
                            }
                            Ok(())
                        },
                        _ => Err(TickError::TailInvariant),
                    }
                }
            },
            Tile::Food => {
                self.grid.set_tile(new_head, Tile::Snake(d));
                self.grid.set_tile(old_head, Tile::Snake(d));
                self.head = new_head;
                match update_food(&mut self.grid) {
                    Some(f) => {
                        proof {
                            assert(tile_of(old(self).grid@, f) is Empty);
                            assert(tick_grows(*old(self), *self, f));
                            lemma_grows_preserves_wf(*old(self), *self, f);
                            assert(has_empty(old(self).grid@));
                        }
                        Ok(())
                    },
                    None => {
                        proof {
                            assert forall|q: (usize, usize)| in_bounds(q) implies !(
                            #[trigger] tile_of(old(self).grid@, q) is Empty) by {
                                if tile_of(old(self).grid@, q) is Empty {
                                    assert(idx_of(q) != idx_of(new_head));
                                    assert(idx_of(q) != idx_of(old_head));
                                    assert(tile_of(self.grid@, q) is Empty);
                                    assert(false);
                                }
                            }
                        }
                        Err(TickError::BoardFull)
                    },
                }
            },
        }
    }
}

} // verus!
