use vstd::prelude::*;

verus! {

/// One of the four headings a snake segment can move in.
#[derive(Clone, Copy, PartialEq, Eq, Structural, Debug)]
pub enum Direction {
    Up,
    Down,
    Left,
    Right,
}

/// The heading that points exactly the other way.
pub open spec fn opposite(d: Direction) -> Direction {
    match d {
        Direction::Up => Direction::Down,
        Direction::Down => Direction::Up,
        Direction::Left => Direction::Right,
        Direction::Right => Direction::Left,
    }
}

/// What the direction arbiter settles on: the requested heading, unless it
/// would reverse the current one, in which case the current heading stands.
pub open spec fn resolve(current: Direction, requested: Direction) -> Direction {
    if requested == opposite(current) {
        current
    } else {
        requested
    }
}

/// A direction that has passed the arbiter: it never reverses the heading it
/// was checked against.
#[derive(Clone, Copy, PartialEq, Eq, Structural, Debug)]
pub struct ValidDirection(pub Direction);

impl ValidDirection {
    /// The direction arbiter: rejects exactly the four half-turn pairs
    /// (up against down, left against right, and the two mirror cases),
    /// keeping the old heading there; every other request passes unchanged,
    /// including a request equal to the current heading.
    pub fn new(old_direction: Direction, direction: Direction) -> (r: Self)
        ensures
            r.0 == resolve(old_direction, direction),
            direction == opposite(old_direction) ==> r.0 == old_direction,
            direction != opposite(old_direction) ==> r.0 == direction,
    {
        match (old_direction, direction) {
            (Direction::Up, Direction::Down) => Self(old_direction),
            (Direction::Down, Direction::Up) => Self(old_direction),
            (Direction::Left, Direction::Right) => Self(old_direction),
            (Direction::Right, Direction::Left) => Self(old_direction),
            _ => Self(direction),
        }
    }
}

} // verus!
