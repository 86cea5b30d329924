use vstd::prelude::*;

use crate::direction::Direction;

verus! {

/// The direction a pressed character key asks for, if any: W, A, S and D in
/// either case steer; every other character is ignored.
pub open spec fn key_direction(c: char) -> Option<Direction> {
    if c == 'w' || c == 'W' {
        Some(Direction::Up)
    } else if c == 's' || c == 'S' {
        Some(Direction::Down)
    } else if c == 'a' || c == 'A' {
        Some(Direction::Left)
    } else if c == 'd' || c == 'D' {
        Some(Direction::Right)
    } else {
        None
    }
}

/// Map one character key to the direction it requests.
pub fn direction_for_key(c: char) -> (r: Option<Direction>)
    ensures
        r == key_direction(c),
{
    if c == 'w' || c == 'W' {
        Some(Direction::Up)
    } else if c == 's' || c == 'S' {
        Some(Direction::Down)
    } else if c == 'a' || c == 'A' {
        Some(Direction::Left)
    } else if c == 'd' || c == 'D' {
        Some(Direction::Right)
    } else {
        None
    }
}

} // verus!
