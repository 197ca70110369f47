//! Core value types shared by every stage of the tick pipeline: grid cells,
//! facing directions, and the terminal game-over event.

use vstd::prelude::*;

verus! {

/// A cell of the simulation grid, identified by its integer coordinates.
///
/// Coordinates of live snakes stay inside the grid; only the head that just
/// caused a game over may sit one step outside of it.
#[derive(Clone, Copy, Debug, PartialEq, Eq, Structural, Hash)]
pub struct Position {
    pub x: i16,
    pub y: i16,
}

/// The facing of a snake: the offset its head takes on each movement tick.
#[derive(Clone, Copy, Debug, PartialEq, Eq, Structural)]
pub enum Direction {
    Left,
    Up,
    Right,
    Down,
}

impl Direction {
    /// The direction pointing the opposite way.
    pub open spec fn opposite_spec(self) -> Direction {
        match self {
            Direction::Left => Direction::Right,
            Direction::Right => Direction::Left,
            Direction::Up => Direction::Down,
            Direction::Down => Direction::Up,
        }
    }

    /// Returns the direction pointing the opposite way: `Up` and `Down` swap,
    /// `Left` and `Right` swap.
    pub fn opposite(self) -> (r: Direction)
        ensures
            r == self.opposite_spec(),
    {
        match self {
            Direction::Left => Direction::Right,
            Direction::Right => Direction::Left,
            Direction::Up => Direction::Down,
            Direction::Down => Direction::Up,
        }
    }
}

/// Two cells are adjacent when they differ by one in exactly one axis.
pub open spec fn adjacent(a: Position, b: Position) -> bool {
    (a.x == b.x && (a.y - b.y == 1 || b.y - a.y == 1)) || (a.y == b.y && (a.x - b.x == 1 || b.x
        - a.x == 1))
}

/// Reversing a direction twice yields the original direction: `opposite` is
/// an involution.
pub proof fn lemma_opposite_involution(d: Direction)
    ensures
        d.opposite_spec().opposite_spec() == d,
{
}

/// No direction is its own opposite, so rejecting the opposite of the current
/// facing never rejects the current facing itself.
pub proof fn lemma_opposite_differs(d: Direction)
    ensures
        d.opposite_spec() != d,
{
}

/// The terminal event of a session: raised when a head leaves the grid or
/// runs into a body cell.  Once one exists the simulation freezes.
#[derive(Clone, Copy, Debug, PartialEq, Eq, Structural)]
pub enum GameEndEvent {
    GameOver,
}

impl Default for GameEndEvent {
    fn default() -> (r: Self)
        ensures
            r == GameEndEvent::GameOver,
    {
        GameEndEvent::GameOver
    }
}

impl GameEndEvent {
    /// The message the user interface shows for this event.
    pub fn message(&self) -> (r: String)
        ensures
            r@ == "Game Over!"@,
    {
        "Game Over!".to_string()
    }
}

} // verus!
