//! The game-over observer: turns the movement engine's events of one tick
//! into the one-shot notification the user interface presents.

use vstd::prelude::*;

use crate::components::GameEndEvent;

verus! {

/// Reports the game-over notification for this tick: `Some` exactly when the
/// movement engine raised at least one event.  The latch itself is raised by
/// the movement engine; this stage only surfaces the terminal fact to
/// observers, which present it once and keep reading the frozen board.
pub fn over_system(events: &Vec<GameEndEvent>) -> (r: Option<GameEndEvent>)
    ensures
        r == (if events@.len() > 0 {
            Some(GameEndEvent::GameOver)
        } else {
            None::<GameEndEvent>
        }),
{
    if events.len() > 0 {
        Some(GameEndEvent::GameOver)
    } else {
        None
    }
}

} // verus!
