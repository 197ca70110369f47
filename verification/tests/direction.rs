use snake_core::components::Direction;
use snake_core::grid::Grid;
use snake_core::session::Session;
use snake_core::snake::movement_input_system;
use snake_core::snake::spawn_system;

#[test]
fn opposite_direction() {
    assert_eq!(Direction::Up.opposite(), Direction::Down);
    assert_eq!(Direction::Down.opposite(), Direction::Up);
    assert_eq!(Direction::Right.opposite(), Direction::Left);
    assert_eq!(Direction::Left.opposite(), Direction::Right);
}

#[test]
fn opposite_is_an_involution() {
    for d in [Direction::Up, Direction::Down, Direction::Left, Direction::Right] {
        assert_eq!(d.opposite().opposite(), d);
    }
}

#[test]
fn reversal_intent_is_rejected() {
    let mut s = Session::new(Grid { width: 10, height: 10 });
    spawn_system(&mut s);
    // Facing up, a "down" intent must leave the direction untouched.
    movement_input_system(&mut s, &vec![Some(Direction::Down), None]);
    assert_eq!(s.heads[0].direction, Direction::Up);
    assert_eq!(s.heads[1].direction, Direction::Up);
}

#[test]
fn sideways_intent_is_accepted() {
    let mut s = Session::new(Grid { width: 10, height: 10 });
    spawn_system(&mut s);
    movement_input_system(&mut s, &vec![Some(Direction::Left), Some(Direction::Right)]);
    assert_eq!(s.heads[0].direction, Direction::Left);
    assert_eq!(s.heads[1].direction, Direction::Right);
}

#[test]
fn no_intent_keeps_direction() {
    let mut s = Session::new(Grid { width: 10, height: 10 });
    spawn_system(&mut s);
    movement_input_system(&mut s, &vec![None, None]);
    assert_eq!(s.heads[0].direction, Direction::Up);
    assert_eq!(s.heads[1].direction, Direction::Up);
}
