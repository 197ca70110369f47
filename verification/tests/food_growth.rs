use snake_core::components::Direction;
use snake_core::components::GameEndEvent;
use snake_core::components::Position;
use snake_core::food::spawn_at;
use snake_core::food::spawn_system as food_spawn_system;
use snake_core::grid::Grid;
use snake_core::session::Session;
use snake_core::snake::eating_system;
use snake_core::snake::growth_system;
use snake_core::snake::movement_input_system;
use snake_core::snake::movement_system;
use snake_core::snake::spawn_system;
use snake_core::snake::GrowthEvent;
use snake_core::snake::Head;
use snake_core::store::EntityData;

fn new_game() -> Session {
    let mut s = Session::new(Grid { width: 10, height: 10 });
    spawn_system(&mut s);
    s
}

fn tick(s: &mut Session, intents: Vec<Option<Direction>>) -> Vec<GameEndEvent> {
    movement_input_system(s, &intents);
    let events = movement_system(s);
    let growth = eating_system(s);
    growth_system(s, &growth);
    events
}

fn count_food(s: &Session) -> usize {
    s.store.entities.iter().filter(|d| d.alive && d.is_food).count()
}

fn count_segments(s: &Session) -> usize {
    s.store.entities.iter().filter(|d| d.alive && d.is_segment).count()
}

#[test]
fn food_only_spawns_once() {
    let mut s = Session::new(Grid { width: 10, height: 10 });
    assert!(spawn_at(&mut s, Position { x: 3, y: 5 }));
    assert_eq!(count_food(&s), 1);

    // A second spawn call is skipped while the food still exists.
    assert!(!spawn_at(&mut s, Position { x: 3, y: 5 }));
    food_spawn_system(&mut s);
    assert_eq!(count_food(&s), 1);
}

#[test]
fn snake_grows_when_eating() {
    let mut s = new_game();
    assert!(spawn_at(&mut s, Position { x: 3, y: 5 }));

    tick(&mut s, vec![None, None]);
    assert_eq!(count_segments(&s), 4);
    assert_eq!(count_food(&s), 1);

    tick(&mut s, vec![None, None]);
    assert_eq!(count_segments(&s), 5);
}

#[test]
fn eating_emits_one_growth_signal_and_appends_at_old_tail() {
    // Head on the food cell before the eating check: the food goes away,
    // exactly one signal is emitted, and growth appends one segment at the
    // pre-move tail cell.
    let mut s = new_game();
    assert!(spawn_at(&mut s, Position { x: 3, y: 4 }));

    movement_input_system(&mut s, &vec![None, None]);
    movement_system(&mut s);
    // Player 0's head has just moved onto (3,4); its tail was at (3,2).
    assert_eq!(
        s.store.entities[s.segments.0[0][0]].position,
        Position { x: 3, y: 4 }
    );
    let pre_move_tail = Position { x: 3, y: 2 };
    assert_eq!(s.last_tail_position.0[0], Some(pre_move_tail));

    let growth = eating_system(&mut s);
    assert_eq!(growth.len(), 1);
    assert_eq!(growth[0], GrowthEvent { player_id: 0 });
    assert_eq!(count_food(&s), 0);
    assert!(s.food.is_none());

    let chain_before = s.segments.0[0].len();
    growth_system(&mut s, &growth);
    assert_eq!(s.segments.0[0].len(), chain_before + 1);
    let new_tail = *s.segments.0[0].last().unwrap();
    assert_eq!(s.store.entities[new_tail].position, pre_move_tail);
    assert!(s.store.entities[new_tail].is_segment);
}

#[test]
fn at_most_one_food_across_ticks() {
    let mut s = new_game();
    for round in 0..12 {
        if round % 3 == 0 {
            food_spawn_system(&mut s);
        }
        tick(&mut s, vec![None, None]);
        assert!(count_food(&s) <= 1);
    }
}

#[test]
fn food_spawns_on_a_free_cell_in_bounds() {
    let mut s = Session::new(Grid { width: 10, height: 10 });
    food_spawn_system(&mut s);
    assert_eq!(count_food(&s), 1);
    let f = s.food.expect("food entity");
    let cell = s.store.entities[f].position;
    assert!(cell.x >= 0 && cell.x <= 9);
    assert!(cell.y >= 0 && cell.y <= 9);
}

#[test]
fn food_spawn_rejects_occupied_and_off_grid_cells() {
    let mut s = new_game();
    // Player 0's head stands on (3,3).
    assert!(!spawn_at(&mut s, Position { x: 3, y: 3 }));
    assert!(!spawn_at(&mut s, Position { x: -1, y: 5 }));
    assert!(!spawn_at(&mut s, Position { x: 10, y: 5 }));
    assert_eq!(count_food(&s), 0);
}

#[test]
fn food_spawn_on_full_grid_is_a_no_op() {
    let mut s = Session::new(Grid { width: 1, height: 1 });
    s.store.entities.push(EntityData {
        alive: true,
        is_segment: true,
        is_food: false,
        position: Position { x: 0, y: 0 },
    });
    s.segments.0.push(vec![0]);
    s.heads.push(Head { direction: Direction::Up });
    s.last_tail_position.0.push(None);

    food_spawn_system(&mut s);
    assert_eq!(count_food(&s), 0);
    assert!(s.food.is_none());
}

#[test]
fn growth_signal_for_unknown_player_is_rejected() {
    let mut s = new_game();
    let chain0 = s.segments.0[0].len();
    let chain1 = s.segments.0[1].len();
    let entities = s.store.entities.len();

    growth_system(&mut s, &vec![GrowthEvent { player_id: 7 }]);

    assert_eq!(s.segments.0[0].len(), chain0);
    assert_eq!(s.segments.0[1].len(), chain1);
    assert_eq!(s.store.entities.len(), entities);
}

#[test]
fn growth_signal_without_recorded_tail_is_rejected() {
    // Before the first movement tick no tail cell is recorded; a growth
    // signal then is a pipeline-ordering violation and must not create a
    // malformed chain.
    let mut s = new_game();
    assert_eq!(s.last_tail_position.0[0], None);
    let entities = s.store.entities.len();

    growth_system(&mut s, &vec![GrowthEvent { player_id: 0 }]);

    assert_eq!(s.segments.0[0].len(), 2);
    assert_eq!(s.store.entities.len(), entities);
}
