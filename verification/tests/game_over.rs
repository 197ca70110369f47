use snake_core::components::Direction;
use snake_core::components::GameEndEvent;
use snake_core::components::Position;
use snake_core::game::over_system;
use snake_core::grid::Grid;
use snake_core::session::Session;
use snake_core::snake::eating_system;
use snake_core::snake::growth_system;
use snake_core::snake::movement_input_system;
use snake_core::snake::movement_system;
use snake_core::snake::spawn_system;
use snake_core::snake::Head;

fn new_game() -> Session {
    let mut s = Session::new(Grid { width: 10, height: 10 });
    spawn_system(&mut s);
    s
}

fn tick(s: &mut Session, intents: Vec<Option<Direction>>) -> Vec<GameEndEvent> {
    movement_input_system(s, &intents);
    let events = movement_system(s);
    let growth = eating_system(s);
    growth_system(s, &growth);
    events
}

fn head_pos(s: &Session, player: usize) -> Position {
    s.store.entities[s.segments.0[player][0]].position
}

fn all_positions(s: &Session) -> Vec<Position> {
    s.store.entities.iter().map(|d| d.position).collect()
}

#[test]
fn game_end_event_with_game_over() {
    let mut s = new_game();
    let mut total_events: usize = 0;

    for _ in 0..3 {
        total_events += tick(&mut s, vec![Some(Direction::Up), None]).len();
    }
    assert_eq!(total_events, 0);

    for _ in 0..20 {
        total_events += tick(&mut s, vec![Some(Direction::Up), None]).len();
    }
    // Both snakes run into the top wall on the same tick: one event each.
    assert_eq!(total_events, 2);

    let position_at_gameover = head_pos(&s, 0);
    tick(&mut s, vec![Some(Direction::Up), None]);
    let position_after_gameover = head_pos(&s, 0);
    assert_eq!(position_at_gameover, position_after_gameover);
}

#[test]
fn game_end_event_with_game_over_when_moving_left() {
    let mut s = new_game();
    let mut total_events: usize = 0;

    for _ in 0..3 {
        total_events += tick(&mut s, vec![Some(Direction::Left), None]).len();
    }
    assert_eq!(total_events, 0);

    for _ in 0..1 {
        total_events += tick(&mut s, vec![Some(Direction::Left), None]).len();
    }
    assert_eq!(total_events, 1);
}

#[test]
fn game_end_event_with_game_over_when_moving_right() {
    let mut s = new_game();
    let mut notices: usize = 0;

    for _ in 0..7 {
        let events = tick(&mut s, vec![Some(Direction::Right), None]);
        if over_system(&events).is_some() {
            notices += 1;
        }
    }
    // Deaths all fall on the seventh tick, so exactly one notice is shown.
    assert_eq!(notices, 1);
}

#[test]
fn wall_collision_raises_exactly_one_event() {
    // A single snake with its head on the left edge, moving left, raises
    // exactly one game-over event that tick.
    let mut s = Session::new(Grid { width: 10, height: 10 });
    s.store.entities.push(snake_core::store::EntityData {
        alive: true,
        is_segment: true,
        is_food: false,
        position: Position { x: 0, y: 5 },
    });
    s.segments.0.push(vec![0]);
    s.heads.push(Head { direction: Direction::Left });
    s.last_tail_position.0.push(None);

    let events = tick(&mut s, vec![None]);
    assert_eq!(events.len(), 1);
    assert_eq!(events[0], GameEndEvent::GameOver);
    assert!(s.game_over);
}

#[test]
fn self_collision_raises_game_over() {
    // A snake of length four curled so that moving down lands the head on
    // its own tail segment's pre-tick cell.
    let mut s = Session::new(Grid { width: 10, height: 10 });
    let cells = [
        Position { x: 5, y: 5 },
        Position { x: 4, y: 5 },
        Position { x: 4, y: 4 },
        Position { x: 5, y: 4 },
    ];
    for cell in cells {
        s.store.entities.push(snake_core::store::EntityData {
            alive: true,
            is_segment: true,
            is_food: false,
            position: cell,
        });
    }
    s.segments.0.push(vec![0, 1, 2, 3]);
    s.heads.push(Head { direction: Direction::Down });
    s.last_tail_position.0.push(None);

    let events = tick(&mut s, vec![None]);
    assert_eq!(events.len(), 1);
    assert!(s.game_over);
}

#[test]
fn cross_collision_raises_game_over_either_order() {
    // Player A's head moving onto player B's occupied cell raises game
    // over, whichever index the moving player has.
    for mover in [0usize, 1usize] {
        let mut s = Session::new(Grid { width: 10, height: 10 });
        // The mover: a single segment at (4,5) heading right into (5,5).
        // The other player: a single segment parked at (5,5) heading up.
        let mover_cell = Position { x: 4, y: 5 };
        let victim_cell = Position { x: 5, y: 5 };
        let (first_cell, second_cell) = if mover == 0 {
            (mover_cell, victim_cell)
        } else {
            (victim_cell, mover_cell)
        };
        for cell in [first_cell, second_cell] {
            s.store.entities.push(snake_core::store::EntityData {
                alive: true,
                is_segment: true,
                is_food: false,
                position: cell,
            });
        }
        s.segments.0.push(vec![0]);
        s.segments.0.push(vec![1]);
        let mover_head = Head { direction: Direction::Right };
        let victim_head = Head { direction: Direction::Up };
        if mover == 0 {
            s.heads.push(mover_head);
            s.heads.push(victim_head);
        } else {
            s.heads.push(victim_head);
            s.heads.push(mover_head);
        }
        s.last_tail_position.0.push(None);
        s.last_tail_position.0.push(None);

        let events = tick(&mut s, vec![None, None]);
        assert_eq!(events.len(), 1);
        assert!(s.game_over);
    }
}

#[test]
fn positions_freeze_after_game_over() {
    // Once latched, every entity position is identical across any number of
    // further ticks, whatever intents come in.
    let mut s = new_game();
    for _ in 0..30 {
        tick(&mut s, vec![Some(Direction::Up), None]);
    }
    assert!(s.game_over);
    let frozen = all_positions(&s);
    for _ in 0..10 {
        tick(&mut s, vec![Some(Direction::Left), Some(Direction::Right)]);
        assert_eq!(all_positions(&s), frozen);
    }
}

#[test]
fn over_system_reports_game_over_message() {
    let events = vec![GameEndEvent::GameOver];
    let notice = over_system(&events);
    assert_eq!(notice, Some(GameEndEvent::GameOver));
    assert_eq!(notice.unwrap().message(), "Game Over!");
    assert_eq!(over_system(&Vec::new()), None);
    assert_eq!(GameEndEvent::default(), GameEndEvent::GameOver);
}
