//! The snake actors and the tick pipeline stages that drive them: direction
//! update, movement with collision detection, the eating check, and growth.

use vstd::prelude::*;

use crate::components::Direction;
use crate::components::GameEndEvent;
use crate::components::Position;
use crate::grid::Grid;
use crate::session::heads_on_grid;
use crate::session::Session;
use crate::store::Entity;
use crate::store::EntityData;
use crate::store::Store;

verus! {

/// The state a snake's head carries: the direction the snake is facing.
#[derive(Clone, Copy, Debug, PartialEq, Eq, Structural)]
pub struct Head {
    pub direction: Direction,
}

impl Default for Head {
    /// A freshly spawned snake faces up.
    fn default() -> (r: Self)
        ensures
            r == (Head { direction: Direction::Up }),
    {
        Head { direction: Direction::Up }
    }
}

/// Per-player segment chains: `0[p]` is player `p`'s ordered chain of segment
/// entities, head first, tail last.
#[derive(Clone, Debug)]
pub struct Segments(pub Vec<Vec<Entity>>);

impl View for Segments {
    type V = Seq<Seq<Entity>>;

    open spec fn view(&self) -> Seq<Seq<Entity>> {
        Seq::new(self.0@.len(), |p: int| self.0@[p]@)
    }
}

/// One growth signal: the eating check saw this player's head on the food.
#[derive(Clone, Copy, Debug, PartialEq, Eq, Structural)]
pub struct GrowthEvent {
    pub player_id: u8,
}

/// Per-player, the cell the player's tail stood on immediately before the
/// most recent move: growth extends the snake from where the tail *was*.
#[derive(Clone, Debug)]
pub struct LastTailPosition(pub Vec<Option<Position>>);

/// The per-player directional intent handed in for player `p`: the entry of
/// `intents`, or no intent for players beyond its end.
pub open spec fn intent_of(intents: Seq<Option<Direction>>, p: int) -> Option<Direction> {
    if 0 <= p < intents.len() {
        intents[p]
    } else {
        None
    }
}

/// The direction a snake faces after one direction update: the intended
/// direction, except that a reversal into the snake's own body is rejected
/// and no intent keeps the current facing.
pub open spec fn updated_direction(current: Direction, intent: Option<Direction>) -> Direction {
    let candidate = match intent {
        Some(d) => d,
        None => current,
    };
    if candidate == current.opposite_spec() {
        current
    } else {
        candidate
    }
}

/// A snake can never reverse into itself in one tick: whatever the intent,
/// the direction accepted by the update is never the opposite of the current
/// one.
pub proof fn lemma_no_reversal(current: Direction, intent: Option<Direction>)
    ensures
        updated_direction(current, intent) != current.opposite_spec(),
{
    crate::components::lemma_opposite_differs(current);
}

/// Direction-update stage of the tick pipeline.
///
/// Each player's abstract intent (already decoupled from physical keys by the
/// input collaborator) becomes that player's new facing, unless it would
/// reverse the snake in place; no intent keeps the current facing.  Nothing
/// but the facings changes.
#[verifier::loop_isolation(false)]
pub fn movement_input_system(s: &mut Session, intents: &Vec<Option<Direction>>)
    requires
        old(s).wf(),
    ensures
        final(s).wf(),
        final(s).heads@.len() == old(s).heads@.len(),
        forall|p: int|
            0 <= p < old(s).num_players() ==> (#[trigger] final(s).heads@[p]).direction
                == updated_direction(old(s).heads@[p].direction, intent_of(intents@, p)),
        final(s).store == old(s).store,
        final(s).segments == old(s).segments,
        final(s).last_tail_position == old(s).last_tail_position,
        final(s).food == old(s).food,
        final(s).game_over == old(s).game_over,
        final(s).grid == old(s).grid,
{
    let num_players = s.heads.len();
    let mut p: usize = 0;
    while p < num_players
        invariant
            p <= num_players,
            s.heads@.len() == old(s).heads@.len(),
            forall|q: int|
                0 <= q < p ==> (#[trigger] s.heads@[q]).direction == updated_direction(
                    old(s).heads@[q].direction,
                    intent_of(intents@, q),
                ),
            forall|q: int| p <= q < num_players ==> s.heads@[q] == old(s).heads@[q],
            s.store == old(s).store,
            s.segments == old(s).segments,
            s.last_tail_position == old(s).last_tail_position,
            s.food == old(s).food,
            s.game_over == old(s).game_over,
            s.grid == old(s).grid,
        decreases num_players - p,
    {
        let current = s.heads[p].direction;
        let candidate = if p < intents.len() {
            match intents[p] {
                Some(d) => d,
                None => current,
            }
        } else {
            current
        };
        let accepted = if candidate == current.opposite() {
            current
        } else {
            candidate
        };
        s.heads.set(p, Head { direction: accepted });
        p += 1;
    }
}

/// The cell one step from `p` in direction `d`.  `Up` increases `y`, `Down`
/// decreases it, `Right` increases `x`, `Left` decreases it.
pub open spec fn offset_spec(p: Position, d: Direction) -> Position {
    match d {
        Direction::Left => (Position { x: (p.x - 1) as i16, y: p.y }),
        Direction::Right => (Position { x: (p.x + 1) as i16, y: p.y }),
        Direction::Up => (Position { x: p.x, y: (p.y + 1) as i16 }),
        Direction::Down => (Position { x: p.x, y: (p.y - 1) as i16 }),
    }
}

/// A head standing on the grid always steps to an adjacent cell: one step in
/// its facing direction changes exactly one coordinate by exactly one.
pub proof fn lemma_step_is_adjacent(g: Grid, p: Position, d: Direction)
    requires
        g.wf(),
        g.contains_spec(p),
    ensures
        crate::components::adjacent(p, offset_spec(p, d)),
{
}

/// The cell player `p`'s head moves to this tick: its pre-tick cell offset by
/// one step in its facing direction.
pub open spec fn new_head_pos(s: Session, p: int) -> Position {
    offset_spec(s.head_pos(p), s.heads@[p].direction)
}

/// Whether player `p`'s head moves off the grid this tick.
pub open spec fn hits_wall(s: Session, p: int) -> bool {
    !s.grid.contains_spec(new_head_pos(s, p))
}

/// Whether player `p`'s head moves onto the pre-tick cell of any live
/// segment-tagged entity other than itself — its own body or any other
/// player's, with `s` the pre-tick session.
pub open spec fn hits_body(s: Session, p: int) -> bool {
    exists|e: int|
        0 <= e < s.n_entities() && e != s.chain(p)[0] && (#[trigger] s.store.entities@[e]).alive
            && s.store.entities@[e].is_segment && s.store.entities@[e].position == new_head_pos(
            s,
            p,
        )
}

/// Whether player `p`'s move this tick ends the game, with `s` the pre-tick
/// session.
pub open spec fn dies(s: Session, p: int) -> bool {
    hits_wall(s, p) || hits_body(s, p)
}

/// How many of the players `0 .. n` make a game-ending move this tick.
pub open spec fn deaths_upto(s: Session, n: int) -> int
    decreases n,
{
    if n <= 0 {
        0
    } else {
        deaths_upto(s, n - 1) + if dies(s, n - 1) {
            1int
        } else {
            0int
        }
    }
}

/// Whether entity `e` occupies a chain slot of one of the players `0 .. p`.
pub open spec fn in_prefix_chains(s: Session, p: int, e: int) -> bool {
    exists|q: int, j: int|
        0 <= q < p && 0 <= j < s.chain(q).len() && (#[trigger] s.chain(q)[j]) == e
}

/// Whether entity `e` occupies one of the first `i` slots of player `p`'s
/// chain.
pub open spec fn in_chain_slice(s: Session, p: int, i: int, e: int) -> bool {
    exists|j: int| 0 <= j < i && j < s.chain(p).len() && (#[trigger] s.chain(p)[j]) == e
}

/// Whether entity `e` belongs to a chain slot the movement engine has already
/// rewritten once players `0 .. p` are done and slots `0 .. i` of player `p`
/// are done.
pub open spec fn written(s: Session, p: int, i: int, e: int) -> bool {
    in_prefix_chains(s, p, e) || in_chain_slice(s, p, i, e)
}

/// Whether entity `e` occupies any chain slot of any player.
pub open spec fn in_some_chain(s: Session, e: int) -> bool {
    in_prefix_chains(s, s.num_players(), e)
}

/// The cell slot `i` of player `p`'s chain holds after the move, in terms of
/// the pre-tick session `s`: the head advances one step, every other segment
/// takes the pre-tick cell of its predecessor.
pub open spec fn target_pos(s: Session, p: int, i: int) -> Position {
    if i == 0 {
        new_head_pos(s, p)
    } else {
        s.ent(s.chain(p)[i - 1] as int).position
    }
}

/// The movement engine's pre-tick snapshot: the position of every entity of
/// the arena, by identifier.  All shifts and collision checks of one tick
/// read this copy, so every player moves against pre-tick state, whatever
/// order the players are processed in.
#[verifier::loop_isolation(false)]
fn snapshot_positions(store: &Store) -> (r: Vec<Position>)
    ensures
        r@.len() == store.entities@.len(),
        forall|k: int| 0 <= k < r@.len() ==> r@[k] == store.entities@[k].position,
{
    let mut r: Vec<Position> = Vec::new();
    let n = store.len();
    let mut k: usize = 0;
    while k < n
        invariant
            k <= n,
            r@.len() == k,
            forall|j: int| 0 <= j < k ==> r@[j] == store.entities@[j].position,
        decreases n - k,
    {
        r.push(store.get(k).position);
        k += 1;
    }
    r
}

/// Movement stage of the tick pipeline.
///
/// While the latch is down, every player's snake advances one cell against a
/// single pre-tick snapshot: each non-head segment takes the snapshotted cell
/// of its predecessor, the head takes one step in its facing direction, and
/// the pre-shift tail cell is recorded for the growth coordinator.  One
/// `GameOver` event is returned per player whose head left the grid or landed
/// on the snapshotted cell of any other segment, and any such event raises
/// the latch.  Once the latch is up the engine is a no-op: the board stays
/// frozen for the rest of the session.
#[verifier::loop_isolation(false)]
#[verifier::rlimit(100)]
pub fn movement_system(s: &mut Session) -> (events: Vec<GameEndEvent>)
    requires
        old(s).wf(),
    ensures
        final(s).wf(),
        final(s).grid == old(s).grid,
        final(s).segments == old(s).segments,
        final(s).heads == old(s).heads,
        final(s).food == old(s).food,
        final(s).n_entities() == old(s).n_entities(),
        old(s).game_over ==> *final(s) == *old(s) && events@.len() == 0,
        !old(s).game_over ==> final(s).game_over == (deaths_upto(*old(s), old(s).num_players())
            > 0),
        !old(s).game_over ==> events@.len() == deaths_upto(*old(s), old(s).num_players()),
        forall|i: int| 0 <= i < events@.len() ==> events@[i] == GameEndEvent::GameOver,
        !old(s).game_over ==> forall|e: int|
            0 <= e < old(s).n_entities() ==> ((#[trigger] final(s).ent(e)).alive == old(s).ent(
                e,
            ).alive && final(s).ent(e).is_segment == old(s).ent(e).is_segment && final(s).ent(
                e,
            ).is_food == old(s).ent(e).is_food),
        !old(s).game_over ==> forall|e: int|
            0 <= e < old(s).n_entities() && !in_some_chain(*old(s), e) ==> (#[trigger] final(s).ent(e)) == old(s).ent(e),
        !old(s).game_over ==> forall|p: int|
            0 <= p < old(s).num_players() ==> (#[trigger] final(s).head_pos(p)) == new_head_pos(
                *old(s),
                p,
            ),
        !old(s).game_over ==> forall|p: int, i: int|
            0 <= p < old(s).num_players() && 1 <= i < old(s).chain(p).len() ==> final(s).ent(
                (#[trigger] old(s).chain(p)[i]) as int,
            ).position == old(s).ent(old(s).chain(p)[i - 1] as int).position,
        !old(s).game_over ==> forall|p: int|
            0 <= p < old(s).num_players() ==> (#[trigger] final(s).last_tail_position.0@[p])
                == Some(old(s).ent(old(s).chain(p).last() as int).position),
{
    if s.game_over {
        return Vec::new();
    }
    let num_players = s.heads.len();
    let snapshot = snapshot_positions(&s.store);
    let mut events: Vec<GameEndEvent> = Vec::new();
    let mut p: usize = 0;
    while p < num_players
        invariant
            p <= num_players,
            s.grid == old(s).grid,
            s.segments == old(s).segments,
            s.heads == old(s).heads,
            s.food == old(s).food,
            s.game_over == old(s).game_over,
            s.store.entities@.len() == old(s).store.entities@.len(),
            forall|e: int|
                0 <= e < old(s).n_entities() ==> ((#[trigger] old(s).store.entities@[e]).alive
                    == s.store.entities@[e].alive && old(s).store.entities@[e].is_segment
                    == s.store.entities@[e].is_segment && old(s).store.entities@[e].is_food
                    == s.store.entities@[e].is_food),
            forall|e: int|
                0 <= e < old(s).n_entities() && !written(*old(s), p as int, 0, e) ==> (
                #[trigger] old(s).store.entities@[e]).position == s.store.entities@[e].position,
            forall|q: int, j: int|
                0 <= q < p && 0 <= j < old(s).chain(q).len() ==> s.store.entities@[(
                #[trigger] old(s).chain(q)[j]) as int].position == target_pos(*old(s), q, j),
            s.last_tail_position.0@.len() == old(s).last_tail_position.0@.len(),
            forall|q: int|
                0 <= q < p ==> (#[trigger] s.last_tail_position.0@[q]) == Some(
                    old(s).ent(old(s).chain(q).last() as int).position,
                ),
            forall|q: int|
                p <= q < num_players ==> (#[trigger] s.last_tail_position.0@[q]) == old(
                    s,
                ).last_tail_position.0@[q],
            events@.len() == deaths_upto(*old(s), p as int),
            forall|i: int| 0 <= i < events@.len() ==> events@[i] == GameEndEvent::GameOver,
            snapshot@.len() == old(s).n_entities(),
            forall|k: int|
                0 <= k < snapshot@.len() ==> (#[trigger] snapshot@[k]) == old(
                    s,
                ).store.entities@[k].position,
        decreases num_players - p,
    {
        proof {
            assert(s.segments.0@.len() == old(s).chains().len());
            assert(s.segments.0@[p as int]@ == old(s).chain(p as int));
            assert(old(s).chain(p as int).len() >= 1);
        }
        let head_e = s.segments.0[p][0];
        proof {
            assert(old(s).chain(p as int)[0] == head_e);
            assert(old(s).grid.contains_spec(old(s).head_pos(p as int)));
            assert(!written(*old(s), p as int, 0, head_e as int));
            assert(snapshot@[head_e as int] == old(s).head_pos(p as int));
        }
        let hp = snapshot[head_e];
        let dir = s.heads[p].direction;
        let new_pos = match dir {
            Direction::Left => Position { x: hp.x - 1, y: hp.y },
            Direction::Right => Position { x: hp.x + 1, y: hp.y },
            Direction::Up => Position { x: hp.x, y: hp.y + 1 },
            Direction::Down => Position { x: hp.x, y: hp.y - 1 },
        };
        proof {
            assert(new_pos == new_head_pos(*old(s), p as int));
        }
        let on_grid = s.grid.contains(new_pos);
        let n = s.store.len();
        let mut hit = false;
        let mut e: usize = 0;
        while e < n
            invariant
                e <= n,
                n == old(s).n_entities(),
                hit == exists|k: int|
                    0 <= k < e && k != old(s).chain(p as int)[0] && (#[trigger] old(
                        s,
                    ).store.entities@[k]).alive && old(s).store.entities@[k].is_segment && old(
                        s,
                    ).store.entities@[k].position == new_head_pos(*old(s), p as int),
            decreases n - e,
        {
            if e != head_e {
                let d = s.store.get(e);
                if d.alive && d.is_segment {
                    let cell = snapshot[e];
                    if cell == new_pos {
                        hit = true;
                    }
                }
            }
            e += 1;
        }
        proof {
            assert(hit == hits_body(*old(s), p as int));
            assert(dies(*old(s), p as int) == (!on_grid || hit));
        }
        if !on_grid || hit {
            events.push(GameEndEvent::GameOver);
        }
        s.store.set_position(head_e, new_pos);
        let chain_len = s.segments.0[p].len();
        let tail_e = s.segments.0[p][chain_len - 1];
        let tail_cell = snapshot[tail_e];
        s.last_tail_position.0.set(p, Some(tail_cell));
        proof {
            assert(old(s).chain(p as int)[chain_len - 1] == tail_e);
            assert(old(s).chain(p as int).last() == tail_e);
        }
        let mut i: usize = 1;
        while i < chain_len
            invariant
                1 <= i <= chain_len,
                chain_len == old(s).chain(p as int).len(),
                s.grid == old(s).grid,
                s.segments == old(s).segments,
                s.heads == old(s).heads,
                s.food == old(s).food,
                s.game_over == old(s).game_over,
                s.store.entities@.len() == old(s).store.entities@.len(),
                forall|e: int|
                    0 <= e < old(s).n_entities() ==> ((#[trigger] old(s).store.entities@[e]).alive
                        == s.store.entities@[e].alive && old(s).store.entities@[e].is_segment
                        == s.store.entities@[e].is_segment && old(s).store.entities@[e].is_food
                        == s.store.entities@[e].is_food),
                forall|e: int|
                    0 <= e < old(s).n_entities() && !written(*old(s), p as int, i as int, e) ==> (
                    #[trigger] old(s).store.entities@[e]).position
                        == s.store.entities@[e].position,
                forall|q: int, j: int|
                    0 <= q < p && 0 <= j < old(s).chain(q).len() ==> s.store.entities@[(
                    #[trigger] old(s).chain(q)[j]) as int].position == target_pos(*old(s), q, j),
                forall|j: int|
                    0 <= j < i ==> s.store.entities@[(#[trigger] old(s).chain(p as int)[j]) as int].position
                        == target_pos(*old(s), p as int, j),
                s.last_tail_position.0@.len() == old(s).last_tail_position.0@.len(),
                forall|q: int|
                    0 <= q <= p ==> (#[trigger] s.last_tail_position.0@[q]) == Some(
                        old(s).ent(old(s).chain(q).last() as int).position,
                    ),
                forall|q: int|
                    p < q < num_players ==> (#[trigger] s.last_tail_position.0@[q]) == old(
                        s,
                    ).last_tail_position.0@[q],
            decreases chain_len - i,
        {
            let e_i = s.segments.0[p][i];
            let prev_e = s.segments.0[p][i - 1];
            proof {
                assert(old(s).chain(p as int)[i as int] == e_i);
                assert(old(s).chain(p as int)[i - 1] == prev_e);
            }
            let cell = snapshot[prev_e];
            s.store.set_position(e_i, cell);
            i += 1;
        }
        proof {
            assert forall|ee: int|
                0 <= ee < old(s).n_entities() && !written(*old(s), p as int + 1, 0, ee) implies !written(
                *old(s),
                p as int,
                old(s).chain(p as int).len() as int,
                ee,
            ) by {
                lemma_written_next_player(*old(s), p as int, ee);
            }
        }
        p += 1;
    }
    if events.len() > 0 {
        s.game_over = true;
    }
    proof {
        assert(s.chains() == old(s).chains());
        assert forall|q: int| 0 <= q < old(s).num_players() implies (#[trigger] s.head_pos(q))
            == new_head_pos(*old(s), q) by {
            assert(s.chain(q)[0] == old(s).chain(q)[0]);
            assert(s.store.entities@[old(s).chain(q)[0] as int].position == target_pos(
                *old(s),
                q,
                0,
            ));
        }
        if !s.game_over {
            assert(deaths_upto(*old(s), old(s).num_players()) == 0);
            assert forall|q: int| 0 <= q < s.chains().len() implies s.grid.contains_spec(
                s.ents()[(#[trigger] s.chains()[q])[0] as int].position,
            ) by {
                lemma_no_deaths(*old(s), old(s).num_players(), q);
                assert(!hits_wall(*old(s), q));
                assert(s.head_pos(q) == new_head_pos(*old(s), q));
            }
            assert(heads_on_grid(s.grid, s.chains(), s.ents()));
        }
        crate::session::lemma_wf_same_shape(*old(s), *s);
    }
    events
}

/// The least player index at or after `from` whose head stands on `cell`, in
/// the pre-check session `s`.
pub open spec fn first_head_at(s: Session, cell: Position, from: int) -> Option<int>
    decreases s.num_players() - from,
{
    if from < 0 || from >= s.num_players() {
        None
    } else if s.head_pos(from) == cell {
        Some(from)
    } else {
        first_head_at(s, cell, from + 1)
    }
}

/// Eating-check stage of the tick pipeline.
///
/// After movement, if some player's head stands on the food's cell, the food
/// entity is destroyed at once and exactly one growth signal is emitted,
/// tagged with the lowest such player index; destruction is immediate, so no
/// second player can eat the same food.  With no food, or no head on it,
/// nothing changes and no signal is emitted.
#[verifier::loop_isolation(false)]
pub fn eating_system(s: &mut Session) -> (growth: Vec<GrowthEvent>)
    requires
        old(s).wf(),
    ensures
        final(s).wf(),
        final(s).grid == old(s).grid,
        final(s).segments == old(s).segments,
        final(s).heads == old(s).heads,
        final(s).last_tail_position == old(s).last_tail_position,
        final(s).game_over == old(s).game_over,
        final(s).n_entities() == old(s).n_entities(),
        growth@.len() <= 1,
        (match old(s).food {
            Some(f) => (match first_head_at(*old(s), old(s).ent(f as int).position, 0) {
                Some(p) => {
                    &&& growth@ == seq![(GrowthEvent { player_id: p as u8 })]
                    &&& final(s).food is None
                    &&& final(s).store.entities@ == old(s).store.entities@.update(
                        f as int,
                        (EntityData { alive: false, ..old(s).ent(f as int) }),
                    )
                },
                None => *final(s) == *old(s) && growth@.len() == 0,
            }),
            None => *final(s) == *old(s) && growth@.len() == 0,
        }),
{
    let f = match s.food {
        Some(f) => f,
        None => {
            return Vec::new();
        },
    };
    let food_pos = s.store.get(f).position;
    let num_players = s.heads.len();
    let mut p: usize = 0;
    while p < num_players
        invariant
            p <= num_players,
            *s == *old(s),
            first_head_at(*old(s), old(s).ent(f as int).position, 0) == first_head_at(
                *old(s),
                old(s).ent(f as int).position,
                p as int,
            ),
        decreases num_players - p,
    {
        proof {
            assert(s.segments.0@.len() == old(s).chains().len());
            assert(s.segments.0@[p as int]@ == old(s).chain(p as int));
            assert(old(s).chain(p as int).len() >= 1);
        }
        let head_e = s.segments.0[p][0];
        let hp = s.store.get(head_e).position;
        proof {
            assert(hp == old(s).head_pos(p as int));
        }
        if hp == food_pos {
            s.store.despawn(f);
            s.food = None;
            let mut growth: Vec<GrowthEvent> = Vec::new();
            growth.push(GrowthEvent { player_id: p as u8 });
            proof {
                assert(first_head_at(*old(s), old(s).ent(f as int).position, p as int) == Some(
                    p as int,
                ));
                assert(s.chains() == old(s).chains());
                assert forall|pp: int, i: int|
                    0 <= pp < s.chains().len() && 0 <= i < s.chains()[pp].len() implies {
                    let e = #[trigger] s.chains()[pp][i];
                    &&& e < s.ents().len()
                    &&& s.ents()[e as int].alive
                    &&& s.ents()[e as int].is_segment
                } by {
                    let e = s.chains()[pp][i];
                    assert(old(s).chains()[pp][i] == e);
                    assert(e < old(s).ents().len() && old(s).ents()[e as int].alive && old(
                        s,
                    ).ents()[e as int].is_segment);
                    assert(e != f);
                }
                assert forall|e: int|
                    0 <= e < s.ents().len() && (#[trigger] s.ents()[e]).alive
                        && s.ents()[e].is_food implies s.food == Some(e as usize) by {
                    vstd::std_specs::vec::axiom_spec_len(&old(s).store.entities);
                    assert(e != f);
                    assert(old(s).ents()[e].alive && old(s).ents()[e].is_food);
                    assert(old(s).food == Some(e as usize));
                    assert(false);
                }
                if !s.game_over {
                    assert forall|q: int| 0 <= q < s.chains().len() implies s.grid.contains_spec(
                        s.ents()[(#[trigger] s.chains()[q])[0] as int].position,
                    ) by {
                        let e = s.chains()[q][0];
                        assert(old(s).chains()[q][0] == e);
                        assert(s.ents()[e as int].position == old(s).ents()[e as int].position);
                        assert(old(s).grid.contains_spec(old(s).ents()[e as int].position));
                    }
                }
            }
            return growth;
        }
        p += 1;
    }
    Vec::new()
}

/// One growth signal applied to the arena and the chains, in terms of the
/// pre-growth state: a known player with a recorded tail cell gets one fresh
/// live segment entity there, appended to the end of its chain.  A signal for
/// an unknown player, or for one with no recorded tail cell yet (a pipeline
/// ordering violation), is rejected as a defensive no-op.
pub open spec fn grow_one(
    ents: Seq<EntityData>,
    chains: Seq<Seq<Entity>>,
    tails: Seq<Option<Position>>,
    ev: GrowthEvent,
) -> (Seq<EntityData>, Seq<Seq<Entity>>) {
    let pid = ev.player_id as int;
    if pid < chains.len() && pid < tails.len() {
        match tails[pid] {
            Some(cell) => (
                ents.push(
                    (EntityData { alive: true, is_segment: true, is_food: false, position: cell }),
                ),
                chains.update(pid, chains[pid].push(ents.len() as usize)),
            ),
            None => (ents, chains),
        }
    } else {
        (ents, chains)
    }
}

/// A sequence of growth signals applied in order, each against the state the
/// previous ones left behind but all against the same recorded tail cells.
pub open spec fn grow_all(
    ents: Seq<EntityData>,
    chains: Seq<Seq<Entity>>,
    tails: Seq<Option<Position>>,
    evs: Seq<GrowthEvent>,
) -> (Seq<EntityData>, Seq<Seq<Entity>>)
    decreases evs.len(),
{
    if evs.len() <= 0 {
        (ents, chains)
    } else {
        let r = grow_all(ents, chains, tails, evs.drop_last());
        grow_one(r.0, r.1, tails, evs.last())
    }
}

/// Applies one growth signal to the session, exactly as `grow_one` describes.
#[verifier::rlimit(30)]
fn growth_apply(s: &mut Session, ev: GrowthEvent)
    requires
        old(s).wf(),
        old(s).store.entities@.len() < usize::MAX,
    ensures
        final(s).wf(),
        final(s).grid == old(s).grid,
        final(s).heads == old(s).heads,
        final(s).last_tail_position == old(s).last_tail_position,
        final(s).food == old(s).food,
        final(s).game_over == old(s).game_over,
        final(s).store.entities@.len() <= old(s).store.entities@.len() + 1,
        (final(s).store.entities@, final(s).chains()) == grow_one(
            old(s).store.entities@,
            old(s).chains(),
            old(s).last_tail_position.0@,
            ev,
        ),
{
    let pid = ev.player_id as usize;
    if pid >= s.segments.0.len() {
        proof {
            assert(s.chains().len() == s.segments.0@.len());
        }
        return ;
    }
    proof {
        assert(s.last_tail_position.0@.len() == s.chains().len());
    }
    let cell = match s.last_tail_position.0[pid] {
        Some(cell) => cell,
        None => {
            return ;
        },
    };
    let e = s.store.spawn(true, false, cell);
    let row = vstd::std_specs::vec::vec_index_mut(&mut s.segments.0, pid);
    row.push(e);
    proof {
        let pre = *old(s);
        assert(s.segments.0@ == pre.segments.0@.update(
            pid as int,
            s.segments.0@[pid as int],
        ));
        assert(s.segments.0@[pid as int]@ == pre.chain(pid as int).push(e));
        assert(s.chains() =~~= pre.chains().update(pid as int, pre.chain(pid as int).push(e)));
        assert(s.ents() == pre.ents().push(
            (EntityData { alive: true, is_segment: true, is_food: false, position: cell }),
        ));
        assert forall|pp: int, i: int|
            0 <= pp < s.chains().len() && 0 <= i < s.chains()[pp].len() implies {
            let ee = #[trigger] s.chains()[pp][i];
            &&& ee < s.ents().len()
            &&& s.ents()[ee as int].alive
            &&& s.ents()[ee as int].is_segment
        } by {
            let ee = s.chains()[pp][i];
            if pp == pid as int && i == s.chains()[pp].len() - 1 {
                assert(ee == e);
            } else {
                assert(ee == pre.chains()[pp][i]);
                assert(ee < pre.ents().len());
            }
        }
        assert forall|p1: int, i1: int, p2: int, i2: int|
            0 <= p1 < s.chains().len() && 0 <= i1 < s.chains()[p1].len() && 0 <= p2
                < s.chains().len() && 0 <= i2 < s.chains()[p2].len() && (p1 != p2 || i1 != i2) implies (
        #[trigger] s.chains()[p1][i1]) != (#[trigger] s.chains()[p2][i2]) by {
            let new1 = p1 == pid as int && i1 == s.chains()[p1].len() - 1;
            let new2 = p2 == pid as int && i2 == s.chains()[p2].len() - 1;
            if new1 && !new2 {
                assert(s.chains()[p2][i2] == pre.chains()[p2][i2]);
                assert(pre.chains()[p2][i2] < pre.ents().len());
            } else if !new1 && new2 {
                assert(s.chains()[p1][i1] == pre.chains()[p1][i1]);
                assert(pre.chains()[p1][i1] < pre.ents().len());
            } else if !new1 && !new2 {
                assert(s.chains()[p1][i1] == pre.chains()[p1][i1]);
                assert(s.chains()[p2][i2] == pre.chains()[p2][i2]);
            }
        }
        assert forall|ee: int|
            0 <= ee < s.ents().len() && (#[trigger] s.ents()[ee]).alive
                && s.ents()[ee].is_food implies s.food == Some(ee as usize) by {
            assert(ee < pre.ents().len());
            assert(pre.ents()[ee].alive && pre.ents()[ee].is_food);
        }
        if let Some(ff) = s.food {
            assert(pre.ents()[ff as int].alive && pre.ents()[ff as int].is_food);
            assert(!pre.ents()[ff as int].is_segment);
        }
        if !s.game_over {
            assert forall|q: int| 0 <= q < s.chains().len() implies s.grid.contains_spec(
                s.ents()[(#[trigger] s.chains()[q])[0] as int].position,
            ) by {
                assert(s.chains()[q].len() >= 1);
                assert(s.chains()[q][0] == pre.chains()[q][0]);
                assert(pre.chains()[q][0] < pre.ents().len());
                assert(pre.grid.contains_spec(pre.ents()[pre.chains()[q][0] as int].position));
            }
        }
    }
}

/// Growth stage of the tick pipeline.
///
/// Consumes the growth signals emitted by the eating check this tick.  For
/// each signal naming a known player, a fresh segment entity is appended to
/// that player's chain at the tail cell the movement engine recorded this
/// same tick — exactly one cell behind where the old tail used to be.  A
/// signal without a recorded tail cell is rejected rather than creating a
/// malformed chain.
#[verifier::loop_isolation(false)]
pub fn growth_system(s: &mut Session, events: &Vec<GrowthEvent>)
    requires
        old(s).wf(),
        old(s).store.entities@.len() + events@.len() <= usize::MAX,
    ensures
        final(s).wf(),
        final(s).grid == old(s).grid,
        final(s).heads == old(s).heads,
        final(s).last_tail_position == old(s).last_tail_position,
        final(s).food == old(s).food,
        final(s).game_over == old(s).game_over,
        (final(s).store.entities@, final(s).chains()) == grow_all(
            old(s).store.entities@,
            old(s).chains(),
            old(s).last_tail_position.0@,
            events@,
        ),
{
    let n_events = events.len();
    let mut k: usize = 0;
    while k < n_events
        invariant
            k <= n_events,
            s.grid == old(s).grid,
            s.heads == old(s).heads,
            s.last_tail_position == old(s).last_tail_position,
            s.food == old(s).food,
            s.game_over == old(s).game_over,
            s.wf(),
            s.store.entities@.len() <= old(s).store.entities@.len() + k,
            (s.store.entities@, s.chains()) == grow_all(
                old(s).store.entities@,
                old(s).chains(),
                old(s).last_tail_position.0@,
                events@.take(k as int),
            ),
        decreases n_events - k,
    {
        let ev = events[k];
        growth_apply(s, ev);
        proof {
            assert(events@.take(k as int + 1).drop_last() =~= events@.take(k as int));
            assert(events@.take(k as int + 1).last() == events@[k as int]);
        }
        k += 1;
    }
    proof {
        assert(events@.take(n_events as int) =~= events@);
    }
}

/// The starting column of player `p`'s snake: player `0` starts near the
/// left edge, every other player near the right edge.
pub open spec fn spawn_column(grid: Grid, player_id: u8) -> i16 {
    if player_id == 0 {
        3
    } else {
        (grid.width - 3) as i16
    }
}

/// Creates one live segment-tagged entity at `position` and returns its
/// identifier.  The entity joins a chain only when the caller appends it;
/// the player's visual attributes are the rendering collaborator's concern.
pub fn spawn_segment_system(s: &mut Session, position: Position, _player_id: u8) -> (e: Entity)
    requires
        old(s).wf(),
        old(s).store.entities@.len() < usize::MAX,
    ensures
        final(s).wf(),
        e == old(s).store.entities@.len(),
        final(s).store.entities@ == old(s).store.entities@.push(
            (EntityData { alive: true, is_segment: true, is_food: false, position }),
        ),
        final(s).grid == old(s).grid,
        final(s).segments == old(s).segments,
        final(s).heads == old(s).heads,
        final(s).last_tail_position == old(s).last_tail_position,
        final(s).food == old(s).food,
        final(s).game_over == old(s).game_over,
{
    let e = s.store.spawn(true, false, position);
    proof {
        let pre = *old(s);
        assert(s.chains() == pre.chains());
        assert forall|pp: int, i: int|
            0 <= pp < s.chains().len() && 0 <= i < s.chains()[pp].len() implies {
            let ee = #[trigger] s.chains()[pp][i];
            &&& ee < s.ents().len()
            &&& s.ents()[ee as int].alive
            &&& s.ents()[ee as int].is_segment
        } by {
            assert(pre.chains()[pp][i] == s.chains()[pp][i]);
            assert(s.chains()[pp][i] < pre.ents().len());
        }
        assert forall|ee: int|
            0 <= ee < s.ents().len() && (#[trigger] s.ents()[ee]).alive
                && s.ents()[ee].is_food implies s.food == Some(ee as usize) by {
            assert(ee < pre.ents().len());
            assert(pre.ents()[ee].alive && pre.ents()[ee].is_food);
        }
        if let Some(ff) = s.food {
            assert(pre.ents()[ff as int].alive && pre.ents()[ff as int].is_food);
            assert(!pre.ents()[ff as int].is_segment);
        }
        if !s.game_over {
            assert forall|q: int| 0 <= q < s.chains().len() implies s.grid.contains_spec(
                s.ents()[(#[trigger] s.chains()[q])[0] as int].position,
            ) by {
                assert(s.chains()[q][0] == pre.chains()[q][0]);
                assert(pre.chains()[q][0] < pre.ents().len());
                assert(pre.grid.contains_spec(pre.ents()[pre.chains()[q][0] as int].position));
            }
        }
    }
    e
}

/// Creates the head and first trailing segment of one player's snake, in its
/// starting column: the head on row `3`, the segment right below it on row
/// `2`.  Returns the two entity identifiers, head first; the caller installs
/// them as the player's chain.
fn spawn_entity_with_segment(s: &mut Session, player_id: u8) -> (r: Vec<Entity>)
    requires
        old(s).wf(),
        old(s).store.entities@.len() + 2 <= usize::MAX,
        old(s).grid.width >= 4,
        old(s).grid.height >= 4,
    ensures
        final(s).wf(),
        r@.len() == 2,
        r@[0] == old(s).store.entities@.len(),
        r@[1] == old(s).store.entities@.len() + 1,
        final(s).store.entities@ == old(s).store.entities@.push(
            (EntityData {
                alive: true,
                is_segment: true,
                is_food: false,
                position: (Position { x: spawn_column(old(s).grid, player_id), y: 3 }),
            }),
        ).push(
            (EntityData {
                alive: true,
                is_segment: true,
                is_food: false,
                position: (Position { x: spawn_column(old(s).grid, player_id), y: 2 }),
            }),
        ),
        final(s).grid == old(s).grid,
        final(s).segments == old(s).segments,
        final(s).heads == old(s).heads,
        final(s).last_tail_position == old(s).last_tail_position,
        final(s).food == old(s).food,
        final(s).game_over == old(s).game_over,
{
    let x: i16 = if player_id == 0 {
        3
    } else {
        (s.grid.width - 3) as i16
    };
    let head = spawn_segment_system(s, Position { x, y: 3 }, player_id);
    let seg = spawn_segment_system(s, Position { x, y: 2 }, player_id);
    let mut r: Vec<Entity> = Vec::new();
    r.push(head);
    r.push(seg);
    r
}

/// Session bootstrap: creates the two players' snakes before the first tick.
///
/// Each snake is a head plus one trailing segment, facing up, in
/// non-overlapping starting columns; no tail cell is recorded yet and the
/// latch stays down.
#[verifier::rlimit(30)]
pub fn spawn_system(s: &mut Session)
    requires
        old(s).wf(),
        old(s).n_entities() == 0,
        old(s).num_players() == 0,
        old(s).food is None,
        !old(s).game_over,
        old(s).grid.width >= 4,
        old(s).grid.width != 6,
        old(s).grid.height >= 4,
    ensures
        final(s).wf(),
        final(s).grid == old(s).grid,
        !final(s).game_over,
        final(s).food is None,
        final(s).num_players() == 2,
        final(s).n_entities() == 4,
        final(s).chain(0) == seq![0usize, 1usize],
        final(s).chain(1) == seq![2usize, 3usize],
        forall|p: int|
            0 <= p < 2 ==> (#[trigger] final(s).heads@[p]).direction == Direction::Up,
        final(s).head_pos(0) == (Position { x: 3, y: 3 }),
        final(s).ent(1).position == (Position { x: 3, y: 2 }),
        final(s).head_pos(1) == (Position { x: spawn_column(old(s).grid, 1), y: 3 }),
        final(s).ent(3).position == (Position { x: spawn_column(old(s).grid, 1), y: 2 }),
        final(s).last_tail_position.0@ == seq![None::<Position>, None::<Position>],
{
    let chain0 = spawn_entity_with_segment(s, 0);
    let chain1 = spawn_entity_with_segment(s, 1);
    s.segments.0.push(chain0);
    s.segments.0.push(chain1);
    s.heads.push(Head::default());
    s.heads.push(Head::default());
    s.last_tail_position.0.push(None);
    s.last_tail_position.0.push(None);
    proof {
        assert(s.chains().len() == 2);
        assert(s.chain(0) =~= seq![0usize, 1usize]);
        assert(s.chain(1) =~= seq![2usize, 3usize]);
        assert(s.last_tail_position.0@ =~= seq![None::<Position>, None::<Position>]);
        assert(s.ents().len() == 4);
        assert(s.ents()[0].position == (Position { x: 3, y: 3 }));
        assert(s.ents()[2].position == (Position { x: spawn_column(old(s).grid, 1), y: 3 }));
        assert forall|pp: int, i: int|
            0 <= pp < s.chains().len() && 0 <= i < s.chains()[pp].len() implies {
            let ee = #[trigger] s.chains()[pp][i];
            &&& ee < s.ents().len()
            &&& s.ents()[ee as int].alive
            &&& s.ents()[ee as int].is_segment
        } by {
            assert(s.chains()[pp].len() == 2);
        }
        assert(s.grid.contains_spec(s.ents()[0].position));
        assert(s.grid.contains_spec(s.ents()[2].position));
        assert forall|q: int| 0 <= q < s.chains().len() implies s.grid.contains_spec(
            s.ents()[(#[trigger] s.chains()[q])[0] as int].position,
        ) by {
            if q == 0 {
                assert(s.chains()[q][0] == 0usize);
            } else {
                assert(s.chains()[q][0] == 2usize);
            }
        }
    }
}

/// What is written once every slot of player `p`'s chain is done is no more
/// than what counts as written when the engine turns to player `p + 1`.
proof fn lemma_written_next_player(s: Session, p: int, e: int)
    requires
        0 <= p,
        !written(s, p + 1, 0, e),
    ensures
        !written(s, p, s.chain(p).len() as int, e),
{
    if in_prefix_chains(s, p, e) {
        let (q, j) = choose|q: int, j: int|
            0 <= q < p && 0 <= j < s.chain(q).len() && s.chain(q)[j] == e;
        assert(0 <= q < p + 1 && 0 <= j < s.chain(q).len() && s.chain(q)[j] == e);
        assert(false);
    }
    if in_chain_slice(s, p, s.chain(p).len() as int, e) {
        let j = choose|j: int| 0 <= j < s.chain(p).len() && s.chain(p)[j] == e;
        assert(in_prefix_chains(s, p + 1, e));
        assert(false);
    }
}

/// Every count of game-ending moves is non-negative.
proof fn lemma_deaths_nonneg(s: Session, n: int)
    ensures
        deaths_upto(s, n) >= 0,
    decreases n,
{
    if n > 0 {
        lemma_deaths_nonneg(s, n - 1);
    }
}

/// If no player among `0 .. n` makes a game-ending move, then in particular
/// player `q` does not.
proof fn lemma_no_deaths(s: Session, n: int, q: int)
    requires
        deaths_upto(s, n) == 0,
        0 <= q < n,
    ensures
        !dies(s, q),
    decreases n,
{
    lemma_deaths_nonneg(s, n - 1);
    if q < n - 1 {
        lemma_no_deaths(s, n - 1, q);
    }
}

} // verus!
