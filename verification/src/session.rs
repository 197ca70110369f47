//! The per-session context object threaded through every pipeline stage: the
//! grid, the entity store, the per-player snake state, and the game-over
//! latch.

use vstd::prelude::*;

use crate::components::Position;
use crate::grid::Grid;
use crate::snake::Head;
use crate::snake::LastTailPosition;
use crate::snake::Segments;
use crate::store::Entity;
use crate::store::EntityData;
use crate::store::Store;

verus! {

/// All state of one game session.
///
/// The tick pipeline stages (direction update, movement, eating check,
/// growth, food spawning) each take the session by mutable reference; nothing
/// else mutates it.
#[derive(Clone, Debug)]
pub struct Session {
    pub grid: Grid,
    /// The arena every positioned entity lives in.
    pub store: Store,
    /// Per-player segment chains, head first.
    pub segments: Segments,
    /// Per-player head state: the facing direction.
    pub heads: Vec<Head>,
    /// Per-player pre-move tail cell, recorded by the movement engine.
    pub last_tail_position: LastTailPosition,
    /// The single live food entity, if one exists.
    pub food: Option<Entity>,
    /// The one-way terminal latch: once raised, the movement engine freezes.
    pub game_over: bool,
}

/// Every chain is non-empty, names only live segment-tagged entities of the
/// arena, and no entity occupies two chain slots.
pub open spec fn chains_ok(chains: Seq<Seq<Entity>>, ents: Seq<EntityData>) -> bool {
    &&& forall|p: int| 0 <= p < chains.len() ==> (#[trigger] chains[p]).len() >= 1
    &&& forall|p: int, i: int|
        0 <= p < chains.len() && 0 <= i < chains[p].len() ==> {
            let e = #[trigger] chains[p][i];
            &&& e < ents.len()
            &&& ents[e as int].alive
            &&& ents[e as int].is_segment
        }
    &&& forall|p1: int, i1: int, p2: int, i2: int|
        0 <= p1 < chains.len() && 0 <= i1 < chains[p1].len() && 0 <= p2 < chains.len() && 0 <= i2
            < chains[p2].len() && (p1 != p2 || i1 != i2) ==> (#[trigger] chains[p1][i1])
            != (#[trigger] chains[p2][i2])
}

/// At most one live food entity exists, and `food` names it.
pub open spec fn food_ok(food: Option<Entity>, ents: Seq<EntityData>) -> bool {
    &&& match food {
        Some(f) => f < ents.len() && ents[f as int].alive && ents[f as int].is_food
            && !ents[f as int].is_segment,
        None => true,
    }
    &&& forall|e: int|
        0 <= e < ents.len() && (#[trigger] ents[e]).alive && ents[e].is_food ==> food == Some(
            e as usize,
        )
}

/// Every head stands on the grid.  This holds whenever the latch is down;
/// only the move that raised the latch may have carried a head one step
/// outside.
pub open spec fn heads_on_grid(grid: Grid, chains: Seq<Seq<Entity>>, ents: Seq<EntityData>) -> bool {
    forall|p: int|
        0 <= p < chains.len() ==> grid.contains_spec(
            ents[(#[trigger] chains[p])[0] as int].position,
        )
}

impl Session {
    /// The arena contents, as a sequence indexed by entity identifier.
    pub open spec fn ents(self) -> Seq<EntityData> {
        self.store.entities@
    }

    /// Number of entities ever created in this session.
    pub open spec fn n_entities(self) -> int {
        self.ents().len() as int
    }

    /// The data of entity `e`.
    pub open spec fn ent(self, e: int) -> EntityData {
        self.ents()[e]
    }

    /// The per-player segment chains as sequences, head first.
    pub open spec fn chains(self) -> Seq<Seq<Entity>> {
        self.segments@
    }

    /// Player `p`'s segment chain, head first.
    pub open spec fn chain(self, p: int) -> Seq<Entity> {
        self.chains()[p]
    }

    /// Number of players in this session.
    pub open spec fn num_players(self) -> int {
        self.chains().len() as int
    }

    /// The cell player `p`'s head stands on.
    pub open spec fn head_pos(self, p: int) -> Position {
        self.ents()[self.chain(p)[0] as int].position
    }

    /// Well-formedness: established by the session bootstrap and preserved by
    /// every pipeline stage.
    pub open spec fn wf(self) -> bool {
        &&& self.grid.wf()
        &&& self.heads@.len() == self.chains().len()
        &&& self.last_tail_position.0@.len() == self.chains().len()
        &&& self.chains().len() <= 256
        &&& chains_ok(self.chains(), self.ents())
        &&& food_ok(self.food, self.ents())
        &&& (self.game_over || heads_on_grid(self.grid, self.chains(), self.ents()))
    }

    /// A fresh session on the given grid: no entities, no players, no food,
    /// latch down.  The session bootstrap then spawns the initial snakes.
    pub fn new(grid: Grid) -> (r: Session)
        requires
            grid.wf(),
        ensures
            r.wf(),
            r.grid == grid,
            r.n_entities() == 0,
            r.num_players() == 0,
            r.food is None,
            !r.game_over,
    {
        Session {
            grid,
            store: Store::new(),
            segments: Segments(Vec::new()),
            heads: Vec::new(),
            last_tail_position: LastTailPosition(Vec::new()),
            food: None,
            game_over: false,
        }
    }
}

/// Well-formedness carries over to a session with the same grid, chains and
/// players whose entities kept their tags, whatever happened to their
/// positions — as long as its heads stand on the grid or its latch is up.
pub proof fn lemma_wf_same_shape(s1: Session, s2: Session)
    requires
        s1.wf(),
        s2.grid == s1.grid,
        s2.segments == s1.segments,
        s2.heads == s1.heads,
        s2.last_tail_position.0@.len() == s1.last_tail_position.0@.len(),
        s2.food == s1.food,
        s2.store.entities@.len() == s1.store.entities@.len(),
        forall|e: int|
            0 <= e < s1.store.entities@.len() ==> ((#[trigger] s1.store.entities@[e]).alive
                == s2.store.entities@[e].alive && s1.store.entities@[e].is_segment
                == s2.store.entities@[e].is_segment && s1.store.entities@[e].is_food
                == s2.store.entities@[e].is_food),
        s2.game_over || heads_on_grid(s2.grid, s2.chains(), s2.ents()),
    ensures
        s2.wf(),
{
    assert(s2.chains() == s1.chains());
    assert forall|p: int, i: int|
        0 <= p < s2.chains().len() && 0 <= i < s2.chains()[p].len() implies {
        let e = #[trigger] s2.chains()[p][i];
        &&& e < s2.ents().len()
        &&& s2.ents()[e as int].alive
        &&& s2.ents()[e as int].is_segment
    } by {
        let e = s2.chains()[p][i];
        assert(s1.chains()[p][i] == e);
        assert(e < s1.ents().len() && s1.ents()[e as int].alive && s1.ents()[e as int].is_segment);
        assert(s1.store.entities@[e as int].alive == s2.store.entities@[e as int].alive);
    }
    assert forall|e: int|
        0 <= e < s2.ents().len() && (#[trigger] s2.ents()[e]).alive && s2.ents()[e].is_food implies s2.food
        == Some(e as usize) by {
        assert(s1.store.entities@[e].alive == s2.store.entities@[e].alive);
        assert(s1.ents()[e].alive && s1.ents()[e].is_food);
    }
    if let Some(f) = s2.food {
        assert(s1.ents()[f as int].alive && s1.ents()[f as int].is_food);
        assert(!s1.ents()[f as int].is_segment);
        assert(s1.store.entities@[f as int].alive == s2.store.entities@[f as int].alive);
        assert(s1.store.entities@[f as int].is_segment == s2.store.entities@[f as int].is_segment);
    }
    assert(chains_ok(s2.chains(), s2.ents()));
    assert(food_ok(s2.food, s2.ents()));
}

/// Food uniqueness: in a well-formed session at most one live food entity
/// exists, whatever happened before.
pub proof fn lemma_food_unique(s: Session, e1: usize, e2: usize)
    requires
        s.wf(),
        e1 < s.n_entities(),
        e2 < s.n_entities(),
        s.ent(e1 as int).alive && s.ent(e1 as int).is_food,
        s.ent(e2 as int).alive && s.ent(e2 as int).is_food,
    ensures
        e1 == e2,
{
    assert(s.food == Some(e1));
    assert(s.food == Some(e2));
}

} // verus!
