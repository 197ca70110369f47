//! The entity store: an arena of opaque entity identifiers with the data
//! attached to each of them — a position and the role tags that tell snake
//! segments and food apart.

use vstd::prelude::*;

use crate::components::Position;

verus! {

/// An opaque entity identifier: an index into the store's arena.  Identifiers
/// are handed out in creation order and never reused.
pub type Entity = usize;

/// The data attached to one entity: whether it is still live, its role tags,
/// and its cell on the grid.
#[derive(Clone, Copy, Debug, PartialEq, Eq, Structural)]
pub struct EntityData {
    /// A despawned entity stays in the arena but is ignored by every query.
    pub alive: bool,
    /// Tags the entity as part of a snake's body (head included); collision
    /// and shift queries see exactly the segment-tagged entities.
    pub is_segment: bool,
    /// Tags the entity as food; at most one live food entity ever exists.
    pub is_food: bool,
    pub position: Position,
}

/// The arena of entities.  Every piece of simulation state that rendering
/// reads — who is where — lives here.
#[derive(Clone, Debug)]
pub struct Store {
    pub entities: Vec<EntityData>,
}

impl Store {
    /// A store with no entities.
    pub fn new() -> (r: Store)
        ensures
            r.entities@.len() == 0,
    {
        Store { entities: Vec::new() }
    }

    /// The number of entities ever created, live or not.
    pub fn len(&self) -> (r: usize)
        ensures
            r == self.entities@.len(),
    {
        self.entities.len()
    }

    /// Creates a live entity with the given tags and position and returns its
    /// identifier, which is one past every identifier handed out before.
    pub fn spawn(&mut self, is_segment: bool, is_food: bool, position: Position) -> (e: Entity)
        requires
            old(self).entities@.len() < usize::MAX,
        ensures
            e == old(self).entities@.len(),
            final(self).entities@ == old(self).entities@.push(
                (EntityData { alive: true, is_segment, is_food, position }),
            ),
    {
        let e = self.entities.len();
        self.entities.push(EntityData { alive: true, is_segment, is_food, position });
        e
    }

    /// Removes the entity from every future query; its identifier is never
    /// handed out again.
    pub fn despawn(&mut self, e: Entity)
        requires
            e < old(self).entities@.len(),
        ensures
            final(self).entities@ == old(self).entities@.update(
                e as int,
                (EntityData { alive: false, ..old(self).entities@[e as int] }),
            ),
    {
        let data = self.entities[e];
        self.entities.set(e, EntityData { alive: false, ..data });
    }

    /// The data attached to an entity.
    pub fn get(&self, e: Entity) -> (r: EntityData)
        requires
            e < self.entities@.len(),
        ensures
            r == self.entities@[e as int],
    {
        self.entities[e]
    }

    /// Moves an entity to a new cell, leaving its tags alone.
    pub fn set_position(&mut self, e: Entity, position: Position)
        requires
            e < old(self).entities@.len(),
        ensures
            final(self).entities@ == old(self).entities@.update(
                e as int,
                (EntityData { position, ..old(self).entities@[e as int] }),
            ),
    {
        let data = self.entities[e];
        self.entities.set(e, EntityData { position, ..data });
    }
}

} // verus!
