//! The food manager: places a single food entity on an unoccupied cell and
//! leaves it for the eating check to consume.

use vstd::prelude::*;

use crate::components::Position;
use crate::session::Session;
use crate::store::EntityData;

verus! {

/// Relies on rand::random: an independent sample of the standard
/// distribution.  Nothing can be promised of the value, so the callers state
/// what holds of every outcome.
pub assume_specification<T>[ rand::random::<T> ]() -> (r: T)
    where
        rand::distributions::Standard: rand::distributions::Distribution<T>,
;

/// Whether some live entity — segment or food — stands on `cell`.
pub open spec fn occupied(s: Session, cell: Position) -> bool {
    exists|e: int|
        0 <= e < s.n_entities() && (#[trigger] s.store.entities@[e]).alive
            && s.store.entities@[e].position == cell
}

/// Deterministic food placement: creates the single food entity on `cell`
/// when none exists yet, the cell lies on the grid, and no live entity
/// stands on it; reports whether food was spawned.  Reproducible tests
/// inject fixed cells here; the randomized `spawn_system` draws candidate
/// cells and feeds them in.
pub fn spawn_at(s: &mut Session, cell: Position) -> (spawned: bool)
    requires
        old(s).wf(),
        old(s).store.entities@.len() < usize::MAX,
    ensures
        final(s).wf(),
        spawned == (old(s).food is None && old(s).grid.contains_spec(cell) && !occupied(
            *old(s),
            cell,
        )),
        !spawned ==> *final(s) == *old(s),
        spawned ==> final(s).store.entities@ == old(s).store.entities@.push(
            (EntityData { alive: true, is_segment: false, is_food: true, position: cell }),
        ),
        spawned ==> final(s).food == Some(old(s).store.entities@.len() as usize),
        final(s).grid == old(s).grid,
        final(s).segments == old(s).segments,
        final(s).heads == old(s).heads,
        final(s).last_tail_position == old(s).last_tail_position,
        final(s).game_over == old(s).game_over,
{
    if s.food.is_some() {
        return false;
    }
    if !s.grid.contains(cell) {
        return false;
    }
    let n = s.store.len();
    let mut occ = false;
    let mut e: usize = 0;
    #[verifier::loop_isolation(false)]
    while e < n
        invariant
            e <= n,
            occ == exists|k: int|
                0 <= k < e && (#[trigger] s.store.entities@[k]).alive
                    && s.store.entities@[k].position == cell,
        decreases n - e,
    {
        let d = s.store.get(e);
        if d.alive && d.position == cell {
            occ = true;
        }
        e += 1;
    }
    if occ {
        return false;
    }
    let f = s.store.spawn(false, true, cell);
    s.food = Some(f);
    proof {
        let pre = *old(s);
        assert(s.chains() == pre.chains());
        assert forall|pp: int, i: int|
            0 <= pp < s.chains().len() && 0 <= i < s.chains()[pp].len() implies {
            let ee = #[trigger] s.chains()[pp][i];
            &&& ee < s.ents().len()
            &&& s.ents()[ee as int].alive
            &&& s.ents()[ee as int].is_segment
        } by {
            assert(pre.chains()[pp][i] == s.chains()[pp][i]);
            assert(s.chains()[pp][i] < pre.ents().len());
        }
        assert forall|ee: int|
            0 <= ee < s.ents().len() && (#[trigger] s.ents()[ee]).alive
                && s.ents()[ee].is_food implies s.food == Some(ee as usize) by {
            vstd::std_specs::vec::axiom_spec_len(&pre.store.entities);
            if ee < pre.ents().len() {
                assert(pre.ents()[ee].alive && pre.ents()[ee].is_food);
                assert(pre.food == Some(ee as usize));
                assert(false);
            }
        }
        if !s.game_over {
            assert forall|q: int| 0 <= q < s.chains().len() implies s.grid.contains_spec(
                s.ents()[(#[trigger] s.chains()[q])[0] as int].position,
            ) by {
                assert(s.chains()[q][0] == pre.chains()[q][0]);
                assert(pre.chains()[q][0] < pre.ents().len());
                assert(pre.grid.contains_spec(pre.ents()[pre.chains()[q][0] as int].position));
            }
        }
    }
    true
}

/// Food-spawning stage, run on its own cadence.
///
/// With no food on the board, draws cells uniformly at random and puts the
/// single food entity on the first unoccupied one; after as many misses as
/// the grid has cells it gives up until the next call — a benign no-op, as
/// is the call while food already exists.  Every outcome either leaves the
/// session unchanged or adds one food entity on a cell that was free.
#[verifier::loop_isolation(false)]
pub fn spawn_system(s: &mut Session)
    requires
        old(s).wf(),
        old(s).store.entities@.len() < usize::MAX,
    ensures
        final(s).wf(),
        final(s).grid == old(s).grid,
        final(s).segments == old(s).segments,
        final(s).heads == old(s).heads,
        final(s).last_tail_position == old(s).last_tail_position,
        final(s).game_over == old(s).game_over,
        old(s).food is Some ==> *final(s) == *old(s),
        final(s).food is None ==> *final(s) == *old(s),
        (old(s).food is None && final(s).food is Some) ==> exists|cell: Position|
            old(s).grid.contains_spec(cell) && !(#[trigger] occupied(*old(s), cell))
                && final(s).store.entities@ == old(s).store.entities@.push(
                (EntityData { alive: true, is_segment: false, is_food: true, position: cell }),
            ) && final(s).food == Some(old(s).store.entities@.len() as usize),
{
    if s.food.is_some() {
        return ;
    }
    let width = s.grid.width;
    let height = s.grid.height;
    proof {
        assert((width as int) * (height as int) < 0x1_0000_0000) by (nonlinear_arith)
            requires
                width <= 0xffff,
                height <= 0xffff,
        ;
    }
    let tries: u64 = (width as u64) * (height as u64);
    let mut t: u64 = 0;
    while t < tries
        invariant
            *s == *old(s),
        decreases tries - t,
    {
        let r1: u16 = rand::random();
        let r2: u16 = rand::random();
        let cell = Position { x: (r1 % width) as i16, y: (r2 % height) as i16 };
        if spawn_at(s, cell) {
            return ;
        }
        t += 1;
    }
}

} // verus!
