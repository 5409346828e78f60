use vstd::prelude::*;
use crate::components::{Plant, PlantType, Zombie, ZombieState};
use crate::constants::{ROWS, ZOMBIE_HEALTH, ZOMBIE_SPAWN_X};
use crate::game::{occupied, plants_wf, zombies_wf, Game};
use crate::geometry::{cell_center_of, row_center, row_center_y, GridCell, Position};

verus! {

/// Relies on rand's `Rng::gen_range` on `thread_rng()`: a value drawn uniformly
/// from `[low, high)`. It panics on an empty range, which `requires` excludes
/// (and, through `thread_rng`, only if the operating system cannot seed it).
#[verifier::external_body]
pub(crate) fn random_in(low: i64, high: i64) -> (r: i64)
    requires
        low < high,
    ensures
        low <= r < high,
{
    rand::Rng::gen_range(&mut rand::thread_rng(), low..high)
}

impl Zombie {
    /// A new adversary entering the field in `row`.
    pub open spec fn arrival(id: u64, row: int) -> Zombie {
        Zombie {
            id,
            health: ZOMBIE_HEALTH,
            state: ZombieState::Walking,
            pos: Position { x: ZOMBIE_SPAWN_X, y: row_center_y(row) as i64 },
        }
    }
}

/// Put a new defender of `plant_type` on the free cell `cell`. The cost is the
/// caller's business.
pub fn spawn_plant(game: &mut Game, plant_type: PlantType, cell: GridCell)
    requires
        old(game).wf(),
        old(game).has_fresh_id(),
        cell.in_bounds(),
        !occupied(old(game).plants@, cell),
    ensures
        final(game).wf(),
        final(game).plants@ == old(game).plants@.push(
            Plant::placed(old(game).next_id, plant_type, cell),
        ),
        final(game).next_id == old(game).next_id + 1,
        final(game).state == old(game).state,
        final(game).spawn_timer == old(game).spawn_timer,
        final(game).zombies == old(game).zombies,
        final(game).bullets == old(game).bullets,
        final(game).explosions == old(game).explosions,
        final(game).particles == old(game).particles,
{
    let id = game.allocate_id();
    let plant = Plant {
        id,
        kind: plant_type,
        timer: plant_type.action_timer(),
        health: plant_type.base_health(),
        armed: false,
        cell,
        pos: cell_center_of(cell),
    };
    game.plants.push(plant);
    proof {
        let s = game.plants@;
        assert forall|i: int, j: int|
            0 <= i < s.len() && 0 <= j < s.len() && i != j implies s[i].cell != s[j].cell by {
            if i == s.len() - 1 {
                assert(s[j] == old(game).plants@[j]);
            } else if j == s.len() - 1 {
                assert(s[i] == old(game).plants@[i]);
            }
        }
        assert(plants_wf(s, game.next_id));
    }
}

/// Bring in a new adversary at the right edge of `row`.
pub fn spawn_zombie_at_row(game: &mut Game, row: i32)
    requires
        old(game).wf(),
        old(game).has_fresh_id(),
        0 <= row < ROWS,
    ensures
        final(game).wf(),
        final(game).zombies@ == old(game).zombies@.push(
            Zombie::arrival(old(game).next_id, row as int),
        ),
        final(game).next_id == old(game).next_id + 1,
        final(game).state == old(game).state,
        final(game).spawn_timer == old(game).spawn_timer,
        final(game).plants == old(game).plants,
        final(game).bullets == old(game).bullets,
        final(game).explosions == old(game).explosions,
        final(game).particles == old(game).particles,
{
    let id = game.allocate_id();
    let zombie = Zombie {
        id,
        health: ZOMBIE_HEALTH,
        state: ZombieState::Walking,
        pos: Position { x: ZOMBIE_SPAWN_X, y: row_center(row) },
    };
    game.zombies.push(zombie);
    proof {
        let s = game.zombies@;
        assert forall|i: int, j: int|
            0 <= i < s.len() && 0 <= j < s.len() && i != j implies s[i].id != s[j].id by {
            if i == s.len() - 1 {
                assert(s[j] == old(game).zombies@[j]);
            } else if j == s.len() - 1 {
                assert(s[i] == old(game).zombies@[i]);
            }
        }
        assert(zombies_wf(s, game.next_id));
        assert(plants_wf(game.plants@, game.next_id));
    }
}

/// Advance the arrival timer; each time it completes a cycle one adversary
/// enters in a row drawn uniformly from `[0, ROWS)`.
pub fn spawn_zombies(game: &mut Game, dt_ms: u32)
    requires
        old(game).wf(),
        old(game).has_fresh_id(),
    ensures
        final(game).wf(),
        final(game).spawn_timer.0 == old(game).spawn_timer.0.ticked(dt_ms),
        final(game).spawn_timer.0.finished ==> exists|row: int|
            0 <= row < ROWS && final(game).zombies@ == old(game).zombies@.push(
                #[trigger] Zombie::arrival(old(game).next_id, row),
            ) && final(game).next_id == old(game).next_id + 1,
        !final(game).spawn_timer.0.finished ==> final(game).zombies == old(game).zombies
            && final(game).next_id == old(game).next_id,
        final(game).state == old(game).state,
        final(game).plants == old(game).plants,
        final(game).bullets == old(game).bullets,
        final(game).explosions == old(game).explosions,
        final(game).particles == old(game).particles,
{
    game.spawn_timer.0.tick(dt_ms);
    if game.spawn_timer.0.finished {
        let row = random_in(0, ROWS as i64) as i32;
        spawn_zombie_at_row(game, row);
        assert(game.zombies@ == old(game).zombies@.push(
            Zombie::arrival(old(game).next_id, row as int),
        ));
    }
}

} // verus!
