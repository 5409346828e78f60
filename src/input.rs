use vstd::prelude::*;
use crate::components::{Plant, Tool};
use crate::game::{find_occupant, occupant, occupied, plants_wf, Game};
use crate::geometry::cell_at;
use crate::spawning::spawn_plant;

verus! {

/// What a click on the lawn did.
#[derive(Clone, Copy, Debug, PartialEq, Eq, Structural)]
pub enum PlacementOutcome {
    /// A defender was bought and placed.
    Placed,
    /// The shovel removed a defender.
    Removed,
    /// The cell already holds a defender.
    RejectedOccupied,
    /// The balance is below the kind's cost.
    RejectedUnaffordable,
    /// The point is off the grid.
    RejectedOutOfBounds,
    /// The shovel was used on an empty cell.
    NoOp,
}

/// Whether `b` is `a` with only the defenders, the balance and the id counter changed.
pub open spec fn only_plants_and_sun_changed(a: Game, b: Game) -> bool {
    &&& b.state.selected_tool == a.state.selected_tool
    &&& b.spawn_timer == a.spawn_timer
    &&& b.zombies == a.zombies
    &&& b.bullets == a.bullets
    &&& b.explosions == a.explosions
    &&& b.particles == a.particles
}

/// Handle a click at the world point `(wx, wy)` with the selected tool: place
/// a defender on a free cell the player can pay for, or remove one with the
/// shovel. A rejected click changes nothing.
pub fn input_system(game: &mut Game, wx: i64, wy: i64) -> (r: PlacementOutcome)
    requires
        old(game).wf(),
        old(game).has_fresh_id(),
    ensures
        final(game).wf(),
        only_plants_and_sun_changed(*old(game), *final(game)),
        cell_at(wx as int, wy as int) is None ==> r == PlacementOutcome::RejectedOutOfBounds
            && *final(game) == *old(game),
        cell_at(wx as int, wy as int) matches Some(c) ==> match old(game).state.selected_tool {
            Tool::Plant(kind) => if occupied(old(game).plants@, c) {
                r == PlacementOutcome::RejectedOccupied && *final(game) == *old(game)
            } else if old(game).state.sun < kind.spec_cost() {
                r == PlacementOutcome::RejectedUnaffordable && *final(game) == *old(game)
            } else {
                &&& r == PlacementOutcome::Placed
                &&& final(game).state.sun == old(game).state.sun - kind.spec_cost()
                &&& final(game).state.sun < old(game).state.sun
                &&& forall|i: int|
                    0 <= i < final(game).plants@.len() && (#[trigger] final(game).plants@[i]).cell
                        == c <==> i == old(game).plants@.len()
                &&& final(game).plants@ == old(game).plants@.push(
                    Plant::placed(old(game).next_id, kind, c),
                )
                &&& final(game).next_id == old(game).next_id + 1
            },
            Tool::Shovel => if occupied(old(game).plants@, c) {
                &&& r == PlacementOutcome::Removed
                &&& final(game).plants@ == old(game).plants@.remove(
                    occupant(old(game).plants@, c)->0,
                )
                &&& final(game).state == old(game).state
                &&& final(game).next_id == old(game).next_id
            } else {
                r == PlacementOutcome::NoOp && *final(game) == *old(game)
            },
        },
{
    let cell = match crate::geometry::world_to_cell(wx, wy) {
        Some(c) => c,
        None => return PlacementOutcome::RejectedOutOfBounds,
    };
    let found = find_occupant(&game.plants, cell);
    match game.state.selected_tool {
        Tool::Plant(kind) => {
            if found.is_some() {
                return PlacementOutcome::RejectedOccupied;
            }
            let cost = kind.cost();
            if game.state.sun < cost {
                return PlacementOutcome::RejectedUnaffordable;
            }
            game.state.sun = game.state.sun - cost;
            spawn_plant(game, kind, cell);
            PlacementOutcome::Placed
        },
        Tool::Shovel => {
            match found {
                Some(i) => {
                    game.plants.remove(i);
                    proof {
                        let (a, b) = (old(game).plants@, game.plants@);
                        assert forall|x: int| 0 <= x < b.len() implies #[trigger] b[x] == a[if x
                            < i {
                            x
                        } else {
                            x + 1
                        }] by {}
                        assert forall|x: int, y: int|
                            0 <= x < b.len() && 0 <= y < b.len() && x != y implies b[x].cell
                            != b[y].cell && b[x].id != b[y].id by {
                            assert(b[x] == a[if x < i { x } else { x + 1 }]);
                            assert(b[y] == a[if y < i { y } else { y + 1 }]);
                        }
                        assert(plants_wf(b, game.next_id));
                    }
                    PlacementOutcome::Removed
                },
                None => PlacementOutcome::NoOp,
            }
        },
    }
}

} // verus!
