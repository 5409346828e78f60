use vstd::prelude::*;
use crate::combat::{collision_system, explosion_damage_system, zombie_eat_system};
use crate::combat::{eat_all, explode_all, hits_all};
use crate::components::{Bullet, Explosion, Plant, Zombie};
use crate::constants::{PARTICLES_PER_BURST, ROWS};
use crate::gameplay::{acted, moved_bullets, moved_zombies, producers, shots, with_income};
use crate::geometry::Position;
use crate::game::{
    has_plant_id, has_zombie_id, plant_ids_kept, plant_progress, zombie_health_not_raised,
    zombie_ids_kept, Game,
};
use crate::gameplay::{move_bullets, move_zombies, plant_action};
use crate::particles::{lemma_aged_particles_len, particle_system};
use crate::spawning::spawn_zombies;

verus! {

/// Health bounds compose when the later step keeps only earlier adversaries.
pub proof fn lemma_zombie_health_trans(a: Seq<Zombie>, b: Seq<Zombie>, c: Seq<Zombie>)
    requires
        zombie_health_not_raised(a, b),
        zombie_health_not_raised(b, c),
        zombie_ids_kept(b, c),
    ensures
        zombie_health_not_raised(a, c),
{
    assert forall|j: int, k: int|
        #![trigger a[j].id, c[k].id]
        0 <= j < a.len() && 0 <= k < c.len() && a[j].id == c[k].id implies c[k].health
        <= a[j].health by {
        assert(has_zombie_id(b, c[k].id));
        let m = choose|m: int| 0 <= m < b.len() && (#[trigger] b[m]).id == c[k].id;
        assert(b[m].id == a[j].id);
    }
}

/// Adversaries that are old or newer than `n` stay so through a step that adds none.
pub proof fn lemma_ids_from_trans(a: Seq<Zombie>, b: Seq<Zombie>, c: Seq<Zombie>, n: u64)
    requires
        forall|k: int| 0 <= k < b.len() ==> has_zombie_id(a, (#[trigger] b[k]).id) || b[k].id >= n,
        zombie_ids_kept(b, c),
    ensures
        forall|k: int| 0 <= k < c.len() ==> has_zombie_id(a, (#[trigger] c[k]).id) || c[k].id >= n,
{
    assert forall|k: int| 0 <= k < c.len() implies has_zombie_id(a, (#[trigger] c[k]).id) || c[k].id
        >= n by {
        assert(has_zombie_id(b, c[k].id));
        let m = choose|m: int| 0 <= m < b.len() && (#[trigger] b[m]).id == c[k].id;
        assert(has_zombie_id(a, b[m].id) || b[m].id >= n);
    }
}

/// `b` follows `a` after some frames: every adversary of `b` was in `a` or is
/// newer than all of them; defenders never come back or appear; and no
/// adversary or defender present in both has gained health, no defender has
/// changed kind, and no armed mine has been disarmed.
pub open spec fn follows(a: Game, b: Game) -> bool {
    &&& b.next_id >= a.next_id
    &&& forall|k: int|
        0 <= k < b.zombies@.len() ==> has_zombie_id(a.zombies@, (#[trigger] b.zombies@[k]).id)
            || b.zombies@[k].id >= a.next_id
    &&& zombie_health_not_raised(a.zombies@, b.zombies@)
    &&& plant_ids_kept(a.plants@, b.plants@)
    &&& plant_progress(a.plants@, b.plants@)
}

/// Health never rises and mines never disarm over any run of frames: `follows`
/// chains, since ids are never handed out twice.
pub proof fn lemma_follows_trans(a: Game, b: Game, c: Game)
    requires
        a.wf(),
        b.wf(),
        follows(a, b),
        follows(b, c),
    ensures
        follows(a, c),
{
    let (za, zb, zc) = (a.zombies@, b.zombies@, c.zombies@);
    assert forall|k: int|
        0 <= k < zc.len() implies has_zombie_id(za, (#[trigger] zc[k]).id) || zc[k].id
        >= a.next_id by {
        if has_zombie_id(zb, zc[k].id) {
            let m = choose|m: int| 0 <= m < zb.len() && (#[trigger] zb[m]).id == zc[k].id;
            assert(has_zombie_id(za, zb[m].id) || zb[m].id >= a.next_id);
        }
    }
    assert forall|j: int, k: int|
        #![trigger za[j].id, zc[k].id]
        0 <= j < za.len() && 0 <= k < zc.len() && za[j].id == zc[k].id implies zc[k].health
        <= za[j].health by {
        assert(za[j].id < a.next_id);
        assert(has_zombie_id(zb, zc[k].id));
        let m = choose|m: int| 0 <= m < zb.len() && (#[trigger] zb[m]).id == zc[k].id;
        assert(zb[m].id == za[j].id);
    }
    crate::game::lemma_plants_descend_trans(a.plants@, b.plants@, c.plants@);
}

/// The outcome of one frame on the defenders, adversaries, projectiles and
/// explosions, given the row in which an adversary arrives if the arrival
/// timer completes; the last component counts the mines that went off.
pub open spec fn frame_outcome(g: Game, dt_ms: u32, row: int) -> (
    Seq<Plant>,
    Seq<Zombie>,
    Seq<Bullet>,
    Seq<Explosion>,
    nat,
) {
    let arrives = g.spawn_timer.0.ticked(dt_ms).finished;
    let zs1 = if arrives {
        g.zombies@.push(Zombie::arrival(g.next_id, row))
    } else {
        g.zombies@
    };
    let ps1 = g.plants@.map_values(|p: Plant| acted(p, dt_ms));
    let bs1 = moved_bullets(g.bullets@ + shots(ps1), dt_ms);
    let (zs2, bs2) = hits_all(zs1, bs1);
    let (ps2, zs3, blasts) = eat_all(ps1, moved_zombies(zs2, dt_ms), dt_ms);
    let (zs4, es) = explode_all(
        zs3,
        g.explosions@ + blasts.map_values(|b: Position| Explosion::spec_at(b)),
        dt_ms,
    );
    (ps2, zs4, bs2, es, blasts.len())
}

/// Run one simulation step of `dt_ms` milliseconds, in this order: arrivals,
/// defender actions, projectile motion and hits, adversary motion, contact
/// with defenders, explosion damage, particles. Across the step no
/// adversary or defender gains health, no defender changes kind, and no
/// armed mine is disarmed.
pub fn run_frame(game: &mut Game, dt_ms: u32)
    requires
        old(game).wf(),
        old(game).has_fresh_id(),
    ensures
        final(game).wf(),
        exists|row: int|
            0 <= row < ROWS && {
                let (plants, zombies, bullets, explosions, bursts) = #[trigger] frame_outcome(
                    *old(game),
                    dt_ms,
                    row,
                );
                &&& final(game).plants@ == plants
                &&& final(game).zombies@ == zombies
                &&& final(game).bullets@ == bullets
                &&& final(game).explosions@ == explosions
                &&& final(game).particles@.len() <= old(game).particles@.len() + PARTICLES_PER_BURST
                    * bursts
            },
        final(game).spawn_timer.0 == old(game).spawn_timer.0.ticked(dt_ms),
        final(game).next_id == old(game).next_id + if final(game).spawn_timer.0.finished {
            1int
        } else {
            0int
        },
        final(game).state.sun == with_income(
            old(game).state.sun,
            producers(old(game).plants@.map_values(|p: Plant| acted(p, dt_ms))),
        ),
        follows(*old(game), *final(game)),
        final(game).state.selected_tool == old(game).state.selected_tool,
{
    let ghost z0 = game.zombies@;
    let ghost plants_start = game.plants@;
    spawn_zombies(game, dt_ms);
    let ghost z1 = game.zombies@;
    assert forall|k: int|
        0 <= k < z1.len() implies has_zombie_id(z0, (#[trigger] z1[k]).id) || z1[k].id
        >= old(game).next_id by {
        if k < z0.len() {
            assert(z1[k] == z0[k]);
        }
    }
    let ghost row: int = if game.spawn_timer.0.finished {
        choose|r: int|
            0 <= r < ROWS && z1 == z0.push(#[trigger] Zombie::arrival(old(game).next_id, r))
    } else {
        0
    };
    proof {
        assert forall|j: int, k: int|
            #![trigger z0[j].id, z1[k].id]
            0 <= j < z0.len() && 0 <= k < z1.len() && z0[j].id == z1[k].id implies z1[k].health
            <= z0[j].health by {
            assert(z0[j].id < old(game).next_id);
            if k < z0.len() {
                assert(z1[k] == z0[k]);
                assert(z0[k].id == z0[j].id);
            }
        }
        crate::game::lemma_plants_descend_refl(plants_start);
    }
    plant_action(game, dt_ms);
    let ghost plants_acted = game.plants@;
    assert(plants_acted =~= plants_start.map_values(|p: Plant| acted(p, dt_ms)));
    move_bullets(game, dt_ms);
    collision_system(game);
    let ghost z2 = game.zombies@;
    proof {
        lemma_zombie_health_trans(z0, z1, z2);
        lemma_ids_from_trans(z0, z1, z2, old(game).next_id);
    }
    move_zombies(game, dt_ms);
    let ghost z3 = game.zombies@;
    proof {
        lemma_zombie_health_trans(z0, z2, z3);
        lemma_ids_from_trans(z0, z2, z3, old(game).next_id);
    }
    zombie_eat_system(game, dt_ms);
    let ghost z4 = game.zombies@;
    proof {
        assert(zombie_health_not_raised(z3, z4)) by {
            assert forall|j: int, k: int|
                #![trigger z3[j].id, z4[k].id]
                0 <= j < z3.len() && 0 <= k < z4.len() && z3[j].id == z4[k].id implies z4[k].health
                <= z3[j].health by {
                assert(z4[k].id == z3[k].id);
            }
        }
        assert(zombie_ids_kept(z3, z4)) by {
            assert forall|k: int| 0 <= k < z4.len() implies has_zombie_id(z3, (#[trigger] z4[k]).id) by {
                assert(z4[k].id == z3[k].id);
            }
        }
        lemma_zombie_health_trans(z0, z3, z4);
        lemma_ids_from_trans(z0, z3, z4, old(game).next_id);
        crate::game::lemma_plants_descend_trans(plants_start, plants_acted, game.plants@);
    }
    explosion_damage_system(game, dt_ms);
    proof {
        lemma_zombie_health_trans(z0, z4, game.zombies@);
        lemma_ids_from_trans(z0, z4, game.zombies@, old(game).next_id);
    }
    let ghost mid_particles = game.particles@;
    particle_system(game, dt_ms);
    proof {
        lemma_aged_particles_len(mid_particles, dt_ms);
        assert(frame_outcome(*old(game), dt_ms, row).0 == game.plants@);
    }
}

} // verus!
