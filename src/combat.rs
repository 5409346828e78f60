use vstd::prelude::*;
use crate::components::{Bullet, Explosion, Plant, PlantType, Zombie, ZombieState};
use crate::constants::{
    BULLET_DAMAGE, CONTACT_RADIUS, HIT_RADIUS, PARTICLES_PER_BURST, ZOMBIE_EAT_DPS,
};
use crate::game::{
    bullets_wf, drawn_from, explosions_wf, find_plant, has_plant_id, lemma_drawn_done,
    lemma_drawn_push, lemma_drawn_skip, lemma_plants_descend_refl, lemma_plants_descend_trans,
    lemma_plants_lower_health, lemma_plants_remove, lemma_struck, lemma_zombies_descend_refl,
    lemma_zombies_descend_trans, particles_wf, plant_ids_kept, plant_index, plant_progress,
    plants_wf, struck, zombie_health_not_raised, zombie_ids_kept, zombies_wf, Game,
};
use crate::geometry::{closer_than, in_field, is_closer_than, is_within, not_farther_than, Position};
use crate::particles::spawn_burst;

verus! {

/// `i` is the first defender closer to `pos` than the contact radius.
pub open spec fn is_first_contact(s: Seq<Plant>, pos: Position, i: int) -> bool {
    &&& 0 <= i < s.len()
    &&& closer_than(s[i].pos, pos, CONTACT_RADIUS)
    &&& forall|k: int| 0 <= k < i ==> !closer_than((#[trigger] s[k]).pos, pos, CONTACT_RADIUS)
}

/// The first defender, in defender order, that an adversary at `pos` touches.
pub open spec fn first_contact(s: Seq<Plant>, pos: Position) -> Option<int> {
    if exists|i: int| is_first_contact(s, pos, i) {
        Some(choose|i: int| is_first_contact(s, pos, i))
    } else {
        None
    }
}

/// Index of the first defender an adversary at `pos` touches.
pub fn find_first_contact(plants: &Vec<Plant>, pos: Position) -> (r: Option<usize>)
    requires
        forall|k: int| 0 <= k < plants@.len() ==> (#[trigger] plants@[k]).wf(),
        in_field(pos),
    ensures
        r matches Some(i) ==> first_contact(plants@, pos) == Some(i as int),
        r is None ==> first_contact(plants@, pos) is None,
{
    let mut i: usize = 0;
    while i < plants.len()
        invariant
            i <= plants@.len(),
            forall|k: int| 0 <= k < plants@.len() ==> (#[trigger] plants@[k]).wf(),
            in_field(pos),
            forall|k: int| 0 <= k < i ==> !closer_than((#[trigger] plants@[k]).pos, pos, CONTACT_RADIUS),
        decreases plants@.len() - i,
    {
        assert(plants@[i as int].wf());
        if is_closer_than(plants[i].pos, pos, CONTACT_RADIUS) {
            proof {
                assert(is_first_contact(plants@, pos, i as int));
                let j = choose|j: int| is_first_contact(plants@, pos, j);
                if j < i {
                    assert(!closer_than(plants@[j].pos, pos, CONTACT_RADIUS));
                } else if j > i {
                    assert(!closer_than(plants@[i as int].pos, pos, CONTACT_RADIUS));
                }
            }
            return Some(i);
        }
        i = i + 1;
    }
    proof {
        assert forall|j: int| !is_first_contact(plants@, pos, j) by {
            if 0 <= j < plants@.len() {
                assert(!closer_than(plants@[j].pos, pos, CONTACT_RADIUS));
            }
        }
    }
    None
}

/// The adversary with its state reset to walking.
pub open spec fn walking(z: Zombie) -> Zombie {
    Zombie { state: ZombieState::Walking, ..z }
}

/// One adversary's evaluation against the defenders `s`: the defenders after
/// it, the adversary after it, and where a mine went off, if one did.
pub open spec fn eat_step(s: Seq<Plant>, z: Zombie, dt_ms: u32) -> (
    Seq<Plant>,
    Zombie,
    Option<Position>,
) {
    match z.state {
        ZombieState::Walking => match first_contact(s, z.pos) {
            None => (s, z, None),
            Some(i) => if s[i].is_armed_mine() {
                (s.remove(i), z, Some(s[i].pos))
            } else {
                (s, Zombie { state: ZombieState::Eating(s[i].id), ..z }, None)
            },
        },
        ZombieState::Eating(id) => match plant_index(s, id) {
            None => (s, walking(z), None),
            Some(i) => if s[i].is_armed_mine() {
                (s.remove(i), walking(z), Some(s[i].pos))
            } else {
                let h = s[i].health - ZOMBIE_EAT_DPS * dt_ms;
                if h <= 0 {
                    (s.remove(i), walking(z), None)
                } else {
                    (s.update(i, Plant { health: h as i64, ..s[i] }), z, None)
                }
            },
        },
    }
}

/// Every adversary of `zs` evaluated in order against the defenders `s`.
pub open spec fn eat_all(s: Seq<Plant>, zs: Seq<Zombie>, dt_ms: u32) -> (
    Seq<Plant>,
    Seq<Zombie>,
    Seq<Position>,
)
    decreases zs.len(),
{
    if zs.len() == 0 {
        (s, Seq::empty(), Seq::empty())
    } else {
        let (p, done, blasts) = eat_all(s, zs.drop_last(), dt_ms);
        let (after, z, blast) = eat_step(p, zs.last(), dt_ms);
        (
            after,
            done.push(z),
            match blast {
                Some(b) => blasts.push(b),
                None => blasts,
            },
        )
    }
}

/// Evaluate one adversary against the defenders.
fn eat_one(
    plants: &mut Vec<Plant>,
    z: Zombie,
    dt_ms: u32,
    Ghost(n): Ghost<u64>,
) -> (r: (Zombie, Option<Position>))
    requires
        plants_wf(old(plants)@, n),
        z.wf(),
    ensures
        (final(plants)@, r.0, r.1) == eat_step(old(plants)@, z, dt_ms),
        plants_wf(final(plants)@, n),
        plant_progress(old(plants)@, final(plants)@),
        plant_ids_kept(old(plants)@, final(plants)@),
        r.1 matches Some(b) ==> in_field(b),
{
    proof {
        lemma_plants_descend_refl(old(plants)@);
    }
    match z.state {
        ZombieState::Walking => {
            match find_first_contact(plants, z.pos) {
                None => (z, None),
                Some(i) => {
                    let p = plants[i];
                    if p.kind == PlantType::PotatoMine && p.armed {
                        proof {
                            lemma_plants_remove(plants@, i as int, n);
                        }
                        plants.remove(i);
                        (z, Some(p.pos))
                    } else {
                        (Zombie { state: ZombieState::Eating(p.id), ..z }, None)
                    }
                },
            }
        },
        ZombieState::Eating(id) => {
            match find_plant(plants, id) {
                None => (Zombie { state: ZombieState::Walking, ..z }, None),
                Some(i) => {
                    let p = plants[i];
                    assert(p.wf());
                    if p.kind == PlantType::PotatoMine && p.armed {
                        proof {
                            lemma_plants_remove(plants@, i as int, n);
                        }
                        plants.remove(i);
                        (Zombie { state: ZombieState::Walking, ..z }, Some(p.pos))
                    } else {
                        let h = p.health - ZOMBIE_EAT_DPS * dt_ms as i64;
                        if h <= 0 {
                            proof {
                                lemma_plants_remove(plants@, i as int, n);
                            }
                            plants.remove(i);
                            (Zombie { state: ZombieState::Walking, ..z }, None)
                        } else {
                            let ghost s = plants@;
                            plants[i] = Plant { health: h, ..p };
                            proof {
                                lemma_plants_lower_health(s, i as int, h, n);
                            }
                            (z, None)
                        }
                    }
                },
            }
        },
    }
}



/// Resolve contact between adversaries and defenders, one adversary at a
/// time in order. A walking adversary touching a defender (the first one in
/// defender order) starts eating it, unless it is an armed potato mine: the
/// mine then explodes and the adversary walks on. An eating adversary whose
/// defender is gone walks again; one whose defender has become an armed mine
/// sets it off; otherwise it takes `ZOMBIE_EAT_DPS` per second off the
/// defender, which is removed, and released, once its health reaches zero.
/// Each explosion leaves an `Explosion` and a burst of particles where the
/// mine stood.
pub fn zombie_eat_system(game: &mut Game, dt_ms: u32)
    requires
        old(game).wf(),
    ensures
        final(game).wf(),
        ({
            let (plants, zombies, blasts) = eat_all(old(game).plants@, old(game).zombies@, dt_ms);
            &&& final(game).plants@ == plants
            &&& final(game).zombies@ == zombies
            &&& final(game).explosions@ == old(game).explosions@ + blasts.map_values(
                |b: Position| Explosion::spec_at(b),
            )
            &&& final(game).particles@.len() == old(game).particles@.len() + PARTICLES_PER_BURST
                * blasts.len()
        }),
        final(game).particles@.subrange(0, old(game).particles@.len() as int)
            == old(game).particles@,
        final(game).zombies@.len() == old(game).zombies@.len(),
        forall|i: int|
            0 <= i < old(game).zombies@.len() ==> {
                &&& (#[trigger] final(game).zombies@[i]).id == old(game).zombies@[i].id
                &&& final(game).zombies@[i].health == old(game).zombies@[i].health
                &&& final(game).zombies@[i].pos == old(game).zombies@[i].pos
            },
        forall|i: int|
            0 <= i < old(game).zombies@.len() ==> (#[trigger] old(game).zombies@[i].state matches ZombieState::Eating(d)
                && !has_plant_id(old(game).plants@, d)) ==> final(game).zombies@[i].state
                == ZombieState::Walking,
        plant_progress(old(game).plants@, final(game).plants@),
        plant_ids_kept(old(game).plants@, final(game).plants@),
        final(game).state == old(game).state,
        final(game).spawn_timer == old(game).spawn_timer,
        final(game).bullets == old(game).bullets,
        final(game).next_id == old(game).next_id,
{
    let n = game.zombies.len();
    let mut blasts: Vec<Position> = Vec::new();
    let mut i: usize = 0;
    proof {
        lemma_plants_descend_refl(game.plants@);
    }
    while i < n
        invariant
            0 <= i <= n,
            n == game.zombies@.len(),
            n == old(game).zombies@.len(),
            old(game).wf(),
            ({
                let (plants, zombies, bl) = eat_all(
                    old(game).plants@,
                    old(game).zombies@.subrange(0, i as int),
                    dt_ms,
                );
                &&& game.plants@ == plants
                &&& game.zombies@.subrange(0, i as int) == zombies
                &&& blasts@ == bl
            }),
            forall|k: int| i <= k < n ==> #[trigger] game.zombies@[k] == old(game).zombies@[k],
            forall|k: int|
                0 <= k < i ==> {
                    &&& (#[trigger] game.zombies@[k]).id == old(game).zombies@[k].id
                    &&& game.zombies@[k].health == old(game).zombies@[k].health
                    &&& game.zombies@[k].pos == old(game).zombies@[k].pos
                },
            forall|k: int|
                0 <= k < i ==> (#[trigger] old(game).zombies@[k].state matches ZombieState::Eating(d)
                    && !has_plant_id(old(game).plants@, d)) ==> game.zombies@[k].state
                    == ZombieState::Walking,
            forall|k: int| 0 <= k < blasts@.len() ==> in_field(#[trigger] blasts@[k]),
            plants_wf(game.plants@, game.next_id),
            plant_progress(old(game).plants@, game.plants@),
            plant_ids_kept(old(game).plants@, game.plants@),
            game.state == old(game).state,
            game.spawn_timer == old(game).spawn_timer,
            game.bullets == old(game).bullets,
            game.explosions == old(game).explosions,
            game.particles == old(game).particles,
            game.next_id == old(game).next_id,
        decreases n - i,
    {
        let z = game.zombies[i];
        assert(z == old(game).zombies@[i as int]);
        assert(z.wf());
        let ghost before = game.plants@;
        let ghost done = game.zombies@.subrange(0, i as int);
        let ghost old_blasts = blasts@;
        let (z2, blast) = eat_one(&mut game.plants, z, dt_ms, Ghost(game.next_id));
        game.zombies[i] = z2;
        match blast {
            Some(b) => blasts.push(b),
            None => {},
        }
        proof {
            lemma_plants_descend_trans(old(game).plants@, before, game.plants@);
            let sub = old(game).zombies@.subrange(0, i + 1);
            assert(sub.drop_last() =~= old(game).zombies@.subrange(0, i as int));
            assert(sub.last() == z);
            assert(game.zombies@.subrange(0, i + 1) =~= done.push(z2));
            if let ZombieState::Eating(d) = z.state {
                if !has_plant_id(old(game).plants@, d) {
                    if has_plant_id(before, d) {
                        let j = choose|j: int| 0 <= j < before.len() && (#[trigger] before[j]).id == d;
                        assert(has_plant_id(old(game).plants@, before[j].id));
                    }
                    assert(plant_index(before, d) is None);
                }
            }
        }
        i = i + 1;
    }
    proof {
        assert(old(game).zombies@.subrange(0, n as int) =~= old(game).zombies@);
        assert(game.zombies@.subrange(0, n as int) =~= game.zombies@);
        assert forall|k: int| 0 <= k < game.zombies@.len() implies (#[trigger] game.zombies@[k]).wf()
            && game.zombies@[k].id < game.next_id by {
            assert(old(game).zombies@[k].wf());
        }
        assert forall|x: int, y: int|
            0 <= x < game.zombies@.len() && 0 <= y < game.zombies@.len() && x != y implies
            game.zombies@[x].id != game.zombies@[y].id by {
            assert(old(game).zombies@[x].id != old(game).zombies@[y].id);
        }
        assert(zombies_wf(game.zombies@, game.next_id));
    }
    let ghost eaten = eat_all(old(game).plants@, old(game).zombies@, dt_ms);
    let mut k: usize = 0;
    while k < blasts.len()
        invariant
            0 <= k <= blasts@.len(),
            forall|x: int| 0 <= x < blasts@.len() ==> in_field(#[trigger] blasts@[x]),
            game.explosions@ == old(game).explosions@ + blasts@.subrange(0, k as int).map_values(
                |b: Position| Explosion::spec_at(b),
            ),
            game.particles@.len() == old(game).particles@.len() + PARTICLES_PER_BURST * k,
            game.particles@.subrange(0, old(game).particles@.len() as int) == old(game).particles@,
            explosions_wf(game.explosions@),
            particles_wf(game.particles@),
            blasts@ == eaten.2,
            game.plants@ == eaten.0,
            game.zombies@ == eaten.1,
            game.spawn_timer.wf(),
            bullets_wf(game.bullets@),
            plants_wf(game.plants@, game.next_id),
            zombies_wf(game.zombies@, game.next_id),
            forall|x: int|
                0 <= x < old(game).zombies@.len() ==> {
                    &&& (#[trigger] game.zombies@[x]).id == old(game).zombies@[x].id
                    &&& game.zombies@[x].health == old(game).zombies@[x].health
                    &&& game.zombies@[x].pos == old(game).zombies@[x].pos
                },
            forall|x: int|
                0 <= x < old(game).zombies@.len() ==> (#[trigger] old(game).zombies@[x].state matches ZombieState::Eating(d)
                    && !has_plant_id(old(game).plants@, d)) ==> game.zombies@[x].state
                    == ZombieState::Walking,
            game.zombies@.len() == old(game).zombies@.len(),
            plant_progress(old(game).plants@, game.plants@),
            plant_ids_kept(old(game).plants@, game.plants@),
            game.state == old(game).state,
            game.spawn_timer == old(game).spawn_timer,
            game.bullets == old(game).bullets,
            game.next_id == old(game).next_id,
        decreases blasts@.len() - k,
    {
        let b = blasts[k];
        assert(in_field(b));
        let ghost before_e = game.explosions@;
        let ghost before_p = game.particles@;
        game.explosions.push(Explosion::at(b));
        spawn_burst(&mut game.particles, b);
        proof {
            assert(blasts@.subrange(0, k + 1).map_values(|b: Position| Explosion::spec_at(b))
                =~= blasts@.subrange(0, k as int).map_values(|b: Position| Explosion::spec_at(b)).push(
                Explosion::spec_at(b),
            ));
            assert forall|x: int| 0 <= x < game.explosions@.len() implies (
            #[trigger] game.explosions@[x]).wf() by {
                if x < before_e.len() {
                    assert(game.explosions@[x] == before_e[x]);
                }
            }
            assert(game.particles@.subrange(0, old(game).particles@.len() as int)
                =~= before_p.subrange(0, old(game).particles@.len() as int));
            assert(PARTICLES_PER_BURST * (k + 1) == PARTICLES_PER_BURST * k + PARTICLES_PER_BURST);
        }
        k = k + 1;
    }
    proof {
        assert(blasts@.subrange(0, blasts@.len() as int) =~= blasts@);
    }
}

/// `j` is the first adversary strictly closer to `pos` than the hit radius.
pub open spec fn is_first_hit(zs: Seq<Zombie>, pos: Position, j: int) -> bool {
    &&& 0 <= j < zs.len()
    &&& closer_than(zs[j].pos, pos, HIT_RADIUS)
    &&& forall|k: int| 0 <= k < j ==> !closer_than((#[trigger] zs[k]).pos, pos, HIT_RADIUS)
}

/// The first adversary, in adversary order, that a projectile at `pos` hits.
pub open spec fn first_hit(zs: Seq<Zombie>, pos: Position) -> Option<int> {
    if exists|j: int| is_first_hit(zs, pos, j) {
        Some(choose|j: int| is_first_hit(zs, pos, j))
    } else {
        None
    }
}

/// Index of the first adversary a projectile at `pos` hits.
pub fn find_first_hit(zombies: &Vec<Zombie>, pos: Position) -> (r: Option<usize>)
    requires
        forall|k: int| 0 <= k < zombies@.len() ==> (#[trigger] zombies@[k]).wf(),
        in_field(pos),
    ensures
        r matches Some(j) ==> first_hit(zombies@, pos) == Some(j as int),
        r is None ==> first_hit(zombies@, pos) is None,
{
    let mut i: usize = 0;
    while i < zombies.len()
        invariant
            i <= zombies@.len(),
            forall|k: int| 0 <= k < zombies@.len() ==> (#[trigger] zombies@[k]).wf(),
            in_field(pos),
            forall|k: int| 0 <= k < i ==> !closer_than((#[trigger] zombies@[k]).pos, pos, HIT_RADIUS),
        decreases zombies@.len() - i,
    {
        assert(zombies@[i as int].wf());
        if is_closer_than(zombies[i].pos, pos, HIT_RADIUS) {
            proof {
                assert(is_first_hit(zombies@, pos, i as int));
                let j = choose|j: int| is_first_hit(zombies@, pos, j);
                if j < i {
                    assert(!closer_than(zombies@[j].pos, pos, HIT_RADIUS));
                } else if j > i {
                    assert(!closer_than(zombies@[i as int].pos, pos, HIT_RADIUS));
                }
            }
            return Some(i);
        }
        i = i + 1;
    }
    proof {
        assert forall|j: int| !is_first_hit(zombies@, pos, j) by {
            if 0 <= j < zombies@.len() {
                assert(!closer_than(zombies@[j].pos, pos, HIT_RADIUS));
            }
        }
    }
    None
}

/// One projectile against the adversaries: the adversaries after it, and
/// whether it hit (and is spent).
pub open spec fn hit_step(zs: Seq<Zombie>, b: Bullet) -> (Seq<Zombie>, bool) {
    match first_hit(zs, b.pos) {
        None => (zs, false),
        Some(j) => (struck(zs, j, BULLET_DAMAGE as int), true),
    }
}

/// Every projectile of `bs` in order against the adversaries: the adversaries
/// after them and the projectiles that missed.
pub open spec fn hits_all(zs: Seq<Zombie>, bs: Seq<Bullet>) -> (Seq<Zombie>, Seq<Bullet>)
    decreases bs.len(),
{
    if bs.len() == 0 {
        (zs, Seq::empty())
    } else {
        let (z1, missed) = hits_all(zs, bs.drop_last());
        let (z2, hit) = hit_step(z1, bs.last());
        (z2, if hit {
            missed
        } else {
            missed.push(bs.last())
        })
    }
}

/// Resolve projectile hits: each projectile, in order, hits the first
/// adversary closer than the hit radius, if any; it is then spent and the
/// adversary loses `BULLET_DAMAGE`, and is removed once its health reaches zero.
pub fn collision_system(game: &mut Game)
    requires
        old(game).wf(),
    ensures
        final(game).wf(),
        (final(game).zombies@, final(game).bullets@) == hits_all(
            old(game).zombies@,
            old(game).bullets@,
        ),
        zombie_health_not_raised(old(game).zombies@, final(game).zombies@),
        zombie_ids_kept(old(game).zombies@, final(game).zombies@),
        final(game).state == old(game).state,
        final(game).spawn_timer == old(game).spawn_timer,
        final(game).plants == old(game).plants,
        final(game).explosions == old(game).explosions,
        final(game).particles == old(game).particles,
        final(game).next_id == old(game).next_id,
{
    let mut missed: Vec<Bullet> = Vec::new();
    let mut i: usize = 0;
    proof {
        lemma_zombies_descend_refl(game.zombies@);
    }
    while i < game.bullets.len()
        invariant
            0 <= i <= game.bullets@.len(),
            game.bullets == old(game).bullets,
            old(game).wf(),
            (game.zombies@, missed@) == hits_all(
                old(game).zombies@,
                game.bullets@.subrange(0, i as int),
            ),
            zombies_wf(game.zombies@, game.next_id),
            bullets_wf(missed@),
            zombie_health_not_raised(old(game).zombies@, game.zombies@),
            zombie_ids_kept(old(game).zombies@, game.zombies@),
            game.state == old(game).state,
            game.spawn_timer == old(game).spawn_timer,
            game.plants == old(game).plants,
            game.explosions == old(game).explosions,
            game.particles == old(game).particles,
            game.next_id == old(game).next_id,
        decreases game.bullets@.len() - i,
    {
        let b = game.bullets[i];
        assert(in_field(b.pos));
        let ghost before = game.zombies@;
        match find_first_hit(&game.zombies, b.pos) {
            None => {
                missed.push(b);
            },
            Some(j) => {
                let z = game.zombies[j];
                assert(z.wf());
                proof {
                    lemma_struck(before, j as int, BULLET_DAMAGE as int, game.next_id);
                }
                let h = z.health - BULLET_DAMAGE;
                if h <= 0 {
                    game.zombies.remove(j);
                } else {
                    game.zombies[j] = Zombie { health: h, ..z };
                }
                proof {
                    assert(game.zombies@ =~= struck(before, j as int, BULLET_DAMAGE as int));
                    lemma_zombies_descend_trans(old(game).zombies@, before, game.zombies@);
                }
            },
        }
        proof {
            let sub = game.bullets@.subrange(0, i + 1);
            assert(sub.drop_last() =~= game.bullets@.subrange(0, i as int));
            assert(sub.last() == b);
        }
        i = i + 1;
    }
    proof {
        assert(game.bullets@.subrange(0, game.bullets@.len() as int) =~= game.bullets@);
    }
    game.bullets = missed;
}


/// The adversaries after one explosion's damage for `dt_ms`: those within its
/// radius lose `damage` per second, and those left without health are removed.
pub open spec fn blast(zs: Seq<Zombie>, e: Explosion, dt_ms: u32) -> Seq<Zombie>
    decreases zs.len(),
{
    if zs.len() == 0 {
        Seq::empty()
    } else {
        let z = zs.last();
        let h = z.health - e.damage * dt_ms;
        blast(zs.drop_last(), e, dt_ms) + if !not_farther_than(z.pos, e.pos, e.radius) {
            seq![z]
        } else if h <= 0 {
            Seq::empty()
        } else {
            seq![Zombie { health: h as i64, ..z }]
        }
    }
}

/// Every explosion of `es` in order: the adversaries after their damage and
/// the explosions whose timers have not run out.
pub open spec fn explode_all(zs: Seq<Zombie>, es: Seq<Explosion>, dt_ms: u32) -> (
    Seq<Zombie>,
    Seq<Explosion>,
)
    decreases es.len(),
{
    if es.len() == 0 {
        (zs, Seq::empty())
    } else {
        let (z1, live) = explode_all(zs, es.drop_last(), dt_ms);
        let e = es.last();
        let t = e.timer.ticked(dt_ms);
        (blast(z1, e, dt_ms), if t.finished {
            live
        } else {
            live.push(Explosion { timer: t, ..e })
        })
    }
}

/// The adversaries after one explosion's damage for this frame.
fn blast_zombies(
    zombies: &Vec<Zombie>,
    e: Explosion,
    dt_ms: u32,
    Ghost(n): Ghost<u64>,
) -> (r: Vec<Zombie>)
    requires
        zombies_wf(zombies@, n),
        e.wf(),
    ensures
        r@ == blast(zombies@, e, dt_ms),
        zombies_wf(r@, n),
        zombie_health_not_raised(zombies@, r@),
        zombie_ids_kept(zombies@, r@),
{
    let mut kept: Vec<Zombie> = Vec::new();
    let mut i: usize = 0;
    while i < zombies.len()
        invariant
            0 <= i <= zombies@.len(),
            zombies_wf(zombies@, n),
            e.wf(),
            kept@ == blast(zombies@.subrange(0, i as int), e, dt_ms),
            drawn_from(kept@, zombies@, i as int),
            forall|k: int| 0 <= k < kept@.len() ==> (#[trigger] kept@[k]).wf() && kept@[k].id < n,
        decreases zombies@.len() - i,
    {
        let z = zombies[i];
        assert(z.wf());
        let ghost before = kept@;
        if !is_within(z.pos, e.pos, e.radius) {
            kept.push(z);
            proof {
                lemma_drawn_push(before, zombies@, i as int, z);
            }
        } else {
            proof {
                assert(0 <= e.damage * dt_ms <= 1000 * 0xffff_ffff) by (nonlinear_arith)
                    requires
                        0 <= e.damage <= 1000,
                        0 <= dt_ms <= 0xffff_ffff,
                ;
            }
            let h = z.health - e.damage * dt_ms as i64;
            if h <= 0 {
                proof {
                    lemma_drawn_skip(before, zombies@, i as int);
                }
            } else {
                kept.push(Zombie { health: h, ..z });
                proof {
                    lemma_drawn_push(before, zombies@, i as int, Zombie { health: h, ..z });
                }
            }
        }
        proof {
            let sub = zombies@.subrange(0, i + 1);
            assert(sub.drop_last() =~= zombies@.subrange(0, i as int));
            assert(sub.last() == z);
            assert forall|k: int| 0 <= k < kept@.len() implies (#[trigger] kept@[k]).wf() && kept@[k].id < n by {
                if k < before.len() {
                    assert(kept@[k] == before[k]);
                }
            }
        }
        i = i + 1;
    }
    proof {
        assert(zombies@.subrange(0, zombies@.len() as int) =~= zombies@);
        lemma_drawn_done(kept@, zombies@);
    }
    kept
}

/// Apply every explosion's damage for this frame to the adversaries within its
/// radius, then advance its timer and remove it once the timer runs out.
pub fn explosion_damage_system(game: &mut Game, dt_ms: u32)
    requires
        old(game).wf(),
    ensures
        final(game).wf(),
        (final(game).zombies@, final(game).explosions@) == explode_all(
            old(game).zombies@,
            old(game).explosions@,
            dt_ms,
        ),
        zombie_health_not_raised(old(game).zombies@, final(game).zombies@),
        zombie_ids_kept(old(game).zombies@, final(game).zombies@),
        final(game).state == old(game).state,
        final(game).spawn_timer == old(game).spawn_timer,
        final(game).plants == old(game).plants,
        final(game).bullets == old(game).bullets,
        final(game).particles == old(game).particles,
        final(game).next_id == old(game).next_id,
{
    let mut live: Vec<Explosion> = Vec::new();
    let mut i: usize = 0;
    proof {
        lemma_zombies_descend_refl(game.zombies@);
    }
    while i < game.explosions.len()
        invariant
            0 <= i <= game.explosions@.len(),
            game.explosions == old(game).explosions,
            old(game).wf(),
            (game.zombies@, live@) == explode_all(
                old(game).zombies@,
                game.explosions@.subrange(0, i as int),
                dt_ms,
            ),
            zombies_wf(game.zombies@, game.next_id),
            explosions_wf(live@),
            zombie_health_not_raised(old(game).zombies@, game.zombies@),
            zombie_ids_kept(old(game).zombies@, game.zombies@),
            game.state == old(game).state,
            game.spawn_timer == old(game).spawn_timer,
            game.plants == old(game).plants,
            game.bullets == old(game).bullets,
            game.particles == old(game).particles,
            game.next_id == old(game).next_id,
        decreases game.explosions@.len() - i,
    {
        let e = game.explosions[i];
        assert(e.wf());
        let ghost before = game.zombies@;
        let blasted = blast_zombies(&game.zombies, e, dt_ms, Ghost(game.next_id));
        game.zombies = blasted;
        proof {
            lemma_zombies_descend_trans(old(game).zombies@, before, game.zombies@);
        }
        let mut e2 = e;
        e2.timer.tick(dt_ms);
        if !e2.timer.finished {
            live.push(e2);
        }
        proof {
            let sub = game.explosions@.subrange(0, i + 1);
            assert(sub.drop_last() =~= game.explosions@.subrange(0, i as int));
            assert(sub.last() == e);
        }
        i = i + 1;
    }
    proof {
        assert(game.explosions@.subrange(0, game.explosions@.len() as int) =~= game.explosions@);
    }
    game.explosions = live;
}

} // verus!
