use vstd::prelude::*;
use crate::components::{Bullet, Plant, PlantType, Zombie, ZombieState};
use crate::constants::{
    BULLET_OFFSET_X, BULLET_OFFSET_Y, BULLET_SPEED, ESCAPE_X, FIELD_RIGHT, SUN_PER_CYCLE,
    ZOMBIE_SPEED,
};
use crate::game::{
    bullets_wf, drawn_from, lemma_drawn_done, lemma_drawn_push, lemma_drawn_skip, plant_progress,
    has_plant_id, plant_ids_kept, plants_wf, zombie_health_not_raised, zombie_ids_kept, Game,
};
use crate::geometry::{in_field, Position};

verus! {

/// A defender after its action timer advanced by `dt_ms`: a potato mine whose
/// timer has completed is armed.
pub open spec fn acted(p: Plant, dt_ms: u32) -> Plant {
    let t = p.timer.ticked(dt_ms);
    Plant { timer: t, armed: p.armed || (p.kind == PlantType::PotatoMine && t.finished), ..p }
}

/// Whether an acted defender fires a projectile.
pub open spec fn fires(p: Plant) -> bool {
    p.kind == PlantType::Peashooter && p.timer.finished
}

/// Whether an acted defender yields sun.
pub open spec fn produces(p: Plant) -> bool {
    p.kind == PlantType::Sunflower && p.timer.finished
}

pub open spec fn muzzle(p: Plant) -> Bullet {
    Bullet {
        pos: Position {
            x: (p.pos.x + BULLET_OFFSET_X) as i64,
            y: (p.pos.y + BULLET_OFFSET_Y) as i64,
        },
    }
}

/// Projectiles fired by acted defenders, in defender order.
pub open spec fn shots(s: Seq<Plant>) -> Seq<Bullet>
    decreases s.len(),
{
    if s.len() == 0 {
        Seq::empty()
    } else {
        shots(s.drop_last()) + if fires(s.last()) {
            seq![muzzle(s.last())]
        } else {
            Seq::empty()
        }
    }
}

/// Number of acted defenders that yield sun.
pub open spec fn producers(s: Seq<Plant>) -> nat
    decreases s.len(),
{
    if s.len() == 0 {
        0
    } else {
        producers(s.drop_last()) + if produces(s.last()) {
            1nat
        } else {
            0nat
        }
    }
}

/// The balance after `n` income cycles; it saturates at `u32::MAX`.
pub open spec fn with_income(sun: u32, n: nat) -> u32 {
    if sun + SUN_PER_CYCLE * n > u32::MAX {
        u32::MAX
    } else {
        (sun + SUN_PER_CYCLE * n) as u32
    }
}

/// Advance every defender's action timer. A peashooter completing a cycle
/// fires a projectile, a sunflower completing one adds 25 sun, and a potato
/// mine whose arming timer completes becomes armed.
pub fn plant_action(game: &mut Game, dt_ms: u32)
    requires
        old(game).wf(),
    ensures
        final(game).wf(),
        final(game).plants@.len() == old(game).plants@.len(),
        forall|i: int|
            0 <= i < old(game).plants@.len() ==> #[trigger] final(game).plants@[i] == acted(
                old(game).plants@[i],
                dt_ms,
            ),
        final(game).bullets@ == old(game).bullets@ + shots(final(game).plants@),
        plant_progress(old(game).plants@, final(game).plants@),
        plant_ids_kept(old(game).plants@, final(game).plants@),
        final(game).state.sun == with_income(old(game).state.sun, producers(final(game).plants@)),
        final(game).state.selected_tool == old(game).state.selected_tool,
        final(game).spawn_timer == old(game).spawn_timer,
        final(game).zombies == old(game).zombies,
        final(game).explosions == old(game).explosions,
        final(game).particles == old(game).particles,
        final(game).next_id == old(game).next_id,
{
    let n = game.plants.len();
    let mut i: usize = 0;
    while i < n
        invariant
            0 <= i <= n,
            n == game.plants@.len(),
            n == old(game).plants@.len(),
            forall|k: int| 0 <= k < i ==> #[trigger] game.plants@[k] == acted(old(game).plants@[k], dt_ms),
            forall|k: int| i <= k < n ==> #[trigger] game.plants@[k] == old(game).plants@[k],
            game.bullets@ == old(game).bullets@ + shots(game.plants@.subrange(0, i as int)),
            game.state.sun == with_income(old(game).state.sun, producers(game.plants@.subrange(0, i as int))),
            game.state.selected_tool == old(game).state.selected_tool,
            game.spawn_timer == old(game).spawn_timer,
            game.zombies == old(game).zombies,
            game.explosions == old(game).explosions,
            game.particles == old(game).particles,
            game.next_id == old(game).next_id,
            old(game).wf(),
            bullets_wf(game.bullets@),
        decreases n - i,
    {
        let ghost before = game.plants@;
        let mut p = game.plants[i];
        assert(p == old(game).plants@[i as int]);
        assert(p.wf());
        p.timer.tick(dt_ms);
        if p.kind == PlantType::PotatoMine && p.timer.finished && !p.armed {
            p.armed = true;
        }
        match p.kind {
            PlantType::Peashooter => {
                if p.timer.finished {
                    game.bullets.push(Bullet {
                        pos: Position { x: p.pos.x + BULLET_OFFSET_X, y: p.pos.y + BULLET_OFFSET_Y },
                    });
                }
            },
            PlantType::Sunflower => {
                if p.timer.finished {
                    game.state.sun = game.state.sun.saturating_add(SUN_PER_CYCLE);
                }
            },
            _ => {},
        }
        game.plants[i] = p;
        proof {
            let s = game.plants@.subrange(0, i + 1);
            assert(s.drop_last() =~= before.subrange(0, i as int));
            assert(s.last() == p);
        }
        i = i + 1;
    }
    proof {
        assert(game.plants@.subrange(0, n as int) =~= game.plants@);
        let (a, b) = (old(game).plants@, game.plants@);
        assert forall|x: int, y: int|
            0 <= x < b.len() && 0 <= y < b.len() && x != y implies b[x].cell != b[y].cell
            && b[x].id != b[y].id by {
            assert(b[x] == acted(a[x], dt_ms));
            assert(b[y] == acted(a[y], dt_ms));
        }
        assert forall|x: int| 0 <= x < b.len() implies (#[trigger] b[x]).wf() && b[x].id
            < game.next_id by {
            assert(b[x] == acted(a[x], dt_ms));
            assert(a[x].wf());
        }
        assert(plants_wf(b, game.next_id));
        assert forall|j: int, k: int|
            #![trigger a[j].id, b[k].id]
            0 <= j < a.len() && 0 <= k < b.len() && a[j].id == b[k].id implies {
                &&& b[k].health <= a[j].health
                &&& b[k].kind == a[j].kind
                &&& a[j].armed ==> b[k].armed
            } by {
            assert(b[k] == acted(a[k], dt_ms));
            assert(a[k].id == a[j].id);
        }
        assert forall|k: int| 0 <= k < b.len() implies has_plant_id(a, (#[trigger] b[k]).id) by {
            assert(b[k] == acted(a[k], dt_ms));
        }
    }
}

/// A potato mine is armed exactly when its arming timer has completed: it
/// goes from unarmed to armed on the tick in which the timer completes, and
/// stays armed afterwards.
pub proof fn lemma_mine_arms_once(p: Plant, dt_ms: u32)
    requires
        p.wf(),
        p.kind == PlantType::PotatoMine,
    ensures
        acted(p, dt_ms).wf(),
        acted(p, dt_ms).armed == (p.timer.elapsed_ms + dt_ms >= p.timer.duration_ms),
        p.armed ==> acted(p, dt_ms).armed,
        !p.armed && acted(p, dt_ms).armed ==> p.timer.elapsed_ms < p.timer.duration_ms
            <= p.timer.elapsed_ms + dt_ms,
        !acted(p, dt_ms).armed ==> !p.armed,
{
}

pub open spec fn bullet_moved(b: Bullet, dt_ms: u32) -> Bullet {
    Bullet { pos: Position { x: (b.pos.x + BULLET_SPEED * dt_ms) as i64, ..b.pos } }
}

/// Projectiles after moving, without those that left the field.
pub open spec fn moved_bullets(s: Seq<Bullet>, dt_ms: u32) -> Seq<Bullet>
    decreases s.len(),
{
    if s.len() == 0 {
        Seq::empty()
    } else {
        let b = bullet_moved(s.last(), dt_ms);
        moved_bullets(s.drop_last(), dt_ms) + if b.pos.x > FIELD_RIGHT {
            Seq::empty()
        } else {
            seq![b]
        }
    }
}

/// Move every projectile right at its fixed speed; one past the right edge of
/// the field is removed.
pub fn move_bullets(game: &mut Game, dt_ms: u32)
    requires
        old(game).wf(),
    ensures
        final(game).wf(),
        final(game).bullets@ == moved_bullets(old(game).bullets@, dt_ms),
        final(game).state == old(game).state,
        final(game).spawn_timer == old(game).spawn_timer,
        final(game).plants == old(game).plants,
        final(game).zombies == old(game).zombies,
        final(game).explosions == old(game).explosions,
        final(game).particles == old(game).particles,
        final(game).next_id == old(game).next_id,
{
    let mut kept: Vec<Bullet> = Vec::new();
    let mut i: usize = 0;
    while i < game.bullets.len()
        invariant
            0 <= i <= game.bullets@.len(),
            game.bullets == old(game).bullets,
            old(game).wf(),
            kept@ == moved_bullets(game.bullets@.subrange(0, i as int), dt_ms),
            bullets_wf(kept@),
        decreases game.bullets@.len() - i,
    {
        let b = game.bullets[i];
        assert(in_field(b.pos));
        let x = b.pos.x + BULLET_SPEED * dt_ms as i64;
        if x <= FIELD_RIGHT {
            kept.push(Bullet { pos: Position { x, y: b.pos.y } });
        }
        proof {
            let s = game.bullets@.subrange(0, i + 1);
            assert(s.drop_last() =~= game.bullets@.subrange(0, i as int));
            assert(s.last() == b);
        }
        i = i + 1;
    }
    proof {
        assert(game.bullets@.subrange(0, game.bullets@.len() as int) =~= game.bullets@);
    }
    game.bullets = kept;
}

pub open spec fn zombie_moved(z: Zombie, dt_ms: u32) -> Zombie {
    match z.state {
        ZombieState::Walking => Zombie {
            pos: Position { x: (z.pos.x - ZOMBIE_SPEED * dt_ms) as i64, ..z.pos },
            ..z
        },
        ZombieState::Eating(_) => z,
    }
}

/// Adversaries after moving, without those that broke through.
pub open spec fn moved_zombies(s: Seq<Zombie>, dt_ms: u32) -> Seq<Zombie>
    decreases s.len(),
{
    if s.len() == 0 {
        Seq::empty()
    } else {
        let z = zombie_moved(s.last(), dt_ms);
        moved_zombies(s.drop_last(), dt_ms) + if z.pos.x < ESCAPE_X {
            Seq::empty()
        } else {
            seq![z]
        }
    }
}

/// Move every walking adversary left at its fixed speed; one that has passed
/// the defended edge is removed.
pub fn move_zombies(game: &mut Game, dt_ms: u32)
    requires
        old(game).wf(),
    ensures
        final(game).wf(),
        final(game).zombies@ == moved_zombies(old(game).zombies@, dt_ms),
        zombie_health_not_raised(old(game).zombies@, final(game).zombies@),
        zombie_ids_kept(old(game).zombies@, final(game).zombies@),
        final(game).state == old(game).state,
        final(game).spawn_timer == old(game).spawn_timer,
        final(game).plants == old(game).plants,
        final(game).bullets == old(game).bullets,
        final(game).explosions == old(game).explosions,
        final(game).particles == old(game).particles,
        final(game).next_id == old(game).next_id,
{
    let mut kept: Vec<Zombie> = Vec::new();
    let mut i: usize = 0;
    while i < game.zombies.len()
        invariant
            0 <= i <= game.zombies@.len(),
            game.zombies == old(game).zombies,
            old(game).wf(),
            kept@ == moved_zombies(game.zombies@.subrange(0, i as int), dt_ms),
            forall|k: int| 0 <= k < kept@.len() ==> (#[trigger] kept@[k]).wf()
                && kept@[k].id < game.next_id,
            drawn_from(kept@, game.zombies@, i as int),
        decreases game.zombies@.len() - i,
    {
        let z = game.zombies[i];
        assert(z.wf());
        let mut m = z;
        if z.state == ZombieState::Walking {
            m.pos.x = z.pos.x - ZOMBIE_SPEED * dt_ms as i64;
        }
        let ghost before = kept@;
        if m.pos.x >= ESCAPE_X {
            kept.push(m);
            proof {
                lemma_drawn_push(before, game.zombies@, i as int, m);
            }
        } else {
            proof {
                lemma_drawn_skip(before, game.zombies@, i as int);
            }
        }
        proof {
            let s = game.zombies@.subrange(0, i + 1);
            assert(s.drop_last() =~= game.zombies@.subrange(0, i as int));
            assert(s.last() == z);
            assert forall|k: int| 0 <= k < kept@.len() implies (#[trigger] kept@[k]).wf()
                && kept@[k].id < game.next_id by {
                if k < before.len() {
                    assert(kept@[k] == before[k]);
                }
            }
        }
        i = i + 1;
    }
    proof {
        assert(game.zombies@.subrange(0, game.zombies@.len() as int) =~= game.zombies@);
        lemma_drawn_done(kept@, game.zombies@);
    }
    game.zombies = kept;
}

} // verus!
