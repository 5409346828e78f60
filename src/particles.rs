use vstd::prelude::*;
use crate::components::Particle;
use crate::constants::{PARTICLES_PER_BURST, PARTICLE_MS, PARTICLE_SPEED};
use crate::game::{particles_wf, Game};
use crate::geometry::{in_field, Position};
use crate::spawning::random_in;
use crate::timer::{Timer, TimerMode};

verus! {

/// Add a burst of particles flying out of `origin` with random velocities.
pub fn spawn_burst(particles: &mut Vec<Particle>, origin: Position)
    requires
        particles_wf(old(particles)@),
        in_field(origin),
    ensures
        particles_wf(final(particles)@),
        final(particles)@.len() == old(particles)@.len() + PARTICLES_PER_BURST,
        final(particles)@.subrange(0, old(particles)@.len() as int) == old(particles)@,
        forall|k: int|
            old(particles)@.len() <= k < final(particles)@.len() ==> (#[trigger] final(particles)@[k]).origin
                == origin && final(particles)@[k].timer == Timer::fresh(PARTICLE_MS, TimerMode::Once),
{
    let mut n: usize = 0;
    while n < PARTICLES_PER_BURST
        invariant
            n <= PARTICLES_PER_BURST,
            in_field(origin),
            particles_wf(particles@),
            particles@.len() == old(particles)@.len() + n,
            particles@.subrange(0, old(particles)@.len() as int) == old(particles)@,
            forall|k: int|
                old(particles)@.len() <= k < particles@.len() ==> (#[trigger] particles@[k]).origin
                    == origin && particles@[k].timer == Timer::fresh(PARTICLE_MS, TimerMode::Once),
        decreases PARTICLES_PER_BURST - n,
    {
        let vx = random_in(-PARTICLE_SPEED, PARTICLE_SPEED);
        let vy = random_in(-PARTICLE_SPEED, PARTICLE_SPEED);
        let ghost before = particles@;
        particles.push(Particle { vx, vy, timer: Timer::new(PARTICLE_MS, TimerMode::Once), origin });
        proof {
            assert(particles@.subrange(0, old(particles)@.len() as int) =~= before.subrange(
                0,
                old(particles)@.len() as int,
            ));
            assert forall|k: int| 0 <= k < particles@.len() implies (#[trigger] particles@[k]).wf() by {
                if k < before.len() {
                    assert(particles@[k] == before[k]);
                }
            }
        }
        n = n + 1;
    }
}

pub open spec fn particle_ticked(p: Particle, dt_ms: u32) -> Particle {
    Particle { timer: p.timer.ticked(dt_ms), ..p }
}

/// Particles after their timers advanced, without those that expired.
pub open spec fn aged_particles(s: Seq<Particle>, dt_ms: u32) -> Seq<Particle>
    decreases s.len(),
{
    if s.len() == 0 {
        Seq::empty()
    } else {
        let p = particle_ticked(s.last(), dt_ms);
        aged_particles(s.drop_last(), dt_ms) + if p.timer.finished {
            Seq::empty()
        } else {
            seq![p]
        }
    }
}

/// Ageing never adds particles.
pub proof fn lemma_aged_particles_len(s: Seq<Particle>, dt_ms: u32)
    ensures
        aged_particles(s, dt_ms).len() <= s.len(),
    decreases s.len(),
{
    if s.len() > 0 {
        lemma_aged_particles_len(s.drop_last(), dt_ms);
    }
}

/// Move every particle along its velocity and remove those whose time is up.
pub fn particle_system(game: &mut Game, dt_ms: u32)
    requires
        old(game).wf(),
    ensures
        final(game).wf(),
        final(game).particles@ == aged_particles(old(game).particles@, dt_ms),
        final(game).state == old(game).state,
        final(game).spawn_timer == old(game).spawn_timer,
        final(game).plants == old(game).plants,
        final(game).zombies == old(game).zombies,
        final(game).bullets == old(game).bullets,
        final(game).explosions == old(game).explosions,
        final(game).next_id == old(game).next_id,
{
    let mut kept: Vec<Particle> = Vec::new();
    let mut i: usize = 0;
    while i < game.particles.len()
        invariant
            0 <= i <= game.particles@.len(),
            game.particles == old(game).particles,
            old(game).wf(),
            kept@ == aged_particles(game.particles@.subrange(0, i as int), dt_ms),
            particles_wf(kept@),
        decreases game.particles@.len() - i,
    {
        let mut p = game.particles[i];
        assert(p.wf());
        p.timer.tick(dt_ms);
        if !p.timer.finished {
            kept.push(p);
        }
        proof {
            let s = game.particles@.subrange(0, i + 1);
            assert(s.drop_last() =~= game.particles@.subrange(0, i as int));
            assert(s.last() == game.particles@[i as int]);
        }
        i = i + 1;
    }
    proof {
        assert(game.particles@.subrange(0, game.particles@.len() as int) =~= game.particles@);
    }
    game.particles = kept;
}

} // verus!
