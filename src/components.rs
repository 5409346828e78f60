use vstd::prelude::*;
use crate::constants::{
    COST_PEASHOOTER, COST_POTATOMINE, COST_SUNFLOWER, COST_WALLNUT, EXPLOSION_DPS, EXPLOSION_MS,
    EXPLOSION_RADIUS, FIELD_LIMIT, HEALTH_UNIT, PARTICLE_MS, PARTICLE_SPEED, ZOMBIE_HEALTH,
};
use crate::geometry::{cell_center, in_field, GridCell, Position};
use crate::timer::{Timer, TimerMode};

verus! {

/// The kinds of defender.
#[derive(Clone, Copy, Debug, PartialEq, Eq, Structural)]
pub enum PlantType {
    /// Fires a projectile down its row on each cycle.
    Peashooter,
    /// Adds sun to the economy on each cycle.
    Sunflower,
    /// A sturdy obstacle with no action.
    WallNut,
    /// Arms once, then explodes on contact.
    PotatoMine,
}

impl PlantType {
    pub open spec fn spec_cost(self) -> u32 {
        match self {
            PlantType::Peashooter => COST_PEASHOOTER,
            PlantType::Sunflower => COST_SUNFLOWER,
            PlantType::WallNut => COST_WALLNUT,
            PlantType::PotatoMine => COST_POTATOMINE,
        }
    }

    pub open spec fn spec_base_health(self) -> i64 {
        match self {
            PlantType::WallNut => (1000 * HEALTH_UNIT) as i64,
            PlantType::PotatoMine => (50 * HEALTH_UNIT) as i64,
            _ => (100 * HEALTH_UNIT) as i64,
        }
    }

    /// Duration and mode of the kind's action timer.
    pub open spec fn spec_timer(self) -> Timer {
        match self {
            PlantType::Peashooter => Timer::fresh(1500, TimerMode::Repeating),
            PlantType::Sunflower => Timer::fresh(5000, TimerMode::Repeating),
            PlantType::WallNut => Timer::fresh(1000, TimerMode::Repeating),
            PlantType::PotatoMine => Timer::fresh(2000, TimerMode::Once),
        }
    }

    /// Sun spent to place a defender of this kind.
    pub fn cost(self) -> (r: u32)
        ensures
            r == self.spec_cost(),
    {
        match self {
            PlantType::Peashooter => COST_PEASHOOTER,
            PlantType::Sunflower => COST_SUNFLOWER,
            PlantType::WallNut => COST_WALLNUT,
            PlantType::PotatoMine => COST_POTATOMINE,
        }
    }

    /// Health a new defender of this kind starts with.
    pub fn base_health(self) -> (r: i64)
        ensures
            r == self.spec_base_health(),
    {
        match self {
            PlantType::WallNut => 1000 * HEALTH_UNIT,
            PlantType::PotatoMine => 50 * HEALTH_UNIT,
            _ => 100 * HEALTH_UNIT,
        }
    }

    /// A fresh action timer for this kind.
    pub fn action_timer(self) -> (r: Timer)
        ensures
            r == self.spec_timer(),
            r.wf(),
    {
        match self {
            PlantType::Peashooter => Timer::new(1500, TimerMode::Repeating),
            PlantType::Sunflower => Timer::new(5000, TimerMode::Repeating),
            PlantType::WallNut => Timer::new(1000, TimerMode::Repeating),
            PlantType::PotatoMine => Timer::new(2000, TimerMode::Once),
        }
    }
}

/// A defender standing on a grid cell.
#[derive(Clone, Copy, Debug, PartialEq, Eq, Structural)]
pub struct Plant {
    /// Stable handle; never reused within a game.
    pub id: u64,
    pub kind: PlantType,
    pub timer: Timer,
    /// In health units; the defender is gone once this reaches zero.
    pub health: i64,
    /// Only a potato mine becomes armed, when its timer completes.
    pub armed: bool,
    pub cell: GridCell,
    pub pos: Position,
}

impl Plant {
    pub open spec fn wf(self) -> bool {
        &&& self.cell.in_bounds()
        &&& self.pos == cell_center(self.cell)
        &&& 0 < self.health <= self.kind.spec_base_health()
        &&& self.timer.wf()
        &&& self.timer.duration_ms == self.kind.spec_timer().duration_ms
        &&& self.timer.mode == self.kind.spec_timer().mode
        &&& self.armed == (self.kind == PlantType::PotatoMine && self.timer.finished)
    }

    pub open spec fn is_armed_mine(self) -> bool {
        self.kind == PlantType::PotatoMine && self.armed
    }

    /// A defender freshly placed on `cell`.
    pub open spec fn placed(id: u64, kind: PlantType, cell: GridCell) -> Plant {
        Plant {
            id,
            kind,
            timer: kind.spec_timer(),
            health: kind.spec_base_health(),
            armed: false,
            cell,
            pos: cell_center(cell),
        }
    }
}

/// What an adversary is doing.
#[derive(Clone, Copy, Debug, PartialEq, Eq, Structural)]
pub enum ZombieState {
    /// Moving towards the defended edge.
    Walking,
    /// Stopped and eating the defender with this id.
    Eating(u64),
}

/// An adversary.
#[derive(Clone, Copy, Debug, PartialEq, Eq, Structural)]
pub struct Zombie {
    pub id: u64,
    /// In health units; the adversary is gone once this reaches zero.
    pub health: i64,
    pub state: ZombieState,
    pub pos: Position,
}

impl Zombie {
    pub open spec fn wf(self) -> bool {
        &&& 0 < self.health <= ZOMBIE_HEALTH
        &&& in_field(self.pos)
    }
}

/// A projectile travelling to the right.
#[derive(Clone, Copy, Debug, PartialEq, Eq, Structural)]
pub struct Bullet {
    pub pos: Position,
}

/// The tool the player has selected.
#[derive(Clone, Copy, Debug, PartialEq, Eq, Structural)]
pub enum Tool {
    Plant(PlantType),
    Shovel,
}

/// A zone that damages every adversary within `radius` until its timer runs out.
#[derive(Clone, Copy, Debug, PartialEq, Eq, Structural)]
pub struct Explosion {
    pub timer: Timer,
    pub radius: i64,
    /// Hit points per second, which is health units per millisecond.
    pub damage: i64,
    pub pos: Position,
}

impl Explosion {
    pub open spec fn wf(self) -> bool {
        &&& self.timer.wf()
        &&& self.timer.mode == TimerMode::Once
        &&& !self.timer.finished
        &&& 0 <= self.radius <= FIELD_LIMIT
        &&& 0 <= self.damage <= EXPLOSION_DPS
        &&& in_field(self.pos)
    }

    /// The explosion a mine leaves where it stood.
    pub open spec fn spec_at(pos: Position) -> Explosion {
        Explosion {
            timer: Timer::fresh(EXPLOSION_MS, TimerMode::Once),
            radius: EXPLOSION_RADIUS,
            damage: EXPLOSION_DPS,
            pos,
        }
    }

    /// A new explosion at `pos`.
    pub fn at(pos: Position) -> (r: Explosion)
        requires
            in_field(pos),
        ensures
            r == Explosion::spec_at(pos),
            r.wf(),
    {
        Explosion {
            timer: Timer::new(EXPLOSION_MS, TimerMode::Once),
            radius: EXPLOSION_RADIUS,
            damage: EXPLOSION_DPS,
            pos,
        }
    }
}

/// A cosmetic particle flying from `origin` at a constant velocity.
#[derive(Clone, Copy, Debug, PartialEq, Eq, Structural)]
pub struct Particle {
    /// Pixels per second, which is sub-pixels per millisecond.
    pub vx: i64,
    pub vy: i64,
    pub timer: Timer,
    pub origin: Position,
}

impl Particle {
    pub open spec fn wf(self) -> bool {
        &&& -PARTICLE_SPEED <= self.vx < PARTICLE_SPEED
        &&& -PARTICLE_SPEED <= self.vy < PARTICLE_SPEED
        &&& self.timer.wf()
        &&& self.timer.mode == TimerMode::Once
        &&& self.timer.duration_ms == PARTICLE_MS
        &&& !self.timer.finished
        &&& in_field(self.origin)
    }

    pub open spec fn spec_position(self) -> (int, int) {
        (
            self.origin.x + self.vx * self.timer.elapsed_ms,
            self.origin.y + self.vy * self.timer.elapsed_ms,
        )
    }

    /// Where the particle is now.
    pub fn position(&self) -> (r: Position)
        requires
            self.wf(),
        ensures
            (r.x as int, r.y as int) == self.spec_position(),
    {
        let t = self.timer.elapsed_ms as i64;
        proof {
            assert(-120000 <= self.vx * t <= 120000) by (nonlinear_arith)
                requires
                    -150 <= self.vx < 150,
                    0 <= t <= 800,
            ;
            assert(-120000 <= self.vy * t <= 120000) by (nonlinear_arith)
                requires
                    -150 <= self.vy < 150,
                    0 <= t <= 800,
            ;
        }
        Position { x: self.origin.x + self.vx * t, y: self.origin.y + self.vy * t }
    }
}

} // verus!
