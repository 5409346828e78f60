use vstd::prelude::*;

verus! {

/// Position units per pixel.
pub const SUBPIXELS: i64 = 1000;

/// Health units per hit point.
pub const HEALTH_UNIT: i64 = 1000;

pub const TILE_SIZE: i64 = 80 * SUBPIXELS;

pub const ROWS: i32 = 5;

pub const COLS: i32 = 9;

/// Width of the play field, the grid plus the tool panel.
pub const SCREEN_WIDTH: i64 = 9 * TILE_SIZE + 200 * SUBPIXELS;

pub const SCREEN_HEIGHT: i64 = 5 * TILE_SIZE + 100 * SUBPIXELS;

/// Centre of the cell in column 0.
pub const GRID_ORIGIN_X: i64 = -460 * SUBPIXELS + 40 * SUBPIXELS + 50 * SUBPIXELS;

/// Centre of the cell in row 0.
pub const GRID_ORIGIN_Y: i64 = -200 * SUBPIXELS + 40 * SUBPIXELS;

/// Left edge of the grid.
pub const GRID_LEFT: i64 = GRID_ORIGIN_X - 40 * SUBPIXELS;

/// Bottom edge of the grid.
pub const GRID_BOTTOM: i64 = GRID_ORIGIN_Y - 40 * SUBPIXELS;

/// Projectiles beyond this x have left the field.
pub const FIELD_RIGHT: i64 = 460 * SUBPIXELS;

/// Adversaries beyond this x (to the left) have broken through.
pub const ESCAPE_X: i64 = -460 * SUBPIXELS - 50 * SUBPIXELS;

/// Where adversaries enter, just off the right edge of the grid.
pub const ZOMBIE_SPAWN_X: i64 = GRID_ORIGIN_X + 9 * TILE_SIZE + 40 * SUBPIXELS;

/// Every live entity stays within this distance of the origin on each axis.
pub const FIELD_LIMIT: i64 = 1000 * SUBPIXELS;

/// Pixels per second, which is sub-pixels per millisecond.
pub const ZOMBIE_SPEED: i64 = 20;

pub const BULLET_SPEED: i64 = 200;

/// Hit points per second, which is health units per millisecond.
pub const ZOMBIE_EAT_DPS: i64 = 20;

pub const ZOMBIE_HEALTH: i64 = 100 * HEALTH_UNIT;

pub const BULLET_DAMAGE: i64 = 10 * HEALTH_UNIT;

/// An adversary touches a defender closer than this.
pub const CONTACT_RADIUS: i64 = 40 * SUBPIXELS;

/// A projectile hits an adversary closer than this.
pub const HIT_RADIUS: i64 = 40 * SUBPIXELS;

/// Offset of a new projectile from the shooter.
pub const BULLET_OFFSET_X: i64 = 40 * SUBPIXELS;

pub const BULLET_OFFSET_Y: i64 = 20 * SUBPIXELS;

pub const EXPLOSION_RADIUS: i64 = 120 * SUBPIXELS;

/// Hit points per second inside an explosion.
pub const EXPLOSION_DPS: i64 = 1000;

pub const EXPLOSION_MS: u64 = 500;

pub const PARTICLE_MS: u64 = 800;

pub const PARTICLES_PER_BURST: usize = 12;

/// Particle velocity components lie in `[-PARTICLE_SPEED, PARTICLE_SPEED)`.
pub const PARTICLE_SPEED: i64 = 150;

pub const SPAWN_INTERVAL_MS: u64 = 10_000;

pub const STARTING_SUN: u32 = 150;

pub const SUN_PER_CYCLE: u32 = 25;

pub const COST_PEASHOOTER: u32 = 100;

pub const COST_SUNFLOWER: u32 = 50;

pub const COST_WALLNUT: u32 = 50;

pub const COST_POTATOMINE: u32 = 25;

/// Longest timer the simulation uses or accepts.
pub const MAX_TIMER_MS: u64 = 1_000_000_000;

} // verus!
