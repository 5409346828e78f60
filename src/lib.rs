//! Simulation core of a grid-based lawn defence game: defenders placed on a
//! grid, advancing adversaries, projectiles, mine explosions and the sun
//! economy. Positions are integer sub-pixels, health is in thousandths of a
//! hit point and time is in whole milliseconds, so every rule is exact
//! integer arithmetic.

pub mod constants;
pub mod timer;
pub mod geometry;
pub mod components;
pub mod resources;
pub mod game;
pub mod spawning;
pub mod input;
pub mod gameplay;
pub mod particles;
pub mod combat;
pub mod frame;

pub use combat::{collision_system, explosion_damage_system, zombie_eat_system};
pub use components::{Bullet, Explosion, Particle, Plant, PlantType, Tool, Zombie, ZombieState};
pub use frame::run_frame;
pub use game::Game;
pub use gameplay::{move_bullets, move_zombies, plant_action};
pub use geometry::{GridCell, Position};
pub use input::{input_system, PlacementOutcome};
pub use particles::particle_system;
pub use resources::{GameState, SpawnTimer};
pub use spawning::{spawn_plant, spawn_zombie_at_row, spawn_zombies};
pub use timer::{Timer, TimerMode};
