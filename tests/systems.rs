use lawn_defense::constants::{
    BULLET_OFFSET_X, BULLET_OFFSET_Y, ESCAPE_X, FIELD_RIGHT, GRID_BOTTOM, GRID_LEFT,
    GRID_ORIGIN_X, GRID_ORIGIN_Y, PARTICLE_SPEED, ROWS, TILE_SIZE, ZOMBIE_SPAWN_X,
};
use lawn_defense::geometry::world_to_cell;
use lawn_defense::{
    collision_system, explosion_damage_system, input_system, move_bullets, move_zombies,
    particle_system, plant_action, run_frame, spawn_zombie_at_row, spawn_zombies,
    zombie_eat_system, Bullet, Explosion, Game, GameState, GridCell, PlacementOutcome, PlantType,
    Position, Timer, TimerMode, Tool, ZombieState,
};

fn center(col: i64, row: i64) -> (i64, i64) {
    (GRID_ORIGIN_X + col * TILE_SIZE, GRID_ORIGIN_Y + row * TILE_SIZE)
}

fn place(g: &mut Game, kind: PlantType, col: i64, row: i64) -> PlacementOutcome {
    g.state.selected_tool = Tool::Plant(kind);
    let (x, y) = center(col, row);
    input_system(g, x, y)
}

#[test]
fn once_timer_stops_at_its_duration() {
    let mut t = Timer::new(1000, TimerMode::Once);
    t.tick(400);
    assert_eq!((t.elapsed_ms, t.finished), (400, false));
    t.tick(700);
    assert_eq!((t.elapsed_ms, t.finished), (1000, true));
    t.tick(5);
    assert_eq!((t.elapsed_ms, t.finished), (1000, true));
}

#[test]
fn repeating_timer_wraps() {
    let mut t = Timer::new(1500, TimerMode::Repeating);
    t.tick(1600);
    assert_eq!((t.elapsed_ms, t.finished), (100, true));
    t.tick(100);
    assert_eq!((t.elapsed_ms, t.finished), (200, false));
    t.tick(1300);
    assert_eq!((t.elapsed_ms, t.finished), (0, true));
}

#[test]
fn grid_mapping_edges() {
    assert_eq!(world_to_cell(GRID_LEFT, GRID_BOTTOM), Some(GridCell { x: 0, y: 0 }));
    assert_eq!(world_to_cell(GRID_LEFT - 1, GRID_BOTTOM), None);
    assert_eq!(world_to_cell(GRID_LEFT, GRID_BOTTOM - 1), None);
    assert_eq!(world_to_cell(GRID_LEFT + 9 * TILE_SIZE - 1, GRID_BOTTOM + 5 * TILE_SIZE - 1), Some(GridCell { x: 8, y: 4 }));
    assert_eq!(world_to_cell(GRID_LEFT + 9 * TILE_SIZE, GRID_BOTTOM), None);
    assert_eq!(world_to_cell(GRID_LEFT, GRID_BOTTOM + 5 * TILE_SIZE), None);
    assert_eq!(world_to_cell(-130_000, 0), Some(GridCell { x: 3, y: 2 }));
    assert_eq!(world_to_cell(i64::MAX, i64::MIN), None);
}

#[test]
fn default_state() {
    let s = GameState::default();
    assert_eq!(s.sun, 150);
    assert_eq!(s.selected_tool, Tool::Plant(PlantType::Peashooter));
}

#[test]
fn placing_on_occupied_cell_is_rejected() {
    let mut g = Game::new();
    assert_eq!(place(&mut g, PlantType::PotatoMine, 4, 4), PlacementOutcome::Placed);
    assert_eq!(g.state.sun, 125);
    for kind in [PlantType::Peashooter, PlantType::Sunflower, PlantType::WallNut, PlantType::PotatoMine] {
        assert_eq!(place(&mut g, kind, 4, 4), PlacementOutcome::RejectedOccupied);
        assert_eq!(g.state.sun, 125);
        assert_eq!(g.plants.len(), 1);
    }
}

#[test]
fn placing_without_funds_is_rejected() {
    let mut g = Game::new();
    g.state.sun = 99;
    assert_eq!(place(&mut g, PlantType::Peashooter, 0, 0), PlacementOutcome::RejectedUnaffordable);
    assert_eq!(g.state.sun, 99);
    assert!(g.plants.is_empty());
    assert_eq!(place(&mut g, PlantType::WallNut, 0, 0), PlacementOutcome::Placed);
    assert_eq!(g.state.sun, 49);
}

#[test]
fn placement_takes_the_cost_and_fills_the_cell() {
    let mut g = Game::new();
    assert_eq!(place(&mut g, PlantType::Sunflower, 2, 3), PlacementOutcome::Placed);
    assert_eq!(g.state.sun, 100);
    assert_eq!(g.plants.len(), 1);
    let p = g.plants[0];
    assert_eq!(p.cell, GridCell { x: 2, y: 3 });
    assert_eq!(p.pos, Position { x: -210_000, y: 80_000 });
    assert_eq!(p.health, 100_000);
    assert_eq!(p.timer, Timer { duration_ms: 5000, elapsed_ms: 0, mode: TimerMode::Repeating, finished: false });
    assert!(!p.armed);
}

#[test]
fn click_off_the_grid_changes_nothing() {
    let mut g = Game::new();
    assert_eq!(input_system(&mut g, 400_000, 0), PlacementOutcome::RejectedOutOfBounds);
    assert_eq!(g.state.sun, 150);
    assert!(g.plants.is_empty());
}

#[test]
fn one_defender_per_cell_whatever_the_clicks() {
    let mut g = Game::new();
    g.state.sun = 10_000;
    for kind in [PlantType::WallNut, PlantType::Peashooter, PlantType::PotatoMine] {
        for col in 0..3 {
            place(&mut g, kind, col, 1);
            // a click anywhere inside the cell hits the same cell
            g.state.selected_tool = Tool::Plant(kind);
            let (x, y) = center(col, 1);
            input_system(&mut g, x + 39_000, y - 39_000);
        }
    }
    assert_eq!(g.plants.len(), 3);
    for i in 0..g.plants.len() {
        for j in 0..g.plants.len() {
            if i != j {
                assert_ne!(g.plants[i].cell, g.plants[j].cell);
            }
        }
    }
}

#[test]
fn shovel_removes_and_ignores_empty_cells() {
    let mut g = Game::new();
    place(&mut g, PlantType::WallNut, 5, 0);
    g.state.selected_tool = Tool::Shovel;
    let (x, y) = center(5, 0);
    assert_eq!(input_system(&mut g, x, y), PlacementOutcome::Removed);
    assert!(g.plants.is_empty());
    assert_eq!(g.state.sun, 100);
    assert_eq!(input_system(&mut g, x, y), PlacementOutcome::NoOp);
}

#[test]
fn mine_arms_once_at_completion() {
    let mut g = Game::new();
    place(&mut g, PlantType::PotatoMine, 0, 0);
    plant_action(&mut g, 1999);
    assert!(!g.plants[0].armed);
    plant_action(&mut g, 1);
    assert!(g.plants[0].armed);
    for _ in 0..10 {
        plant_action(&mut g, 700);
        assert!(g.plants[0].armed);
    }
}

#[test]
fn sunflower_pays_each_cycle() {
    let mut g = Game::new();
    place(&mut g, PlantType::Sunflower, 0, 0);
    assert_eq!(g.state.sun, 100);
    plant_action(&mut g, 4999);
    assert_eq!(g.state.sun, 100);
    plant_action(&mut g, 1);
    assert_eq!(g.state.sun, 125);
    plant_action(&mut g, 5000);
    assert_eq!(g.state.sun, 150);
}

#[test]
fn sun_saturates() {
    let mut g = Game::new();
    place(&mut g, PlantType::Sunflower, 0, 0);
    g.state.sun = u32::MAX - 10;
    plant_action(&mut g, 5000);
    assert_eq!(g.state.sun, u32::MAX);
}

#[test]
fn peashooter_fires_from_its_muzzle() {
    let mut g = Game::new();
    place(&mut g, PlantType::Peashooter, 1, 4);
    plant_action(&mut g, 1499);
    assert!(g.bullets.is_empty());
    plant_action(&mut g, 1);
    let (x, y) = center(1, 4);
    assert_eq!(g.bullets.len(), 1);
    assert_eq!(g.bullets[0].pos, Position { x: x + BULLET_OFFSET_X, y: y + BULLET_OFFSET_Y });
}

#[test]
fn bullets_move_and_leave_the_field() {
    let mut g = Game::new();
    g.bullets.push(Bullet { pos: Position { x: 0, y: 0 } });
    g.bullets.push(Bullet { pos: Position { x: FIELD_RIGHT - 1000, y: 0 } });
    move_bullets(&mut g, 10);
    assert_eq!(g.bullets.len(), 1);
    assert_eq!(g.bullets[0].pos, Position { x: 2000, y: 0 });
}

#[test]
fn walking_adversaries_move_eating_ones_stay() {
    let mut g = Game::new();
    spawn_zombie_at_row(&mut g, 0);
    spawn_zombie_at_row(&mut g, 1);
    g.zombies[1].state = ZombieState::Eating(77);
    move_zombies(&mut g, 1000);
    assert_eq!(g.zombies[0].pos.x, ZOMBIE_SPAWN_X - 20_000);
    assert_eq!(g.zombies[1].pos.x, ZOMBIE_SPAWN_X);
    g.zombies[0].pos.x = ESCAPE_X;
    move_zombies(&mut g, 1);
    assert_eq!(g.zombies.len(), 1);
}

#[test]
fn bullet_hits_the_first_adversary_once() {
    let mut g = Game::new();
    spawn_zombie_at_row(&mut g, 0);
    spawn_zombie_at_row(&mut g, 0);
    let z = g.zombies[0].pos;
    g.bullets.push(Bullet { pos: Position { x: z.x - 10_000, y: z.y + 20_000 } });
    g.bullets.push(Bullet { pos: Position { x: 0, y: 300_000 } });
    collision_system(&mut g);
    assert_eq!(g.zombies[0].health, 90_000);
    assert_eq!(g.zombies[1].health, 100_000);
    assert_eq!(g.bullets.len(), 1);
    assert_eq!(g.bullets[0].pos, Position { x: 0, y: 300_000 });
}

#[test]
fn tenth_hit_destroys() {
    let mut g = Game::new();
    spawn_zombie_at_row(&mut g, 3);
    let z = g.zombies[0].pos;
    for _ in 0..10 {
        g.bullets.push(Bullet { pos: z });
    }
    collision_system(&mut g);
    assert!(g.zombies.is_empty());
    assert!(g.bullets.is_empty());
}

#[test]
fn explosion_damages_within_radius_only() {
    let mut g = Game::new();
    spawn_zombie_at_row(&mut g, 2);
    spawn_zombie_at_row(&mut g, 2);
    g.zombies[0].pos = Position { x: 120_000, y: 0 };
    g.zombies[1].pos = Position { x: 120_001, y: 0 };
    g.explosions.push(Explosion {
        timer: Timer::new(500, TimerMode::Once),
        radius: 120_000,
        damage: 1000,
        pos: Position { x: 0, y: 0 },
    });
    explosion_damage_system(&mut g, 30);
    assert_eq!(g.zombies[0].health, 70_000);
    assert_eq!(g.zombies[1].health, 100_000);
    assert_eq!(g.explosions[0].timer.elapsed_ms, 30);
    explosion_damage_system(&mut g, 470);
    assert_eq!(g.zombies.len(), 1);
    assert_eq!(g.zombies[0].pos.x, 120_001);
    assert!(g.explosions.is_empty());
}

#[test]
fn eating_damages_and_releases() {
    let mut g = Game::new();
    place(&mut g, PlantType::PotatoMine, 8, 0);
    spawn_zombie_at_row(&mut g, 0);
    let (x, y) = center(8, 0);
    g.zombies[0].pos = Position { x: x + 39_000, y };
    zombie_eat_system(&mut g, 10);
    let mine_id = g.plants[0].id;
    assert_eq!(g.zombies[0].state, ZombieState::Eating(mine_id));
    assert_eq!(g.plants[0].health, 50_000);
    zombie_eat_system(&mut g, 1000);
    assert_eq!(g.plants[0].health, 30_000);
    zombie_eat_system(&mut g, 1500);
    assert!(g.plants.is_empty());
    assert_eq!(g.zombies[0].state, ZombieState::Walking);
    assert!(g.explosions.is_empty());
}

#[test]
fn eating_adversary_walks_again_once_its_target_is_gone() {
    let mut g = Game::new();
    place(&mut g, PlantType::WallNut, 6, 3);
    spawn_zombie_at_row(&mut g, 3);
    let (x, y) = center(6, 3);
    g.zombies[0].pos = Position { x: x + 20_000, y };
    zombie_eat_system(&mut g, 10);
    assert!(matches!(g.zombies[0].state, ZombieState::Eating(_)));
    g.state.selected_tool = Tool::Shovel;
    assert_eq!(input_system(&mut g, x, y), PlacementOutcome::Removed);
    zombie_eat_system(&mut g, 10);
    assert_eq!(g.zombies[0].state, ZombieState::Walking);
}

#[test]
fn mine_armed_while_eaten_explodes() {
    let mut g = Game::new();
    place(&mut g, PlantType::PotatoMine, 4, 1);
    spawn_zombie_at_row(&mut g, 1);
    let (x, y) = center(4, 1);
    g.zombies[0].pos = Position { x: x + 10_000, y };
    zombie_eat_system(&mut g, 100);
    assert!(matches!(g.zombies[0].state, ZombieState::Eating(_)));
    plant_action(&mut g, 2000);
    zombie_eat_system(&mut g, 100);
    assert!(g.plants.is_empty());
    assert_eq!(g.zombies[0].state, ZombieState::Walking);
    assert_eq!(g.explosions.len(), 1);
    assert_eq!(g.explosions[0].pos, Position { x, y });
    assert_eq!(g.particles.len(), 12);
    for p in g.particles.iter() {
        assert!(-PARTICLE_SPEED <= p.vx && p.vx < PARTICLE_SPEED);
        assert!(-PARTICLE_SPEED <= p.vy && p.vy < PARTICLE_SPEED);
        assert_eq!(p.origin, Position { x, y });
    }
    let first = (g.particles[0].vx, g.particles[0].vy);
    assert!(g.particles.iter().any(|p| (p.vx, p.vy) != first));
}

#[test]
fn particles_expire() {
    let mut g = Game::new();
    place(&mut g, PlantType::PotatoMine, 4, 1);
    plant_action(&mut g, 2000);
    spawn_zombie_at_row(&mut g, 1);
    let (x, y) = center(4, 1);
    g.zombies[0].pos = Position { x, y };
    zombie_eat_system(&mut g, 1);
    assert_eq!(g.particles.len(), 12);
    particle_system(&mut g, 500);
    assert_eq!(g.particles.len(), 12);
    let p = g.particles[0];
    assert_eq!(p.position(), Position { x: x + p.vx * 500, y: y + p.vy * 500 });
    particle_system(&mut g, 300);
    assert!(g.particles.is_empty());
}

#[test]
fn arrivals_follow_the_spawn_timer() {
    let mut g = Game::new();
    spawn_zombies(&mut g, 9999);
    assert!(g.zombies.is_empty());
    spawn_zombies(&mut g, 1);
    assert_eq!(g.zombies.len(), 1);
    let z = g.zombies[0];
    assert_eq!(z.pos.x, ZOMBIE_SPAWN_X);
    assert!((0..ROWS as i64).any(|row| z.pos.y == GRID_ORIGIN_Y + row * TILE_SIZE));
    assert_eq!(z.health, 100_000);
    assert_eq!(z.state, ZombieState::Walking);
    for _ in 0..50 {
        spawn_zombies(&mut g, 10_000);
    }
    assert_eq!(g.zombies.len(), 51);
    let first_row = g.zombies[0].pos.y;
    assert!(g.zombies.iter().any(|z| z.pos.y != first_row));
}

#[test]
fn health_never_rises_over_frames() {
    let mut g = Game::new();
    g.state.sun = 1000;
    place(&mut g, PlantType::WallNut, 2, 0);
    place(&mut g, PlantType::Peashooter, 0, 0);
    place(&mut g, PlantType::PotatoMine, 4, 1);
    spawn_zombie_at_row(&mut g, 0);
    spawn_zombie_at_row(&mut g, 1);
    for _ in 0..600 {
        let before_z: Vec<(u64, i64)> = g.zombies.iter().map(|z| (z.id, z.health)).collect();
        let before_p: Vec<(u64, i64)> = g.plants.iter().map(|p| (p.id, p.health)).collect();
        run_frame(&mut g, 50);
        for z in g.zombies.iter() {
            if let Some(&(_, h)) = before_z.iter().find(|(id, _)| *id == z.id) {
                assert!(z.health <= h);
            }
        }
        for p in g.plants.iter() {
            if let Some(&(_, h)) = before_p.iter().find(|(id, _)| *id == p.id) {
                assert!(p.health <= h);
            }
        }
    }
}
