use lawn_defense::constants::{
    EXPLOSION_DPS, EXPLOSION_RADIUS, GRID_ORIGIN_X, GRID_ORIGIN_Y, STARTING_SUN, TILE_SIZE,
};
use lawn_defense::{
    input_system, run_frame, spawn_zombie_at_row, Game, PlacementOutcome, PlantType, Position,
    Tool,
};

fn center(col: i64, row: i64) -> (i64, i64) {
    (GRID_ORIGIN_X + col * TILE_SIZE, GRID_ORIGIN_Y + row * TILE_SIZE)
}

fn place(g: &mut Game, kind: PlantType, col: i64, row: i64) -> PlacementOutcome {
    g.state.selected_tool = Tool::Plant(kind);
    let (x, y) = center(col, row);
    input_system(g, x, y)
}

fn has_zombie(g: &Game, id: u64) -> bool {
    g.zombies.iter().any(|z| z.id == id)
}

#[test]
fn shooter_stops_adversary_in_its_row() {
    let mut g = Game::new();
    spawn_zombie_at_row(&mut g, 2);
    let zombie_id = g.zombies[0].id;
    assert_eq!(place(&mut g, PlantType::Peashooter, 0, 2), PlacementOutcome::Placed);
    let shooter_id = g.plants[0].id;
    let mut frames = 0;
    while has_zombie(&g, zombie_id) {
        run_frame(&mut g, 100);
        frames += 1;
        assert!(frames < 400, "the adversary was never stopped");
    }
    let shooter = g.plants.iter().find(|p| p.id == shooter_id).expect("shooter survives");
    assert_eq!(shooter.health, 100_000);
}

#[test]
fn armed_mine_detonates_on_contact() {
    let mut g = Game::new();
    assert_eq!(place(&mut g, PlantType::PotatoMine, 3, 2), PlacementOutcome::Placed);
    let mine_id = g.plants[0].id;
    for _ in 0..21 {
        run_frame(&mut g, 100);
    }
    assert!(g.plants[0].armed);
    spawn_zombie_at_row(&mut g, 2);
    let zombie_id = g.zombies.last().unwrap().id;
    let (mx, my) = center(3, 2);
    let mut frames = 0;
    while g.explosions.is_empty() {
        run_frame(&mut g, 100);
        frames += 1;
        assert!(frames < 400, "the mine never went off");
        if g.explosions.is_empty() {
            assert!(has_zombie(&g, zombie_id));
        }
    }
    assert!(g.plants.iter().all(|p| p.id != mine_id));
    let e = g.explosions[0];
    assert_eq!(e.pos, Position { x: mx, y: my });
    assert_eq!(e.radius, EXPLOSION_RADIUS);
    assert_eq!(e.damage, EXPLOSION_DPS);
    assert_eq!(g.particles.len(), 12);
    for _ in 0..5 {
        if !has_zombie(&g, zombie_id) {
            break;
        }
        run_frame(&mut g, 100);
    }
    assert!(!has_zombie(&g, zombie_id));
    for _ in 0..5 {
        run_frame(&mut g, 100);
    }
    assert!(g.explosions.is_empty());
}

#[test]
fn explosion_destroys_every_adversary_in_radius() {
    let mut g = Game::new();
    assert_eq!(place(&mut g, PlantType::PotatoMine, 3, 2), PlacementOutcome::Placed);
    for _ in 0..21 {
        run_frame(&mut g, 100);
    }
    spawn_zombie_at_row(&mut g, 2);
    spawn_zombie_at_row(&mut g, 1);
    let (first, second) = (g.zombies[0].id, g.zombies[1].id);
    let (mx, my) = center(3, 2);
    // the first touches the mine, the second stands one row down within the blast radius
    g.zombies[0].pos = Position { x: mx + 30_000, y: my };
    g.zombies[1].pos = Position { x: mx + 60_000, y: my - TILE_SIZE };
    run_frame(&mut g, 100);
    assert!(!has_zombie(&g, first));
    assert!(!has_zombie(&g, second));
    assert!(g.plants.is_empty());
}

#[test]
fn starting_sun_buys_shooter_and_producer_exactly() {
    let mut g = Game::new();
    assert_eq!(g.state.sun, STARTING_SUN);
    assert_eq!(place(&mut g, PlantType::Peashooter, 0, 0), PlacementOutcome::Placed);
    assert_eq!(g.state.sun, 50);
    assert_eq!(place(&mut g, PlantType::Sunflower, 0, 1), PlacementOutcome::Placed);
    assert_eq!(g.state.sun, 0);
    for kind in [PlantType::Peashooter, PlantType::Sunflower, PlantType::WallNut, PlantType::PotatoMine] {
        assert_eq!(place(&mut g, kind, 1, 1), PlacementOutcome::RejectedUnaffordable);
        assert_eq!(g.state.sun, 0);
        assert_eq!(g.plants.len(), 2);
    }
}

#[test]
fn unopposed_adversary_escapes_without_damage() {
    let mut g = Game::new();
    spawn_zombie_at_row(&mut g, 0);
    let zombie_id = g.zombies[0].id;
    let mut frames = 0;
    while has_zombie(&g, zombie_id) {
        let z = g.zombies.iter().find(|z| z.id == zombie_id).unwrap();
        assert_eq!(z.health, 100_000);
        run_frame(&mut g, 100);
        assert!(g.explosions.is_empty());
        frames += 1;
        assert!(frames < 1000, "the adversary never left");
    }
    // 900 pixels at 20 pixels per second
    assert_eq!(frames, 451);
    assert!(g.plants.is_empty());
    assert_eq!(g.state.sun, STARTING_SUN);
}
