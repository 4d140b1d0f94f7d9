use cavegen::{
    generate, generate_from_samples, random_fill, resolve_pockets, smooth, GenParams,
    GenerationError, Grid, Level, Tile, WorldPoint,
};
use rand::rngs::StdRng;
use rand::{Rng, SeedableRng};

fn percents(rng: &mut StdRng, n: usize) -> Vec<u32> {
    (0..n).map(|_| rng.gen_range(0..100)).collect()
}

fn tile_of(coord: u64, tile_size: u64) -> usize {
    (coord / (2 * tile_size)) as usize
}

fn orth_floors(g: &Grid, x: usize, y: usize) -> usize {
    let mut n = 0;
    if x > 0 && g.get(x - 1, y) == Some(Tile::Floor) {
        n += 1;
    }
    if g.get(x + 1, y) == Some(Tile::Floor) {
        n += 1;
    }
    if y > 0 && g.get(x, y - 1) == Some(Tile::Floor) {
        n += 1;
    }
    if g.get(x, y + 1) == Some(Tile::Floor) {
        n += 1;
    }
    n
}

fn level(seed: u64) -> Level {
    generate(130, 130, 32, GenParams::default(), seed).expect("a 130x130 cave has floor")
}

#[test]
fn default_params() {
    let p = GenParams::default();
    assert_eq!(p.floor_percent, 45);
    assert_eq!(p.smoothing_iterations, 40);
    assert_eq!(p.enemy_percent, 10);
}

#[test]
fn configuration_errors() {
    let p = GenParams::default();
    assert_eq!(generate(0, 10, 32, p, 1), Err(GenerationError::Configuration));
    assert_eq!(generate(10, 0, 32, p, 1), Err(GenerationError::Configuration));
    assert_eq!(generate(10, 10, 0, p, 1), Err(GenerationError::Configuration));
}

#[test]
fn oversized_levels_are_configuration_errors() {
    let p = GenParams::default();
    assert_eq!(generate(usize::MAX, 2, 32, p, 1), Err(GenerationError::Configuration));
    assert_eq!(generate(1 << 40, 1, u32::MAX, p, 1), Err(GenerationError::Configuration));
}

#[test]
fn four_by_four_has_no_floor() {
    assert_eq!(
        generate(4, 4, 32, GenParams::default(), 42),
        Err(GenerationError::NoFloorTile)
    );
    let mut rng = StdRng::seed_from_u64(42);
    let fill = percents(&mut rng, 16);
    let enemy = percents(&mut rng, 16);
    let mut g = Grid::new(4, 4);
    random_fill(&mut g, &fill, 45).unwrap();
    smooth(&mut g, 40);
    let scan = resolve_pockets(&mut g, 32, &enemy, 10);
    for y in 0..4 {
        for x in 0..4 {
            assert_eq!(g.get(x, y), Some(Tile::Wall));
        }
    }
    assert_eq!(scan.colliders.len(), 16);
    assert_eq!(scan.player_spawn, None);
}

#[test]
fn same_seed_same_level() {
    let a = level(7);
    let b = level(7);
    assert_eq!(a, b);
    let c = level(8);
    assert_ne!(a.grid, c.grid);
    assert_ne!(a.spawns.player_spawn, c.spawns.player_spawn);
}

#[test]
fn same_samples_same_level() {
    let mut rng = StdRng::seed_from_u64(3);
    let fill = percents(&mut rng, 400);
    let enemy = percents(&mut rng, 400);
    let p = GenParams::default();
    let a = generate_from_samples(20, 20, 16, p, &fill, &enemy);
    let b = generate_from_samples(20, 20, 16, p, &fill, &enemy);
    assert_eq!(a, b);
}

#[test]
fn generated_border_is_wall() {
    let l = level(7);
    let (w, h) = (l.grid.width(), l.grid.height());
    assert_eq!((w, h), (130, 130));
    for x in 0..w {
        assert_eq!(l.grid.get(x, 0), Some(Tile::Wall));
        assert_eq!(l.grid.get(x, h - 1), Some(Tile::Wall));
    }
    for y in 0..h {
        assert_eq!(l.grid.get(0, y), Some(Tile::Wall));
        assert_eq!(l.grid.get(w - 1, y), Some(Tile::Wall));
    }
}

#[test]
fn surviving_walls_have_at_most_three_floor_sides() {
    let l = level(11);
    for y in 0..l.grid.height() {
        for x in 0..l.grid.width() {
            if l.grid.get(x, y) == Some(Tile::Wall) {
                assert!(orth_floors(&l.grid, x, y) <= 3);
            }
        }
    }
}

#[test]
fn colliders_match_walls() {
    let l = level(7);
    let mut walls = 0;
    for y in 0..l.grid.height() {
        for x in 0..l.grid.width() {
            if l.grid.get(x, y) == Some(Tile::Wall) {
                walls += 1;
            }
        }
    }
    assert_eq!(l.colliders.len(), walls);
    let mut seen = std::collections::HashSet::new();
    for e in &l.colliders {
        let (tx, ty) = (tile_of(e.center.x, 32), tile_of(e.center.y, 32));
        assert_eq!(l.grid.get(tx, ty), Some(Tile::Wall));
        assert_eq!(e.half_extent, 32);
        assert_eq!(e.center, WorldPoint { x: (2 * tx as u64 + 1) * 32, y: (2 * ty as u64 + 1) * 32 });
        assert!(seen.insert((tx, ty)));
    }
}

#[test]
fn spawns_are_on_floor() {
    let l = level(7);
    let p = l.spawns.player_spawn;
    assert_eq!(l.grid.get(tile_of(p.x, 32), tile_of(p.y, 32)), Some(Tile::Floor));
    assert!(!l.spawns.enemy_spawns.is_empty());
    for e in &l.spawns.enemy_spawns {
        assert_eq!(l.grid.get(tile_of(e.x, 32), tile_of(e.y, 32)), Some(Tile::Floor));
    }
}

#[test]
fn player_spawn_is_last_floor_in_scan_order() {
    let l = level(9);
    let p = l.spawns.player_spawn;
    let (px, py) = (tile_of(p.x, 32), tile_of(p.y, 32));
    for y in 0..l.grid.height() {
        for x in 0..l.grid.width() {
            if (y, x) > (py, px) {
                assert_eq!(l.grid.get(x, y), Some(Tile::Wall));
            }
        }
    }
}

#[test]
fn samples_drive_a_small_level() {
    // A 5x5 grid: the interior starts as floor everywhere.
    let fill = vec![0u32; 25];
    let enemy = vec![0u32; 25];
    let p = GenParams { floor_percent: 45, smoothing_iterations: 1, enemy_percent: 10 };
    let l = generate_from_samples(5, 5, 32, p, &fill, &enemy).unwrap();
    // One pass leaves floor on the middle of each side of the interior; the
    // center wall between them is a pocket and becomes floor.
    assert_eq!(l.spawns.player_spawn, WorldPoint { x: 160, y: 224 });
    assert_eq!(l.spawns.enemy_spawns.len(), 4);
    assert_eq!(l.colliders.len(), 20);
    // Two passes leave the center alone as floor.
    let p2 = GenParams { smoothing_iterations: 2, ..p };
    let l2 = generate_from_samples(5, 5, 32, p2, &fill, &enemy).unwrap();
    assert_eq!(l2.spawns.player_spawn, WorldPoint { x: 160, y: 160 });
    assert_eq!(l2.colliders.len(), 24);
    let all_wall = vec![99u32; 25];
    assert_eq!(
        generate_from_samples(5, 5, 32, p, &all_wall, &enemy),
        Err(GenerationError::NoFloorTile)
    );
}
