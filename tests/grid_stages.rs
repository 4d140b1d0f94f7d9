use cavegen::{
    random_fill, resolve_pockets, smooth, smooth_pass, ColliderEntry, GenerationError, Grid,
    OutOfBounds, Tile, WorldPoint,
};

fn grid_from_rows(rows: &[&str]) -> Grid {
    let h = rows.len();
    let w = rows[0].len();
    let mut g = Grid::new(w, h);
    for (y, row) in rows.iter().enumerate() {
        for (x, ch) in row.chars().enumerate() {
            let t = if ch == '#' { Tile::Wall } else { Tile::Floor };
            g.set(x, y, t).unwrap();
        }
    }
    g
}

fn rows_of(g: &Grid) -> Vec<String> {
    let mut out = Vec::new();
    for y in 0..g.height() {
        let mut row = String::new();
        for x in 0..g.width() {
            row.push(if g.get(x, y) == Some(Tile::Wall) { '#' } else { '.' });
        }
        out.push(row);
    }
    out
}

#[test]
fn new_grid_is_all_wall() {
    let g = Grid::new(3, 2);
    assert_eq!(g.width(), 3);
    assert_eq!(g.height(), 2);
    assert_eq!(g.cell_count(), 6);
    for y in 0..2 {
        for x in 0..3 {
            assert_eq!(g.get(x, y), Some(Tile::Wall));
        }
    }
}

#[test]
fn accessors_reject_out_of_bounds() {
    let mut g = Grid::new(3, 2);
    assert_eq!(g.get(3, 0), None);
    assert_eq!(g.get(0, 2), None);
    assert_eq!(g.tile_at(3, 1), Err(OutOfBounds));
    assert_eq!(g.set(0, 5, Tile::Floor), Err(OutOfBounds));
    assert_eq!(rows_of(&g), vec!["###", "###"]);
    assert_eq!(g.set(2, 1, Tile::Floor), Ok(()));
    assert_eq!(g.tile_at(2, 1), Ok(Tile::Floor));
    assert_eq!(rows_of(&g), vec!["###", "##."]);
}

#[test]
fn fill_uses_threshold_and_forces_border() {
    let mut g = Grid::new(4, 3);
    // Interior cells are (1,1) and (2,1), at positions 5 and 6.
    let samples = vec![0, 0, 0, 0, 0, 44, 45, 0, 0, 0, 0, 0];
    assert_eq!(random_fill(&mut g, &samples, 45), Ok(()));
    assert_eq!(rows_of(&g), vec!["####", "#.##", "####"]);
}

#[test]
fn fill_rejects_zero_sized_grid() {
    let mut g = Grid::new(0, 5);
    assert_eq!(random_fill(&mut g, &vec![], 45), Err(GenerationError::Configuration));
    assert_eq!(g.cell_count(), 0);
}

#[test]
fn smoothing_pass_reads_previous_pass_only() {
    let g = grid_from_rows(&["#####", "#...#", "#...#", "#...#", "#####"]);
    let next = smooth_pass(&g);
    // Interior corners see five border walls; the middle of each side sees
    // three; the center sees none and collapses to wall.
    assert_eq!(rows_of(&next), vec!["#####", "##.##", "#.#.#", "##.##", "#####"]);
}

#[test]
fn smoothing_runs_the_given_number_of_passes() {
    let mut g = grid_from_rows(&["#####", "#...#", "#...#", "#...#", "#####"]);
    smooth(&mut g, 0);
    assert_eq!(rows_of(&g), vec!["#####", "#...#", "#...#", "#...#", "#####"]);
    smooth(&mut g, 2);
    // Second pass: the side cells now see six walls; the center sees four.
    assert_eq!(rows_of(&g), vec!["#####", "#####", "##.##", "#####", "#####"]);
}

#[test]
fn smoothing_leaves_border_alone() {
    let mut g = grid_from_rows(&["#.#", "...", "#.#"]);
    smooth(&mut g, 3);
    assert_eq!(rows_of(&g), vec!["#.#", "...", "#.#"]);
}

#[test]
fn resolver_removes_pocket_and_emits_indices() {
    let mut g = grid_from_rows(&["#####", "#...#", "#.#.#", "#...#", "#####"]);
    let samples = vec![0u32; 25];
    let scan = resolve_pockets(&mut g, 32, &samples, 10);
    assert_eq!(rows_of(&g), vec!["#####", "#...#", "#...#", "#...#", "#####"]);
    // Sixteen border walls survive, in scan order.
    assert_eq!(scan.colliders.len(), 16);
    assert_eq!(
        scan.colliders[0],
        ColliderEntry { center: WorldPoint { x: 32, y: 32 }, half_extent: 32 }
    );
    assert_eq!(
        scan.colliders[5],
        ColliderEntry { center: WorldPoint { x: 32, y: 96 }, half_extent: 32 }
    );
    // The last floor of the scan is (3, 3); its center is 3 * 32 + 16 world
    // units, 224 half units.
    assert_eq!(scan.player_spawn, Some(WorldPoint { x: 224, y: 224 }));
    // Eight floors were floor before the scan; the converted pocket is not a
    // spawn candidate.
    assert_eq!(scan.enemy_spawns.len(), 8);
    assert_eq!(scan.enemy_spawns[0], WorldPoint { x: 96, y: 96 });
    assert!(!scan.enemy_spawns.contains(&WorldPoint { x: 160, y: 160 }));
}

#[test]
fn resolver_enemy_samples_follow_threshold() {
    let mut g = grid_from_rows(&["####", "#..#", "####"]);
    let mut samples = vec![99u32; 12];
    samples[5] = 9;
    samples[6] = 10;
    let scan = resolve_pockets(&mut g, 10, &samples, 10);
    assert_eq!(scan.enemy_spawns, vec![WorldPoint { x: 30, y: 30 }]);
    assert_eq!(scan.player_spawn, Some(WorldPoint { x: 50, y: 30 }));
    assert_eq!(scan.colliders.len(), 10);
}

#[test]
fn resolver_keeps_wall_with_three_floor_sides() {
    let mut g = grid_from_rows(&["#####", "#...#", "#.#.#", "#.###", "#####"]);
    let scan = resolve_pockets(&mut g, 2, &vec![50u32; 25], 10);
    assert_eq!(g.get(2, 2), Some(Tile::Wall));
    assert_eq!(scan.colliders.len(), 19);
    assert!(scan.colliders.contains(&ColliderEntry { center: WorldPoint { x: 10, y: 10 }, half_extent: 2 }));
    assert!(scan.enemy_spawns.is_empty());
}

#[test]
fn resolver_reports_no_floor() {
    let mut g = Grid::new(3, 3);
    let scan = resolve_pockets(&mut g, 32, &vec![0u32; 9], 10);
    assert_eq!(scan.player_spawn, None);
    assert_eq!(scan.colliders.len(), 9);
    assert!(scan.enemy_spawns.is_empty());
}

#[test]
fn odd_tile_size_centers_stay_exact() {
    let mut g = grid_from_rows(&["###", "#.#", "###"]);
    let scan = resolve_pockets(&mut g, 5, &vec![0u32; 9], 10);
    // Tile (1, 1) of side 5 has its center at 7.5 world units: 15 half units.
    assert_eq!(scan.player_spawn, Some(WorldPoint { x: 15, y: 15 }));
    assert_eq!(scan.colliders[0].center, WorldPoint { x: 5, y: 5 });
    assert_eq!(scan.colliders[0].half_extent, 5);
}
