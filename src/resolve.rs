use vstd::prelude::*;

use crate::grid::{cell, holds, lemma_coords, Grid, Tile};
use crate::index::{center_of, collider_for, tile_center, ColliderEntry, WorldPoint};

verus! {

/// 1 when `(x, y)` is an in-bounds floor, else 0.
pub open spec fn floor_flag(c: Seq<Tile>, w: int, h: int, x: int, y: int) -> int {
    if holds(c, w, h, x, y, Tile::Floor) {
        1
    } else {
        0
    }
}

/// The number of floors among the four orthogonal neighbors of `(x, y)`;
/// a neighbor outside the grid counts as nothing.
pub open spec fn orth_floors(c: Seq<Tile>, w: int, h: int, x: int, y: int) -> int {
    floor_flag(c, w, h, x - 1, y) + floor_flag(c, w, h, x + 1, y) + floor_flag(c, w, h, x, y - 1)
        + floor_flag(c, w, h, x, y + 1)
}

/// A hanging pocket: a wall with floor on all four sides.
pub open spec fn is_pocket(c: Seq<Tile>, w: int, h: int, x: int, y: int) -> bool {
    cell(c, w, x, y) == Tile::Wall && orth_floors(c, w, h, x, y) == 4
}

/// The tile at `(x, y)` after the scan: pockets become floor.
pub open spec fn resolved_tile(c: Seq<Tile>, w: int, h: int, x: int, y: int) -> Tile {
    if is_pocket(c, w, h, x, y) {
        Tile::Floor
    } else {
        cell(c, w, x, y)
    }
}

/// The buffer after the scan, row by row.
pub open spec fn resolved(c: Seq<Tile>, w: int, h: int) -> Seq<Tile> {
    Seq::new(c.len(), |i: int| resolved_tile(c, w, h, i % w, i / w))
}

/// Whether the tile at buffer position `i` stays a wall and gets a collider.
pub open spec fn keeps_wall(c: Seq<Tile>, w: int, h: int, i: int) -> bool {
    c[i] == Tile::Wall && !is_pocket(c, w, h, i % w, i / w)
}

/// The colliders that the scan emits over the first `n` tiles, in scan order.
pub open spec fn colliders_upto(c: Seq<Tile>, w: int, h: int, ts: int, n: nat) -> Seq<
    ColliderEntry,
>
    decreases n,
{
    if n == 0 {
        Seq::empty()
    } else {
        let prev = colliders_upto(c, w, h, ts, (n - 1) as nat);
        let i = n - 1;
        if keeps_wall(c, w, h, i) {
            prev.push(collider_for(ts, i % w, i / w))
        } else {
            prev
        }
    }
}

/// Whether the tile at buffer position `i` is a floor whose sample places an
/// enemy there.
pub open spec fn spawns_enemy(c: Seq<Tile>, samples: Seq<u32>, enemy_percent: u32, i: int) -> bool {
    c[i] == Tile::Floor && samples[i] < enemy_percent
}

/// The enemy spawns over the first `n` tiles, in scan order.
pub open spec fn enemies_upto(
    c: Seq<Tile>,
    w: int,
    ts: int,
    samples: Seq<u32>,
    enemy_percent: u32,
    n: nat,
) -> Seq<WorldPoint>
    decreases n,
{
    if n == 0 {
        Seq::empty()
    } else {
        let prev = enemies_upto(c, w, ts, samples, enemy_percent, (n - 1) as nat);
        let i = n - 1;
        if spawns_enemy(c, samples, enemy_percent, i) {
            prev.push(tile_center(ts, i % w, i / w))
        } else {
            prev
        }
    }
}

/// The position of the last floor among the first `n` tiles.
pub open spec fn last_floor(c: Seq<Tile>, n: nat) -> Option<int>
    decreases n,
{
    if n == 0 {
        None
    } else if c[n - 1] == Tile::Floor {
        Some(n - 1)
    } else {
        last_floor(c, (n - 1) as nat)
    }
}

/// The player spawn: the center of the last floor tile of the scan.
pub open spec fn player_spawn_of(c: Seq<Tile>, w: int, ts: int) -> Option<WorldPoint> {
    match last_floor(c, c.len()) {
        Some(i) => Some(tile_center(ts, i % w, i / w)),
        None => None,
    }
}

/// What the scan emits besides the rewritten grid.
#[derive(Debug)]
pub struct PocketScan {
    /// One collider per wall that survives, in scan order.
    pub colliders: Vec<ColliderEntry>,
    /// The center of the last floor tile, if there is one.
    pub player_spawn: Option<WorldPoint>,
    /// The centers of the floor tiles whose sample placed an enemy, in scan order.
    pub enemy_spawns: Vec<WorldPoint>,
}

fn floor_flag_at(g: &Grid, x: usize, y: usize) -> (r: u32)
    requires
        g.wf(),
    ensures
        r == floor_flag(g.cells(), g.spec_width(), g.spec_height(), x as int, y as int),
{
    match g.get(x, y) {
        Some(Tile::Floor) => 1,
        _ => 0,
    }
}

proof fn lemma_center_fits(x: int, w: int, ts: int)
    requires
        0 <= x < w,
        ts > 0,
        2 * w * ts <= u64::MAX,
    ensures
        (2 * x + 1) * ts <= u64::MAX,
{
    assert((2 * x + 1) * ts <= 2 * w * ts) by (nonlinear_arith)
        requires
            0 <= x < w,
            ts > 0,
    ;
}

/// The final scan, in row-major order: a wall with floor on all four sides
/// becomes floor; every other wall emits one collider; every floor becomes
/// the player-spawn candidate, and places an enemy when its sample (one per
/// cell, row by row) lies below `enemy_percent`.
///
/// A converted tile has floor on all four sides, so no wall has a converted
/// neighbor (`laws::lemma_scan_order_irrelevant`): reading the grid as it
/// stood before the scan, as done here, gives what an in-place scan gives. A
/// tile converted by the scan is not a spawn candidate.
pub fn resolve_pockets(grid: &mut Grid, tile_size: u32, samples: &Vec<u32>, enemy_percent: u32) -> (r:
    PocketScan)
    requires
        old(grid).wf(),
        tile_size > 0,
        samples@.len() == old(grid).cells().len(),
        2 * old(grid).spec_width() * tile_size <= u64::MAX,
        2 * old(grid).spec_height() * tile_size <= u64::MAX,
    ensures
        final(grid).wf(),
        final(grid).spec_width() == old(grid).spec_width(),
        final(grid).spec_height() == old(grid).spec_height(),
        final(grid).cells() == resolved(
            old(grid).cells(),
            old(grid).spec_width(),
            old(grid).spec_height(),
        ),
        r.colliders@ == colliders_upto(
            old(grid).cells(),
            old(grid).spec_width(),
            old(grid).spec_height(),
            tile_size as int,
            old(grid).cells().len(),
        ),
        r.enemy_spawns@ == enemies_upto(
            old(grid).cells(),
            old(grid).spec_width(),
            tile_size as int,
            samples@,
            enemy_percent,
            old(grid).cells().len(),
        ),
        r.player_spawn == player_spawn_of(
            old(grid).cells(),
            old(grid).spec_width(),
            tile_size as int,
        ),
{
    let w = grid.width();
    let h = grid.height();
    let n = grid.cell_count();
    let ghost c = grid.cells();
    let ghost target = resolved(c, w as int, h as int);
    let ts = tile_size;
    assert(n > 0 ==> w > 0) by (nonlinear_arith)
        requires
            n == w * h,
    ;
    let mut tiles: Vec<Tile> = Vec::new();
    let mut colliders: Vec<ColliderEntry> = Vec::new();
    let mut enemies: Vec<WorldPoint> = Vec::new();
    let mut player: Option<WorldPoint> = None;
    let mut i: usize = 0;
    while i < n
        invariant
            grid.wf(),
            c == grid.cells(),
            w == grid.spec_width(),
            h == grid.spec_height(),
            n == c.len(),
            n > 0 ==> w > 0,
            ts == tile_size,
            ts > 0,
            samples@.len() == n,
            2 * w * ts <= u64::MAX,
            2 * h * ts <= u64::MAX,
            i <= n,
            tiles@.len() == i,
            target == resolved(c, w as int, h as int),
            forall|j: int| 0 <= j < i ==> tiles@[j] == target[j],
            colliders@ == colliders_upto(c, w as int, h as int, ts as int, i as nat),
            enemies@ == enemies_upto(c, w as int, ts as int, samples@, enemy_percent, i as nat),
            player == (match last_floor(c, i as nat) {
                Some(j) => Some(tile_center(ts as int, j % (w as int), j / (w as int))),
                None => None::<WorldPoint>,
            }),
        decreases n - i,
    {
        let x = i % w;
        let y = i / w;
        proof {
            lemma_coords(w as int, h as int, i as int);
            lemma_center_fits(x as int, w as int, ts as int);
            lemma_center_fits(y as int, h as int, ts as int);
        }
        let here = match grid.get(x, y) {
            Some(t) => t,
            None => Tile::Wall,
        };
        assert(here == c[i as int]);
        if here == Tile::Floor {
            let center = center_of(ts, x, y);
            player = Some(center);
            if samples[i] < enemy_percent {
                enemies.push(center);
            }
            tiles.push(Tile::Floor);
        } else {
            let west = if x > 0 {
                floor_flag_at(grid, x - 1, y)
            } else {
                0
            };
            let north = if y > 0 {
                floor_flag_at(grid, x, y - 1)
            } else {
                0
            };
            let east = floor_flag_at(grid, x + 1, y);
            let south = floor_flag_at(grid, x, y + 1);
            if west + east + north + south == 4 {
                tiles.push(Tile::Floor);
            } else {
                colliders.push(ColliderEntry { center: center_of(ts, x, y), half_extent: ts as u64 });
                tiles.push(Tile::Wall);
            }
        }
        i = i + 1;
    }
    assert(tiles@ =~= target);
    *grid = Grid::from_cells(w, h, tiles);
    PocketScan { colliders, player_spawn: player, enemy_spawns: enemies }
}

} // verus!
