use vstd::prelude::*;

use crate::error::GenerationError;
use crate::fill::filled;
use crate::grid::{cell, count_tiles, in_bounds, lemma_coords, lemma_index, on_border, Tile};
use crate::index::{collider_for, tile_center, tile_of, ColliderEntry, WorldPoint};
use crate::level::{
    is_generated_level, is_generation_result, seeded_enemy, seeded_fill, smoothed_cells, GenParams,
    Level,
};
use crate::resolve::{
    colliders_upto, enemies_upto, keeps_wall, last_floor, orth_floors, resolved, resolved_tile,
    spawns_enemy,
};
use crate::smooth::{smooth_step, smoothed, smoothed_tile};

verus! {

proof fn lemma_step_cell(c: Seq<Tile>, w: int, h: int, x: int, y: int)
    requires
        c.len() == w * h,
        in_bounds(w, h, x, y),
    ensures
        smooth_step(c, w, h).len() == c.len(),
        cell(smooth_step(c, w, h), w, x, y) == smoothed_tile(c, w, h, x, y),
{
    lemma_index(w, h, x, y);
}

proof fn lemma_resolved_cell(c: Seq<Tile>, w: int, h: int, x: int, y: int)
    requires
        c.len() == w * h,
        in_bounds(w, h, x, y),
    ensures
        resolved(c, w, h).len() == c.len(),
        cell(resolved(c, w, h), w, x, y) == resolved_tile(c, w, h, x, y),
{
    lemma_index(w, h, x, y);
}

/// Passes of the automaton keep the length and never change the outer ring.
proof fn lemma_smoothed_keeps_border(c: Seq<Tile>, w: int, h: int, n: nat, x: int, y: int)
    requires
        c.len() == w * h,
        in_bounds(w, h, x, y),
        on_border(w, h, x, y),
    ensures
        smoothed(c, w, h, n).len() == c.len(),
        cell(smoothed(c, w, h, n), w, x, y) == cell(c, w, x, y),
    decreases n,
{
    if n > 0 {
        lemma_smoothed_keeps_border(c, w, h, (n - 1) as nat, x, y);
        lemma_step_cell(smoothed(c, w, h, (n - 1) as nat), w, h, x, y);
    }
}

proof fn lemma_smoothed_len(w: int, h: int, p: GenParams, fill: Seq<u32>)
    requires
        w >= 0,
        h >= 0,
    ensures
        smoothed_cells(w, h, p, fill).len() == w * h,
    decreases p.smoothing_iterations,
{
    assert(w * h >= 0) by (nonlinear_arith)
        requires
            w >= 0,
            h >= 0,
    ;
    lemma_smoothed_len_n(filled(fill, w, h, p.floor_percent), w, h, p.smoothing_iterations as nat);
}

proof fn lemma_smoothed_len_n(c: Seq<Tile>, w: int, h: int, n: nat)
    ensures
        smoothed(c, w, h, n).len() == c.len(),
    decreases n,
{
    if n > 0 {
        lemma_smoothed_len_n(c, w, h, (n - 1) as nat);
    }
}

/// Every tile on the outer ring of a generated grid is a wall.
pub proof fn lemma_border_is_wall(
    l: Level,
    w: int,
    h: int,
    ts: int,
    p: GenParams,
    fill: Seq<u32>,
    enemy: Seq<u32>,
    x: int,
    y: int,
)
    requires
        is_generated_level(l, w, h, ts, p, fill, enemy),
        in_bounds(w, h, x, y),
        on_border(w, h, x, y),
    ensures
        l.grid.spec_tile(x, y) == Tile::Wall,
{
    let c0 = filled(fill, w, h, p.floor_percent);
    let s = smoothed_cells(w, h, p, fill);
    lemma_index(w, h, x, y);
    assert(c0.len() == w * h);
    assert(cell(c0, w, x, y) == Tile::Wall);
    lemma_smoothed_keeps_border(c0, w, h, p.smoothing_iterations as nat, x, y);
    lemma_resolved_cell(s, w, h, x, y);
}

/// A wall has no converted neighbor: a converted tile has floor on all four
/// sides. So every wall sees the same floor neighbors before and after the
/// scan, and a scan that rewrites the grid in place, reading the tiles it
/// has already converted, counts what a scan of the untouched grid counts.
pub proof fn lemma_scan_order_irrelevant(c: Seq<Tile>, w: int, h: int, x: int, y: int)
    requires
        c.len() == w * h,
        in_bounds(w, h, x, y),
        cell(c, w, x, y) == Tile::Wall,
    ensures
        orth_floors(resolved(c, w, h), w, h, x, y) == orth_floors(c, w, h, x, y),
{
    if in_bounds(w, h, x - 1, y) {
        lemma_resolved_cell(c, w, h, x - 1, y);
    }
    if in_bounds(w, h, x + 1, y) {
        lemma_resolved_cell(c, w, h, x + 1, y);
    }
    if in_bounds(w, h, x, y - 1) {
        lemma_resolved_cell(c, w, h, x, y - 1);
    }
    if in_bounds(w, h, x, y + 1) {
        lemma_resolved_cell(c, w, h, x, y + 1);
    }
}

/// A wall that survives the scan was no pocket, so at most three of its
/// neighbors are floor, before the scan and after it.
proof fn lemma_resolved_wall_exposure(c: Seq<Tile>, w: int, h: int, x: int, y: int)
    requires
        c.len() == w * h,
        in_bounds(w, h, x, y),
        cell(resolved(c, w, h), w, x, y) == Tile::Wall,
    ensures
        orth_floors(resolved(c, w, h), w, h, x, y) <= 3,
{
    lemma_resolved_cell(c, w, h, x, y);
    lemma_scan_order_irrelevant(c, w, h, x, y);
}

/// After the scan, every wall of a generated grid has at most three
/// orthogonal floor neighbors.
pub proof fn lemma_surviving_wall_is_exposed(
    l: Level,
    w: int,
    h: int,
    ts: int,
    p: GenParams,
    fill: Seq<u32>,
    enemy: Seq<u32>,
    x: int,
    y: int,
)
    requires
        is_generated_level(l, w, h, ts, p, fill, enemy),
        in_bounds(w, h, x, y),
        l.grid.spec_tile(x, y) == Tile::Wall,
    ensures
        orth_floors(l.grid.cells(), w, h, x, y) <= 3,
{
    lemma_smoothed_len(w, h, p, fill);
    lemma_resolved_wall_exposure(smoothed_cells(w, h, p, fill), w, h, x, y);
}

/// Inverse scaling gives back the tile of a center coordinate.
proof fn lemma_tile_of_center(ts: int, x: int, w: int)
    requires
        0 <= x < w,
        ts > 0,
        2 * w * ts <= u64::MAX,
    ensures
        0 <= (2 * x + 1) * ts <= u64::MAX,
        tile_of(((2 * x + 1) * ts) as u64 as int, ts) == x,
{
    assert(0 <= (2 * x + 1) * ts <= 2 * w * ts) by (nonlinear_arith)
        requires
            0 <= x < w,
            ts > 0,
    ;
    assert((2 * x + 1) * ts == x * (2 * ts) + ts) by (nonlinear_arith);
    vstd::arithmetic::div_mod::lemma_fundamental_div_mod_converse(
        (2 * x + 1) * ts,
        2 * ts,
        x,
        ts,
    );
}

/// The tile of buffer position `i` is in bounds, and inverse scaling of its
/// collider gives it back.
proof fn lemma_collider_tile(w: int, h: int, ts: int, i: int)
    requires
        0 <= i < w * h,
        w > 0,
        ts > 0,
        2 * w * ts <= u64::MAX,
        2 * h * ts <= u64::MAX,
    ensures
        in_bounds(w, h, i % w, i / w),
        tile_of(collider_for(ts, i % w, i / w).center.x as int, ts) == i % w,
        tile_of(collider_for(ts, i % w, i / w).center.y as int, ts) == i / w,
        tile_of(tile_center(ts, i % w, i / w).x as int, ts) == i % w,
        tile_of(tile_center(ts, i % w, i / w).y as int, ts) == i / w,
{
    lemma_coords(w, h, i);
    lemma_tile_of_center(ts, i % w, w);
    lemma_tile_of_center(ts, i / w, h);
}

/// Two buffer positions with the same coordinates are the same position.
proof fn lemma_coords_injective(w: int, h: int, i: int, j: int)
    requires
        0 <= i < w * h,
        0 <= j < w * h,
        w > 0,
        i % w == j % w,
        i / w == j / w,
    ensures
        i == j,
{
    lemma_coords(w, h, i);
    lemma_coords(w, h, j);
}

/// `e` is the collider of a wall that the scan keeps among the first `n` tiles.
spec fn from_kept_wall(c: Seq<Tile>, w: int, h: int, ts: int, n: nat, e: ColliderEntry) -> bool {
    exists|i: int| 0 <= i < n && keeps_wall(c, w, h, i) && e == collider_for(ts, i % w, i / w)
}

/// The colliders over the first `n` tiles: one per wall that the scan keeps
/// among those tiles, each from the tile it names, no two alike.
proof fn lemma_colliders_upto(c: Seq<Tile>, w: int, h: int, ts: int, n: nat)
    requires
        c.len() == w * h,
        n <= c.len(),
        w > 0,
        ts > 0,
        2 * w * ts <= u64::MAX,
        2 * h * ts <= u64::MAX,
    ensures
        colliders_upto(c, w, h, ts, n).len() == count_tiles(resolved(c, w, h).take(n as int), Tile::Wall),
        forall|k: int|
            0 <= k < colliders_upto(c, w, h, ts, n).len() ==> from_kept_wall(
                c,
                w,
                h,
                ts,
                n,
                #[trigger] colliders_upto(c, w, h, ts, n)[k],
            ),
        forall|k1: int, k2: int|
            0 <= k1 < k2 < colliders_upto(c, w, h, ts, n).len() ==> #[trigger] colliders_upto(
                c,
                w,
                h,
                ts,
                n,
            )[k1].center != #[trigger] colliders_upto(c, w, h, ts, n)[k2].center,
    decreases n,
{
    let r = resolved(c, w, h);
    if n == 0 {
        assert(r.take(0) =~= Seq::<Tile>::empty());
    } else {
        let m = (n - 1) as nat;
        let i = n - 1;
        lemma_colliders_upto(c, w, h, ts, m);
        let prev = colliders_upto(c, w, h, ts, m);
        let cur = colliders_upto(c, w, h, ts, n);
        assert(r.take(n as int).drop_last() =~= r.take(m as int));
        lemma_coords(w, h, i);
        assert(r[i] == resolved_tile(c, w, h, i % w, i / w));
        assert(cell(c, w, i % w, i / w) == c[i]);
        assert(keeps_wall(c, w, h, i) <==> r[i] == Tile::Wall);
        lemma_collider_tile(w, h, ts, i);
        if keeps_wall(c, w, h, i) {
            assert(cur == prev.push(collider_for(ts, i % w, i / w)));
            assert forall|k: int| 0 <= k < cur.len() implies from_kept_wall(
                c,
                w,
                h,
                ts,
                n,
                #[trigger] cur[k],
            ) by {
                if k < prev.len() {
                    assert(prev[k] == cur[k]);
                    assert(from_kept_wall(c, w, h, ts, m, prev[k]));
                    let j = choose|j: int|
                        0 <= j < m && keeps_wall(c, w, h, j) && prev[k] == collider_for(
                            ts,
                            j % w,
                            j / w,
                        );
                    assert(0 <= j < n && keeps_wall(c, w, h, j) && cur[k] == collider_for(
                        ts,
                        j % w,
                        j / w,
                    ));
                } else {
                    assert(cur[k] == collider_for(ts, i % w, i / w));
                }
            }
            assert forall|k1: int, k2: int|
                0 <= k1 < k2 < cur.len() implies #[trigger] cur[k1].center
                != #[trigger] cur[k2].center by {
                if k2 < prev.len() {
                    assert(prev[k1] == cur[k1] && prev[k2] == cur[k2]);
                } else {
                    assert(prev[k1] == cur[k1]);
                    assert(from_kept_wall(c, w, h, ts, m, prev[k1]));
                    let j = choose|j: int|
                        0 <= j < m && keeps_wall(c, w, h, j) && prev[k1] == collider_for(
                            ts,
                            j % w,
                            j / w,
                        );
                    lemma_collider_tile(w, h, ts, j);
                    if cur[k1].center == cur[k2].center {
                        lemma_coords_injective(w, h, i, j);
                    }
                }
            }
        } else {
            assert(cur == prev);
            assert forall|k: int| 0 <= k < cur.len() implies from_kept_wall(
                c,
                w,
                h,
                ts,
                n,
                #[trigger] cur[k],
            ) by {
                assert(from_kept_wall(c, w, h, ts, m, prev[k]));
                let j = choose|j: int|
                    0 <= j < m && keeps_wall(c, w, h, j) && prev[k] == collider_for(
                        ts,
                        j % w,
                        j / w,
                    );
                assert(0 <= j < n && keeps_wall(c, w, h, j) && cur[k] == collider_for(
                    ts,
                    j % w,
                    j / w,
                ));
            }
        }
    }
}

/// The collider index of a generated level holds one entry per wall of the
/// final grid; inverse scaling of each entry's center gives back an
/// in-bounds wall tile whose collider it is, and no two entries name the
/// same tile.
pub proof fn lemma_colliders_match_walls(
    l: Level,
    w: int,
    h: int,
    ts: int,
    p: GenParams,
    fill: Seq<u32>,
    enemy: Seq<u32>,
)
    requires
        is_generated_level(l, w, h, ts, p, fill, enemy),
    ensures
        l.colliders@.len() == count_tiles(l.grid.cells(), Tile::Wall),
        forall|k: int|
            0 <= k < l.colliders@.len() ==> {
                let e = #[trigger] l.colliders@[k];
                let tx = tile_of(e.center.x as int, ts);
                let ty = tile_of(e.center.y as int, ts);
                &&& in_bounds(w, h, tx, ty)
                &&& l.grid.spec_tile(tx, ty) == Tile::Wall
                &&& e == collider_for(ts, tx, ty)
            },
        forall|k1: int, k2: int|
            0 <= k1 < k2 < l.colliders@.len() ==> (#[trigger] l.colliders@[k1]).center != (
            #[trigger] l.colliders@[k2]).center,
{
    let s = smoothed_cells(w, h, p, fill);
    lemma_smoothed_len(w, h, p, fill);
    lemma_colliders_upto(s, w, h, ts, s.len());
    assert(resolved(s, w, h).take(s.len() as int) =~= resolved(s, w, h));
    assert forall|k: int| 0 <= k < l.colliders@.len() implies {
        let e = #[trigger] l.colliders@[k];
        let tx = tile_of(e.center.x as int, ts);
        let ty = tile_of(e.center.y as int, ts);
        &&& in_bounds(w, h, tx, ty)
        &&& l.grid.spec_tile(tx, ty) == Tile::Wall
        &&& e == collider_for(ts, tx, ty)
    } by {
        let cs = colliders_upto(s, w, h, ts, s.len());
        assert(l.colliders@[k] == cs[k]);
        assert(from_kept_wall(s, w, h, ts, s.len(), cs[k]));
        let i = choose|i: int|
            0 <= i < s.len() && keeps_wall(s, w, h, i) && cs[k] == collider_for(ts, i % w, i / w);
        lemma_collider_tile(w, h, ts, i);
        lemma_coords(w, h, i);
        lemma_resolved_cell(s, w, h, i % w, i / w);
        assert(cell(s, w, i % w, i / w) == s[i]);
    }
}

/// `pt` is the center of a floor among the first `n` tiles.
spec fn centers_floor(c: Seq<Tile>, w: int, ts: int, n: nat, pt: WorldPoint) -> bool {
    exists|i: int| 0 <= i < n && c[i] == Tile::Floor && pt == tile_center(ts, i % w, i / w)
}

proof fn lemma_last_floor(c: Seq<Tile>, n: nat)
    requires
        n <= c.len(),
    ensures
        last_floor(c, n) matches Some(i) ==> 0 <= i < n && c[i] == Tile::Floor,
    decreases n,
{
    if n > 0 {
        lemma_last_floor(c, (n - 1) as nat);
    }
}

proof fn lemma_enemies_upto(
    c: Seq<Tile>,
    w: int,
    ts: int,
    samples: Seq<u32>,
    enemy_percent: u32,
    n: nat,
)
    requires
        n <= c.len(),
    ensures
        forall|k: int|
            0 <= k < enemies_upto(c, w, ts, samples, enemy_percent, n).len() ==> centers_floor(
                c,
                w,
                ts,
                n,
                #[trigger] enemies_upto(c, w, ts, samples, enemy_percent, n)[k],
            ),
    decreases n,
{
    if n > 0 {
        let m = (n - 1) as nat;
        let i = n - 1;
        lemma_enemies_upto(c, w, ts, samples, enemy_percent, m);
        let prev = enemies_upto(c, w, ts, samples, enemy_percent, m);
        let cur = enemies_upto(c, w, ts, samples, enemy_percent, n);
        assert forall|k: int| 0 <= k < cur.len() implies centers_floor(
            c,
            w,
            ts,
            n,
            #[trigger] cur[k],
        ) by {
            if k < prev.len() {
                assert(prev[k] == cur[k]);
                assert(centers_floor(c, w, ts, m, prev[k]));
                let j = choose|j: int|
                    0 <= j < m && c[j] == Tile::Floor && prev[k] == tile_center(ts, j % w, j / w);
                assert(0 <= j < n && c[j] == Tile::Floor && cur[k] == tile_center(
                    ts,
                    j % w,
                    j / w,
                ));
            } else {
                assert(spawns_enemy(c, samples, enemy_percent, i));
                assert(cur[k] == tile_center(ts, i % w, i / w));
            }
        }
    }
}

/// A floor before the scan is a floor after it, and inverse scaling of its
/// center gives it back.
proof fn lemma_floor_center(c: Seq<Tile>, w: int, h: int, ts: int, i: int)
    requires
        c.len() == w * h,
        0 <= i < c.len(),
        c[i] == Tile::Floor,
        w > 0,
        ts > 0,
        2 * w * ts <= u64::MAX,
        2 * h * ts <= u64::MAX,
    ensures
        ({
            let pt = tile_center(ts, i % w, i / w);
            let tx = tile_of(pt.x as int, ts);
            let ty = tile_of(pt.y as int, ts);
            &&& in_bounds(w, h, tx, ty)
            &&& cell(resolved(c, w, h), w, tx, ty) == Tile::Floor
            &&& pt == tile_center(ts, tx, ty)
        }),
{
    lemma_collider_tile(w, h, ts, i);
    lemma_coords(w, h, i);
    lemma_resolved_cell(c, w, h, i % w, i / w);
}

/// The player spawn and every enemy spawn of a generated level are centers
/// of tiles that are floor in the final grid.
pub proof fn lemma_spawns_on_floor(
    l: Level,
    w: int,
    h: int,
    ts: int,
    p: GenParams,
    fill: Seq<u32>,
    enemy: Seq<u32>,
)
    requires
        is_generated_level(l, w, h, ts, p, fill, enemy),
    ensures
        ({
            let pt = l.spawns.player_spawn;
            let tx = tile_of(pt.x as int, ts);
            let ty = tile_of(pt.y as int, ts);
            &&& in_bounds(w, h, tx, ty)
            &&& l.grid.spec_tile(tx, ty) == Tile::Floor
            &&& pt == tile_center(ts, tx, ty)
        }),
        forall|k: int|
            0 <= k < l.spawns.enemy_spawns@.len() ==> {
                let pt = #[trigger] l.spawns.enemy_spawns@[k];
                let tx = tile_of(pt.x as int, ts);
                let ty = tile_of(pt.y as int, ts);
                &&& in_bounds(w, h, tx, ty)
                &&& l.grid.spec_tile(tx, ty) == Tile::Floor
                &&& pt == tile_center(ts, tx, ty)
            },
{
    let s = smoothed_cells(w, h, p, fill);
    lemma_smoothed_len(w, h, p, fill);
    lemma_last_floor(s, s.len());
    let i = last_floor(s, s.len())->Some_0;
    lemma_floor_center(s, w, h, ts, i);
    lemma_enemies_upto(s, w, ts, enemy, p.enemy_percent, s.len());
    assert forall|k: int| 0 <= k < l.spawns.enemy_spawns@.len() implies {
        let pt = #[trigger] l.spawns.enemy_spawns@[k];
        let tx = tile_of(pt.x as int, ts);
        let ty = tile_of(pt.y as int, ts);
        &&& in_bounds(w, h, tx, ty)
        &&& l.grid.spec_tile(tx, ty) == Tile::Floor
        &&& pt == tile_center(ts, tx, ty)
    } by {
        let es = enemies_upto(s, w, ts, enemy, p.enemy_percent, s.len());
        assert(l.spawns.enemy_spawns@[k] == es[k]);
        assert(centers_floor(s, w, ts, s.len(), es[k]));
        let j = choose|j: int|
            0 <= j < s.len() && s[j] == Tile::Floor && es[k] == tile_center(ts, j % w, j / w);
        lemma_floor_center(s, w, h, ts, j);
    }
}

/// The same samples give the same level: two results for the same
/// dimensions, tile size, parameters and samples are the same error, or
/// levels with the same grid, the same collider index and the same spawns.
pub proof fn lemma_same_samples_same_level(
    w: int,
    h: int,
    ts: int,
    p: GenParams,
    fill: Seq<u32>,
    enemy: Seq<u32>,
    a: Result<Level, GenerationError>,
    b: Result<Level, GenerationError>,
)
    requires
        is_generation_result(a, w, h, ts, p, fill, enemy),
        is_generation_result(b, w, h, ts, p, fill, enemy),
    ensures
        a.is_ok() == b.is_ok(),
        a.is_err() ==> a == b,
        a.is_ok() ==> {
            let la = a.unwrap();
            let lb = b.unwrap();
            &&& la.grid.spec_width() == lb.grid.spec_width()
            &&& la.grid.spec_height() == lb.grid.spec_height()
            &&& la.grid.cells() == lb.grid.cells()
            &&& la.colliders@ == lb.colliders@
            &&& la.spawns.player_spawn == lb.spawns.player_spawn
            &&& la.spawns.enemy_spawns@ == lb.spawns.enemy_spawns@
        },
{
}

/// Generation from a seed is deterministic: two results of `generate` for
/// the same dimensions, tile size, parameters and seed are the same error, or
/// levels with the same grid, the same collider index and the same spawns.
pub proof fn lemma_same_seed_same_level(
    w: usize,
    h: usize,
    ts: u32,
    p: GenParams,
    seed: u64,
    a: Result<Level, GenerationError>,
    b: Result<Level, GenerationError>,
)
    requires
        is_generation_result(
            a,
            w as int,
            h as int,
            ts as int,
            p,
            seeded_fill(seed, (w * h) as nat),
            seeded_enemy(seed, (w * h) as nat),
        ),
        is_generation_result(
            b,
            w as int,
            h as int,
            ts as int,
            p,
            seeded_fill(seed, (w * h) as nat),
            seeded_enemy(seed, (w * h) as nat),
        ),
    ensures
        a.is_ok() == b.is_ok(),
        a.is_err() ==> a == b,
        a.is_ok() ==> {
            let la = a.unwrap();
            let lb = b.unwrap();
            &&& la.grid.spec_width() == lb.grid.spec_width()
            &&& la.grid.spec_height() == lb.grid.spec_height()
            &&& la.grid.cells() == lb.grid.cells()
            &&& la.colliders@ == lb.colliders@
            &&& la.spawns.player_spawn == lb.spawns.player_spawn
            &&& la.spawns.enemy_spawns@ == lb.spawns.enemy_spawns@
        },
{
    lemma_same_samples_same_level(
        w as int,
        h as int,
        ts as int,
        p,
        seeded_fill(seed, (w * h) as nat),
        seeded_enemy(seed, (w * h) as nat),
        a,
        b,
    );
}

} // verus!
