use vstd::prelude::*;

verus! {

/// A world-space position, in half units.
#[derive(Clone, Copy, Debug, PartialEq, Eq, Structural)]
pub struct WorldPoint {
    pub x: u64,
    pub y: u64,
}

/// One static, axis-aligned square obstacle: its center and its half extent,
/// both in half units.
#[derive(Clone, Copy, Debug, PartialEq, Eq, Structural)]
pub struct ColliderEntry {
    pub center: WorldPoint,
    pub half_extent: u64,
}

/// Where the player and the enemies are placed.
#[derive(Debug, PartialEq, Eq)]
pub struct SpawnIndex {
    pub player_spawn: WorldPoint,
    pub enemy_spawns: Vec<WorldPoint>,
}

/// The center of tile `(x, y)` for tiles of side `ts`: `x * ts + ts / 2` in
/// world units, so `(2x + 1) * ts` in half units.
pub open spec fn tile_center(ts: int, x: int, y: int) -> WorldPoint {
    WorldPoint { x: ((2 * x + 1) * ts) as u64, y: ((2 * y + 1) * ts) as u64 }
}

/// The obstacle of the wall tile `(x, y)`: half of `ts` in world units is
/// `ts` in half units.
pub open spec fn collider_for(ts: int, x: int, y: int) -> ColliderEntry {
    ColliderEntry { center: tile_center(ts, x, y), half_extent: ts as u64 }
}

/// The tile column or row of a center coordinate, by inverse scaling.
pub open spec fn tile_of(coord: int, ts: int) -> int {
    coord / (2 * ts)
}

proof fn lemma_factor_bound(a: int, b: int)
    requires
        a >= 0,
        b > 0,
    ensures
        a <= a * b,
{
    assert(a <= a * b) by (nonlinear_arith)
        requires
            a >= 0,
            b > 0,
    ;
}

/// The center of tile `(x, y)`, which must fit in 64 bits.
pub fn center_of(ts: u32, x: usize, y: usize) -> (r: WorldPoint)
    requires
        ts > 0,
        (2 * x + 1) * ts <= u64::MAX,
        (2 * y + 1) * ts <= u64::MAX,
    ensures
        r == tile_center(ts as int, x as int, y as int),
{
    proof {
        lemma_factor_bound(2 * x + 1, ts as int);
        lemma_factor_bound(2 * y + 1, ts as int);
    }
    let px: u64 = (2 * (x as u64) + 1) * (ts as u64);
    let py: u64 = (2 * (y as u64) + 1) * (ts as u64);
    WorldPoint { x: px, y: py }
}

} // verus!
