use vstd::prelude::*;

use crate::error::GenerationError;
use crate::fill::{filled, random_fill};
use crate::grid::{Grid, Tile};
use crate::index::{ColliderEntry, SpawnIndex};
use crate::resolve::{colliders_upto, enemies_upto, player_spawn_of, resolve_pockets, resolved};
use crate::rng::{draw_percents, percent_draws, PercentSource};
use crate::smooth::{smooth, smoothed};

verus! {

/// The tunable parameters of generation. Samples are whole percents, drawn
/// uniformly from `0..100`.
#[derive(Clone, Copy, Debug, PartialEq, Eq, Structural)]
pub struct GenParams {
    /// An interior cell starts as floor when its sample is below this.
    pub floor_percent: u32,
    /// The number of automaton passes.
    pub smoothing_iterations: u32,
    /// A floor tile places an enemy when its sample is below this.
    pub enemy_percent: u32,
}

impl Default for GenParams {
    /// Floor with probability 0.45, forty passes, enemies with probability 0.1.
    fn default() -> (p: GenParams)
        ensures
            p.floor_percent == 45,
            p.smoothing_iterations == 40,
            p.enemy_percent == 10,
    {
        GenParams { floor_percent: 45, smoothing_iterations: 40, enemy_percent: 10 }
    }
}

/// A generated level: the final grid and the two indices derived from it.
#[derive(Debug, PartialEq, Eq)]
pub struct Level {
    pub grid: Grid,
    pub colliders: Vec<ColliderEntry>,
    pub spawns: SpawnIndex,
}

/// Dimensions and tile size that generation accepts: none is zero, and the
/// level fits the machine's integers.
pub open spec fn valid_config(w: int, h: int, ts: int) -> bool {
    w > 0 && h > 0 && ts > 0 && fits_machine(w, h, ts)
}

/// The limits that the machine's integers put on a level: the buffer's
/// length fits in `usize` and every center fits in `u64`.
pub open spec fn fits_machine(w: int, h: int, ts: int) -> bool {
    w * h <= usize::MAX && 2 * w * ts <= u64::MAX && 2 * h * ts <= u64::MAX
}

/// The grid as it stands after the fill and the automaton.
pub open spec fn smoothed_cells(w: int, h: int, p: GenParams, fill: Seq<u32>) -> Seq<Tile> {
    smoothed(filled(fill, w, h, p.floor_percent), w, h, p.smoothing_iterations as nat)
}

/// `l` is the level that the pipeline builds from these samples.
pub open spec fn is_generated_level(
    l: Level,
    w: int,
    h: int,
    ts: int,
    p: GenParams,
    fill: Seq<u32>,
    enemy: Seq<u32>,
) -> bool {
    let s = smoothed_cells(w, h, p, fill);
    &&& valid_config(w, h, ts)
    &&& l.grid.wf()
    &&& l.grid.spec_width() == w
    &&& l.grid.spec_height() == h
    &&& l.grid.cells() == resolved(s, w, h)
    &&& l.colliders@ == colliders_upto(s, w, h, ts, s.len())
    &&& player_spawn_of(s, w, ts) == Some(l.spawns.player_spawn)
    &&& l.spawns.enemy_spawns@ == enemies_upto(s, w, ts, enemy, p.enemy_percent, s.len())
}

/// `r` is what the pipeline returns for these inputs and samples: a
/// configuration error for a zero dimension or tile size, or for a level too
/// large for the machine's integers, else a missing
/// floor error when the final scan meets no floor, else the level.
pub open spec fn is_generation_result(
    r: Result<Level, GenerationError>,
    w: int,
    h: int,
    ts: int,
    p: GenParams,
    fill: Seq<u32>,
    enemy: Seq<u32>,
) -> bool {
    if !valid_config(w, h, ts) {
        r == Err::<Level, GenerationError>(GenerationError::Configuration)
    } else if player_spawn_of(smoothed_cells(w, h, p, fill), w, ts).is_none() {
        r == Err::<Level, GenerationError>(GenerationError::NoFloorTile)
    } else {
        &&& r.is_ok()
        &&& is_generated_level(r.unwrap(), w, h, ts, p, fill, enemy)
    }
}

/// Whether generation accepts these dimensions and tile size.
fn accepts_config(width: usize, height: usize, tile_size: u32) -> (r: bool)
    ensures
        r == valid_config(width as int, height as int, tile_size as int),
{
    if width == 0 || height == 0 || tile_size == 0 {
        return false;
    }
    if width.checked_mul(height).is_none() {
        return false;
    }
    let side: u64 = 2 * (tile_size as u64);
    let w64 = width as u64;
    let h64 = height as u64;
    proof {
        assert(w64 * side == 2 * width * tile_size) by (nonlinear_arith)
            requires
                w64 == width,
                side == 2 * tile_size,
        ;
        assert(h64 * side == 2 * height * tile_size) by (nonlinear_arith)
            requires
                h64 == height,
                side == 2 * tile_size,
        ;
    }
    w64.checked_mul(side).is_some() && h64.checked_mul(side).is_some()
}

/// Builds a level from its samples: `fill_samples` and `enemy_samples` hold
/// one sample per cell each, row by row.
pub fn generate_from_samples(
    width: usize,
    height: usize,
    tile_size: u32,
    params: GenParams,
    fill_samples: &Vec<u32>,
    enemy_samples: &Vec<u32>,
) -> (r: Result<Level, GenerationError>)
    requires
        fill_samples@.len() == width * height,
        enemy_samples@.len() == width * height,
    ensures
        is_generation_result(
            r,
            width as int,
            height as int,
            tile_size as int,
            params,
            fill_samples@,
            enemy_samples@,
        ),
{
    if !accepts_config(width, height, tile_size) {
        return Err(GenerationError::Configuration);
    }
    let mut grid = Grid::new(width, height);
    let _ = random_fill(&mut grid, fill_samples, params.floor_percent);
    smooth(&mut grid, params.smoothing_iterations);
    let scan = resolve_pockets(&mut grid, tile_size, enemy_samples, params.enemy_percent);
    match scan.player_spawn {
        None => Err(GenerationError::NoFloorTile),
        Some(player_spawn) => Ok(
            Level {
                grid,
                colliders: scan.colliders,
                spawns: SpawnIndex { player_spawn, enemy_spawns: scan.enemy_spawns },
            },
        ),
    }
}

/// The fill samples of a level of `cells` tiles generated from `seed`: the
/// first `cells` samples of the seeded generator.
pub open spec fn seeded_fill(seed: u64, cells: nat) -> Seq<u32> {
    percent_draws(seed, 0, cells)
}

/// The enemy samples of a level of `cells` tiles generated from `seed`: the
/// `cells` samples that follow the fill samples.
pub open spec fn seeded_enemy(seed: u64, cells: nat) -> Seq<u32> {
    percent_draws(seed, cells, cells)
}

/// Generates a level from a seed: one sample per cell for the fill, then one
/// per cell for the enemies, all from the standard generator seeded with
/// `seed`.
pub fn generate(width: usize, height: usize, tile_size: u32, params: GenParams, seed: u64) -> (r:
    Result<Level, GenerationError>)
    ensures
        is_generation_result(
            r,
            width as int,
            height as int,
            tile_size as int,
            params,
            seeded_fill(seed, (width * height) as nat),
            seeded_enemy(seed, (width * height) as nat),
        ),
{
    if !accepts_config(width, height, tile_size) {
        return Err(GenerationError::Configuration);
    }
    let n: usize = width * height;
    let mut src = PercentSource::new(seed);
    let fill = draw_percents(&mut src, n);
    let enemy = draw_percents(&mut src, n);
    generate_from_samples(width, height, tile_size, params, &fill, &enemy)
}

} // verus!
