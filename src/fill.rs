use vstd::prelude::*;

use crate::error::GenerationError;
use crate::grid::{lemma_coords, on_border, Grid, Tile};

verus! {

/// The tile that the fill gives to `(x, y)`: the outer ring is wall; inside,
/// a cell whose sample lies below `floor_percent` is floor and any other is
/// wall.
pub open spec fn filled_tile(
    samples: Seq<u32>,
    w: int,
    h: int,
    floor_percent: u32,
    x: int,
    y: int,
) -> Tile {
    if on_border(w, h, x, y) {
        Tile::Wall
    } else if samples[y * w + x] < floor_percent {
        Tile::Floor
    } else {
        Tile::Wall
    }
}

/// The buffer that the fill produces, row by row.
pub open spec fn filled(samples: Seq<u32>, w: int, h: int, floor_percent: u32) -> Seq<Tile> {
    Seq::new((w * h) as nat, |i: int| filled_tile(samples, w, h, floor_percent, i % w, i / w))
}

/// Fills `grid` from one sample in `0..100` per cell, taken row by row, then
/// forces the outer ring to wall. A zero-sized grid is a configuration error
/// and is left as it is.
pub fn random_fill(grid: &mut Grid, samples: &Vec<u32>, floor_percent: u32) -> (r: Result<
    (),
    GenerationError,
>)
    requires
        old(grid).wf(),
        samples@.len() == old(grid).cells().len(),
    ensures
        final(grid).wf(),
        final(grid).spec_width() == old(grid).spec_width(),
        final(grid).spec_height() == old(grid).spec_height(),
        (old(grid).spec_width() == 0 || old(grid).spec_height() == 0) ==> {
            &&& r == Err::<(), GenerationError>(GenerationError::Configuration)
            &&& final(grid).cells() == old(grid).cells()
        },
        (old(grid).spec_width() > 0 && old(grid).spec_height() > 0) ==> {
            &&& r.is_ok()
            &&& final(grid).cells() == filled(
                samples@,
                old(grid).spec_width(),
                old(grid).spec_height(),
                floor_percent,
            )
        },
{
    let w = grid.width();
    let h = grid.height();
    if w == 0 || h == 0 {
        return Err(GenerationError::Configuration);
    }
    let n = samples.len();
    let ghost target = filled(samples@, w as int, h as int, floor_percent);
    let mut tiles: Vec<Tile> = Vec::new();
    let mut i: usize = 0;
    while i < n
        invariant
            n == w * h,
            w > 0,
            n == samples@.len(),
            i <= n,
            tiles@.len() == i,
            target == filled(samples@, w as int, h as int, floor_percent),
            forall|j: int| 0 <= j < i ==> tiles@[j] == target[j],
        decreases n - i,
    {
        let x = i % w;
        let y = i / w;
        proof {
            lemma_coords(w as int, h as int, i as int);
        }
        let t = if x == 0 || x == w - 1 || y == 0 || y == h - 1 {
            Tile::Wall
        } else if samples[i] < floor_percent {
            Tile::Floor
        } else {
            Tile::Wall
        };
        tiles.push(t);
        i = i + 1;
    }
    assert(tiles@ =~= target);
    *grid = Grid::from_cells(w, h, tiles);
    Ok(())
}

} // verus!
