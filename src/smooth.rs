use vstd::prelude::*;

use crate::grid::{cell, holds, lemma_coords, on_border, Grid, Tile};

verus! {

/// 1 when `(x, y)` is an in-bounds wall, else 0: a neighbor outside the grid
/// is absent and counts as nothing.
pub open spec fn wall_flag(c: Seq<Tile>, w: int, h: int, x: int, y: int) -> int {
    if holds(c, w, h, x, y, Tile::Wall) {
        1
    } else {
        0
    }
}

/// The number of walls among the eight Moore neighbors of `(x, y)`.
pub open spec fn moore_walls(c: Seq<Tile>, w: int, h: int, x: int, y: int) -> int {
    wall_flag(c, w, h, x - 1, y - 1) + wall_flag(c, w, h, x, y - 1) + wall_flag(c, w, h, x + 1, y - 1)
        + wall_flag(c, w, h, x - 1, y) + wall_flag(c, w, h, x + 1, y) + wall_flag(
        c,
        w,
        h,
        x - 1,
        y + 1,
    ) + wall_flag(c, w, h, x, y + 1) + wall_flag(c, w, h, x + 1, y + 1)
}

/// The tile that one pass gives to `(x, y)`: the outer ring keeps its tile;
/// an interior tile becomes wall when more than four, or none, of its Moore
/// neighbors are walls, and floor otherwise.
pub open spec fn smoothed_tile(c: Seq<Tile>, w: int, h: int, x: int, y: int) -> Tile {
    if on_border(w, h, x, y) {
        cell(c, w, x, y)
    } else {
        let n = moore_walls(c, w, h, x, y);
        if n > 4 || n == 0 {
            Tile::Wall
        } else {
            Tile::Floor
        }
    }
}

/// One pass of the automaton: every tile is computed from the buffer as it
/// stood before the pass.
pub open spec fn smooth_step(c: Seq<Tile>, w: int, h: int) -> Seq<Tile> {
    Seq::new(c.len(), |i: int| smoothed_tile(c, w, h, i % w, i / w))
}

/// `n` passes of the automaton.
pub open spec fn smoothed(c: Seq<Tile>, w: int, h: int, n: nat) -> Seq<Tile>
    decreases n,
{
    if n == 0 {
        c
    } else {
        smooth_step(smoothed(c, w, h, (n - 1) as nat), w, h)
    }
}

fn wall_flag_at(g: &Grid, x: usize, y: usize) -> (r: u32)
    requires
        g.wf(),
    ensures
        r == wall_flag(g.cells(), g.spec_width(), g.spec_height(), x as int, y as int),
{
    match g.get(x, y) {
        Some(Tile::Wall) => 1,
        _ => 0,
    }
}

/// One pass of the automaton over `g`, written to a fresh grid so that no
/// tile of the pass is read by another tile of the same pass.
pub fn smooth_pass(g: &Grid) -> (r: Grid)
    requires
        g.wf(),
    ensures
        r.wf(),
        r.spec_width() == g.spec_width(),
        r.spec_height() == g.spec_height(),
        r.cells() == smooth_step(g.cells(), g.spec_width(), g.spec_height()),
{
    let w = g.width();
    let h = g.height();
    let ghost c = g.cells();
    let ghost target = smooth_step(c, w as int, h as int);
    let mut tiles: Vec<Tile> = Vec::new();
    let mut i: usize = 0;
    let n = g.cell_count();
    assert(n > 0 ==> w > 0) by (nonlinear_arith)
        requires
            n == w * h,
    ;
    while i < n
        invariant
            g.wf(),
            c == g.cells(),
            w == g.spec_width(),
            h == g.spec_height(),
            n == c.len(),
            n > 0 ==> w > 0,
            i <= n,
            tiles@.len() == i,
            target == smooth_step(c, w as int, h as int),
            forall|j: int| 0 <= j < i ==> tiles@[j] == target[j],
        decreases n - i,
    {
        let x = i % w;
        let y = i / w;
        proof {
            lemma_coords(w as int, h as int, i as int);
        }
        let t = if x == 0 || x == w - 1 || y == 0 || y == h - 1 {
            match g.get(x, y) {
                Some(t) => t,
                None => Tile::Wall,
            }
        } else {
            let count = wall_flag_at(g, x - 1, y - 1) + wall_flag_at(g, x, y - 1) + wall_flag_at(
                g,
                x + 1,
                y - 1,
            ) + wall_flag_at(g, x - 1, y) + wall_flag_at(g, x + 1, y) + wall_flag_at(
                g,
                x - 1,
                y + 1,
            ) + wall_flag_at(g, x, y + 1) + wall_flag_at(g, x + 1, y + 1);
            if count > 4 || count == 0 {
                Tile::Wall
            } else {
                Tile::Floor
            }
        };
        tiles.push(t);
        i = i + 1;
    }
    assert(tiles@ =~= target);
    Grid::from_cells(w, h, tiles)
}

/// Runs exactly `iterations` passes of the automaton over `grid`.
pub fn smooth(grid: &mut Grid, iterations: u32)
    requires
        old(grid).wf(),
    ensures
        final(grid).wf(),
        final(grid).spec_width() == old(grid).spec_width(),
        final(grid).spec_height() == old(grid).spec_height(),
        final(grid).cells() == smoothed(
            old(grid).cells(),
            old(grid).spec_width(),
            old(grid).spec_height(),
            iterations as nat,
        ),
{
    let ghost c0 = grid.cells();
    let mut k: u32 = 0;
    while k < iterations
        invariant
            grid.wf(),
            grid.spec_width() == old(grid).spec_width(),
            grid.spec_height() == old(grid).spec_height(),
            c0 == old(grid).cells(),
            k <= iterations,
            grid.cells() == smoothed(c0, grid.spec_width(), grid.spec_height(), k as nat),
        decreases iterations - k,
    {
        let next = smooth_pass(grid);
        *grid = next;
        k = k + 1;
    }
}

} // verus!
