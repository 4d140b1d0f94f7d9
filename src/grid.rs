use vstd::prelude::*;

verus! {

/// The logical state of one cell of the level grid.
#[derive(Clone, Copy, Debug, PartialEq, Eq, Structural)]
pub enum Tile {
    Wall,
    Floor,
}

/// Returned by the accessors when a coordinate lies outside the grid.
#[derive(Clone, Copy, Debug, PartialEq, Eq, Structural)]
pub struct OutOfBounds;

/// A rectangular tile buffer, stored row by row: the tile at `(x, y)` is at
/// index `y * width + x`.
#[derive(Debug, PartialEq, Eq)]
pub struct Grid {
    pub(crate) width: usize,
    pub(crate) height: usize,
    pub(crate) tiles: Vec<Tile>,
}

/// Whether `(x, y)` lies in `[0, w) × [0, h)`.
pub open spec fn in_bounds(w: int, h: int, x: int, y: int) -> bool {
    0 <= x < w && 0 <= y < h
}

/// Whether `(x, y)` is on the outer ring of a `w × h` grid.
pub open spec fn on_border(w: int, h: int, x: int, y: int) -> bool {
    x == 0 || x == w - 1 || y == 0 || y == h - 1
}

/// The tile at `(x, y)` of a row-major buffer of rows of width `w`.
pub open spec fn cell(cells: Seq<Tile>, w: int, x: int, y: int) -> Tile {
    cells[y * w + x]
}

/// Whether `(x, y)` is in bounds and holds `t`.
pub open spec fn holds(cells: Seq<Tile>, w: int, h: int, x: int, y: int, t: Tile) -> bool {
    in_bounds(w, h, x, y) && cell(cells, w, x, y) == t
}

/// The number of cells of `cells` that hold `t`.
pub open spec fn count_tiles(cells: Seq<Tile>, t: Tile) -> nat
    decreases cells.len(),
{
    if cells.len() == 0 {
        0
    } else {
        count_tiles(cells.drop_last(), t) + if cells.last() == t {
            1nat
        } else {
            0nat
        }
    }
}

/// The row-major position of `(x, y)` lies in the buffer, and the position
/// gives back its coordinates.
pub proof fn lemma_index(w: int, h: int, x: int, y: int)
    requires
        in_bounds(w, h, x, y),
    ensures
        0 <= y * w + x < w * h,
        (y * w + x) % w == x,
        (y * w + x) / w == y,
{
    assert(0 <= y * w + x < w * h) by (nonlinear_arith)
        requires
            0 <= x < w,
            0 <= y < h,
    ;
    vstd::arithmetic::div_mod::lemma_fundamental_div_mod_converse(y * w + x, w, y, x);
}

/// Every position of a `w × h` buffer is the position of the coordinates that
/// division by `w` gives back.
pub proof fn lemma_coords(w: int, h: int, i: int)
    requires
        0 <= i < w * h,
        w > 0,
    ensures
        in_bounds(w, h, i % w, i / w),
        (i / w) * w + i % w == i,
{
    vstd::arithmetic::div_mod::lemma_fundamental_div_mod(i, w);
    vstd::arithmetic::div_mod::lemma_div_pos_is_pos(i, w);
    vstd::arithmetic::div_mod::lemma_mod_pos_bound(i, w);
    let q = i / w;
    let r = i % w;
    assert(q < h && q * w + r == i) by (nonlinear_arith)
        requires
            i == w * q + r,
            0 <= r < w,
            i < w * h,
            w > 0,
    ;
}

impl Grid {
    /// The grid's width in tiles.
    pub closed spec fn spec_width(&self) -> int {
        self.width as int
    }

    /// The grid's height in tiles.
    pub closed spec fn spec_height(&self) -> int {
        self.height as int
    }

    /// The tiles, row by row.
    pub closed spec fn cells(&self) -> Seq<Tile> {
        self.tiles@
    }

    /// The buffer holds exactly `width * height` tiles, a count that fits in
    /// `usize`.
    pub open spec fn wf(&self) -> bool {
        &&& self.cells().len() == self.spec_width() * self.spec_height()
        &&& self.spec_width() * self.spec_height() <= usize::MAX
    }

    /// The tile at `(x, y)`, which must be in bounds.
    pub open spec fn spec_tile(&self, x: int, y: int) -> Tile {
        cell(self.cells(), self.spec_width(), x, y)
    }

    /// A grid made of the given buffer.
    pub(crate) fn from_cells(width: usize, height: usize, tiles: Vec<Tile>) -> (g: Grid)
        ensures
            g.spec_width() == width,
            g.spec_height() == height,
            g.cells() == tiles@,
    {
        Grid { width, height, tiles }
    }

    /// A `width × height` grid of walls.
    pub fn new(width: usize, height: usize) -> (g: Grid)
        requires
            width * height <= usize::MAX,
        ensures
            g.wf(),
            g.spec_width() == width,
            g.spec_height() == height,
            forall|i: int| 0 <= i < g.cells().len() ==> g.cells()[i] == Tile::Wall,
    {
        let n: usize = width * height;
        let mut tiles: Vec<Tile> = Vec::new();
        while tiles.len() < n
            invariant
                tiles@.len() <= n,
                forall|i: int| 0 <= i < tiles@.len() ==> tiles@[i] == Tile::Wall,
            decreases n - tiles@.len(),
        {
            tiles.push(Tile::Wall);
        }
        Grid { width, height, tiles }
    }

    pub fn width(&self) -> (r: usize)
        ensures
            r == self.spec_width(),
    {
        self.width
    }

    pub fn height(&self) -> (r: usize)
        ensures
            r == self.spec_height(),
    {
        self.height
    }

    /// The number of tiles, `width * height`.
    pub fn cell_count(&self) -> (r: usize)
        ensures
            r == self.cells().len(),
    {
        self.tiles.len()
    }

    /// The buffer position of an in-bounds coordinate.
    pub(crate) fn index_of(&self, x: usize, y: usize) -> (i: usize)
        requires
            self.wf(),
            in_bounds(self.spec_width(), self.spec_height(), x as int, y as int),
        ensures
            i == y * self.spec_width() + x,
            i < self.cells().len(),
    {
        proof {
            lemma_index(self.width as int, self.height as int, x as int, y as int);
        }
        y * self.width + x
    }

    /// The tile at `(x, y)`, or `None` when the coordinate is outside the grid.
    pub fn get(&self, x: usize, y: usize) -> (r: Option<Tile>)
        requires
            self.wf(),
        ensures
            in_bounds(self.spec_width(), self.spec_height(), x as int, y as int) ==> r == Some(
                self.spec_tile(x as int, y as int),
            ),
            !in_bounds(self.spec_width(), self.spec_height(), x as int, y as int) ==> r.is_none(),
    {
        if x < self.width && y < self.height {
            let i = self.index_of(x, y);
            Some(self.tiles[i])
        } else {
            None
        }
    }

    /// The tile at `(x, y)`, or `OutOfBounds`.
    pub fn tile_at(&self, x: usize, y: usize) -> (r: Result<Tile, OutOfBounds>)
        requires
            self.wf(),
        ensures
            in_bounds(self.spec_width(), self.spec_height(), x as int, y as int) ==> r == Ok::<
                Tile,
                OutOfBounds,
            >(self.spec_tile(x as int, y as int)),
            !in_bounds(self.spec_width(), self.spec_height(), x as int, y as int) ==> r == Err::<
                Tile,
                OutOfBounds,
            >(OutOfBounds),
    {
        match self.get(x, y) {
            Some(t) => Ok(t),
            None => Err(OutOfBounds),
        }
    }

    /// Writes `t` at `(x, y)`; outside the grid nothing changes and
    /// `OutOfBounds` is returned.
    pub fn set(&mut self, x: usize, y: usize, t: Tile) -> (r: Result<(), OutOfBounds>)
        requires
            old(self).wf(),
        ensures
            final(self).wf(),
            final(self).spec_width() == old(self).spec_width(),
            final(self).spec_height() == old(self).spec_height(),
            in_bounds(old(self).spec_width(), old(self).spec_height(), x as int, y as int) ==> {
                &&& r.is_ok()
                &&& final(self).cells() == old(self).cells().update(y * old(self).spec_width() + x, t)
            },
            !in_bounds(old(self).spec_width(), old(self).spec_height(), x as int, y as int) ==> {
                &&& r == Err::<(), OutOfBounds>(OutOfBounds)
                &&& final(self).cells() == old(self).cells()
            },
    {
        if x < self.width && y < self.height {
            let i = self.index_of(x, y);
            self.tiles.set(i, t);
            Ok(())
        } else {
            Err(OutOfBounds)
        }
    }
}

} // verus!
