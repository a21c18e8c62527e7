//! The grid engine: cells, the universe, seeding, accessors, resizing and
//! the synchronous generation step.

use vstd::arithmetic::div_mod::lemma_fundamental_div_mod_converse;
use vstd::pervasive::VecAdditionalExecFns;
use vstd::prelude::*;

verus! {

/// One cell of the grid: dead or alive.
#[derive(Clone, Copy, Debug, PartialEq, Eq, Structural)]
pub enum Cell {
    Dead,
    Alive,
}

/// The state a cell flips to when toggled.
pub open spec fn flipped(c: Cell) -> Cell {
    match c {
        Cell::Dead => Cell::Alive,
        Cell::Alive => Cell::Dead,
    }
}

impl Cell {
    /// Flip this cell in place between dead and alive.
    pub fn toggle(&mut self)
        ensures
            *final(self) == flipped(*old(self)),
    {
        *self = match *self {
            Cell::Dead => Cell::Alive,
            Cell::Alive => Cell::Dead,
        };
    }
}

/// A buffer of `n` dead cells.
fn dead_cells(n: usize) -> (v: Vec<Cell>)
    ensures
        v@.len() == n,
        forall|i: int| 0 <= i < n ==> v@[i] == Cell::Dead,
{
    let mut v: Vec<Cell> = Vec::new();
    let mut i: usize = 0;
    while i < n
        invariant
            i <= n,
            v@.len() == i,
            forall|j: int| 0 <= j < i ==> v@[j] == Cell::Dead,
        decreases n - i,
    {
        v.push(Cell::Dead);
        i += 1;
    }
    v
}

/// Initial deterministic seed: alive where the row-major index is divisible
/// by 2 or by 7.
pub open spec fn seed_cell(i: int) -> Cell {
    if i % 2 == 0 || i % 7 == 0 {
        Cell::Alive
    } else {
        Cell::Dead
    }
}

/// The row or column toroidally before an in-range coordinate: one less,
/// wrapping to the far edge at zero.
pub open spec fn dec_wrap(v: int, dim: int) -> int {
    if v == 0 {
        dim - 1
    } else {
        v - 1
    }
}

/// The row or column toroidally after an in-range coordinate: one more,
/// wrapping to zero at the far edge.
pub open spec fn inc_wrap(v: int, dim: int) -> int {
    if v == dim - 1 {
        0
    } else {
        v + 1
    }
}

/// 1 where the cell at in-range coordinates (row, col) of a width-w grid is
/// alive, else 0.
pub open spec fn alive_one(g: Seq<Cell>, w: int, row: int, col: int) -> int {
    if g[row * w + col] is Alive {
        1
    } else {
        0
    }
}

/// The number of live cells among the eight toroidal neighbors of the
/// in-range cell (row, col) of a width-w, height-h grid. Both axes wrap, so
/// cells on an edge take their missing neighbors from the opposite edge.
pub open spec fn neighbor_count(g: Seq<Cell>, w: int, h: int, row: int, col: int) -> int {
    let north = dec_wrap(row, h);
    let south = inc_wrap(row, h);
    let west = dec_wrap(col, w);
    let east = inc_wrap(col, w);
    alive_one(g, w, north, west) + alive_one(g, w, north, col) + alive_one(g, w, north, east)
        + alive_one(g, w, row, west) + alive_one(g, w, row, east) + alive_one(g, w, south, west)
        + alive_one(g, w, south, col) + alive_one(g, w, south, east)
}

/// The rule table. A live cell dies of underpopulation with fewer than two
/// live neighbors, survives with two or three, and dies of overpopulation
/// with more than three; a dead cell comes alive by reproduction with
/// exactly three live neighbors and otherwise stays unchanged.
pub open spec fn next_cell(c: Cell, live_neighbors: int) -> Cell {
    match c {
        Cell::Alive => if live_neighbors < 2 {
            Cell::Dead
        } else if live_neighbors <= 3 {
            Cell::Alive
        } else {
            Cell::Dead
        },
        Cell::Dead => if live_neighbors == 3 {
            Cell::Alive
        } else {
            Cell::Dead
        },
    }
}

/// One synchronous generation of a width-w, height-h grid: every cell of
/// the result is the rule table applied to that cell and its neighbor count
/// in the one snapshot g, so the output depends on nothing but g.
pub open spec fn step_spec(g: Seq<Cell>, w: int, h: int) -> Seq<Cell> {
    Seq::new((w * h) as nat, |k: int| next_cell(g[k], neighbor_count(g, w, h, k / w, k % w)))
}

/// Toroidal wrap at the origin: the eight neighbors of cell (0, 0) are the
/// cells at (h-1, w-1), (h-1, 0), (h-1, 1), (0, w-1), (0, 1), (1, w-1),
/// (1, 0) and (1, 1) — the edges wrap around to the opposite side.
pub proof fn lemma_origin_neighbors_wrap(g: Seq<Cell>, w: int, h: int)
    requires
        3 <= w,
        3 <= h,
        g.len() == w * h,
    ensures
        neighbor_count(g, w, h, 0, 0) == alive_one(g, w, h - 1, w - 1) + alive_one(g, w, h - 1, 0)
            + alive_one(g, w, h - 1, 1) + alive_one(g, w, 0, w - 1) + alive_one(g, w, 0, 1)
            + alive_one(g, w, 1, w - 1) + alive_one(g, w, 1, 0) + alive_one(g, w, 1, 1),
{
}

/// A toroidal grid of cells, with a back buffer of the same shape used for
/// double-buffered generation steps.
pub struct Universe {
    pub width: u32,
    pub height: u32,
    pub cells: Vec<Cell>,
    pub back_cells: Vec<Cell>,
}

impl Universe {
    /// The dimensions are positive, every row-major index fits in `u32`, and
    /// both buffers hold exactly `width * height` cells.
    pub open spec fn wf(self) -> bool {
        &&& 1 <= self.width
        &&& 1 <= self.height
        &&& (self.width as int) * (self.height as int) <= u32::MAX as int
        &&& self.cells@.len() == (self.width as int) * (self.height as int)
        &&& self.back_cells@.len() == (self.width as int) * (self.height as int)
    }

    /// Number of cells in the grid.
    pub open spec fn area(self) -> int {
        (self.width as int) * (self.height as int)
    }

    /// Row-major index of an in-range coordinate pair.
    pub open spec fn spec_index_of(self, row: int, col: int) -> int {
        row * (self.width as int) + col
    }

    /// Row-major index of an arbitrary coordinate pair, with the row and
    /// column wrapped toroidally into range.
    pub open spec fn wrapped_index_of(self, row: int, col: int) -> int {
        (row % (self.height as int)) * (self.width as int) + col % (self.width as int)
    }

    /// Row-major index of an in-range coordinate pair.
    pub(crate) fn get_index(&self, row: u32, column: u32) -> (i: usize)
        requires
            self.wf(),
            row < self.height,
            column < self.width,
        ensures
            i as int == self.spec_index_of(row as int, column as int),
            i < self.cells@.len(),
    {
        proof {
            assert((row as int) * (self.width as int) + (column as int) < (self.width as int) * (
            self.height as int)) by (nonlinear_arith)
                requires
                    (row as int) < (self.height as int),
                    (column as int) < (self.width as int),
                    0 <= row as int,
                    0 <= column as int,
            ;
        }
        (row * self.width + column) as usize
    }

    /// Current width of the grid.
    pub fn width(&self) -> (w: u32)
        ensures
            w == self.width,
    {
        self.width
    }

    /// Current height of the grid.
    pub fn height(&self) -> (h: u32)
        ensures
            h == self.height,
    {
        self.height
    }

    /// State of the cell at the given coordinates. The row and column wrap
    /// toroidally, as in the neighbor logic, so every pair is accepted.
    pub fn cell_at(&self, row: u32, column: u32) -> (c: Cell)
        requires
            self.wf(),
        ensures
            c == self.cells@[self.wrapped_index_of(row as int, column as int)],
    {
        let r = row % self.height;
        let c = column % self.width;
        let idx = self.get_index(r, c);
        self.cells[idx]
    }

    /// Read-only view of the cell buffer, row-major.
    pub fn get_cells(&self) -> (cells: &[Cell])
        ensures
            cells@ == self.cells@,
    {
        self.cells.as_slice()
    }

    /// A fresh 64-by-64 universe holding the deterministic seed pattern.
    pub fn new() -> (u: Universe)
        ensures
            u.wf(),
            u.width == 64,
            u.height == 64,
            u.cells@.len() == 4096,
            forall|i: int| 0 <= i < u.cells@.len() ==> u.cells@[i] == seed_cell(i),
    {
        let mut cells: Vec<Cell> = Vec::new();
        let mut i: usize = 0;
        while i < 4096
            invariant
                i <= 4096,
                cells@.len() == i,
                forall|j: int| 0 <= j < i ==> cells@[j] == seed_cell(j),
            decreases 4096 - i,
        {
            let c = if i % 2 == 0 || i % 7 == 0 {
                Cell::Alive
            } else {
                Cell::Dead
            };
            cells.push(c);
            i += 1;
        }
        let back_cells = dead_cells(4096);
        Universe { width: 64, height: 64, cells, back_cells }
    }

    /// Cells built from a sequence of random draws supplied by the host, one
    /// per cell: alive exactly where the draw is true.
    pub fn get_random_cells(width: u32, height: u32, alive: &[bool]) -> (v: Vec<Cell>)
        requires
            alive@.len() == (width as int) * (height as int),
        ensures
            v@.len() == alive@.len(),
            forall|i: int|
                0 <= i < v@.len() ==> v@[i] == (if alive@[i] {
                    Cell::Alive
                } else {
                    Cell::Dead
                }),
    {
        let mut v: Vec<Cell> = Vec::new();
        let mut i: usize = 0;
        while i < alive.len()
            invariant
                alive@.len() == (width as int) * (height as int),
                i <= alive@.len(),
                v@.len() == i,
                forall|j: int|
                    0 <= j < i ==> v@[j] == (if alive@[j] {
                        Cell::Alive
                    } else {
                        Cell::Dead
                    }),
            decreases alive@.len() - i,
        {
            let c = if alive[i] {
                Cell::Alive
            } else {
                Cell::Dead
            };
            v.push(c);
            i += 1;
        }
        v
    }

    /// Replace every cell from a sequence of random draws supplied by the
    /// host, one per cell: alive exactly where the draw is true.
    pub fn random(&mut self, alive: &[bool])
        requires
            old(self).wf(),
            alive@.len() == old(self).area(),
        ensures
            final(self).wf(),
            final(self).width == old(self).width,
            final(self).height == old(self).height,
            final(self).back_cells@ == old(self).back_cells@,
            final(self).cells@.len() == old(self).cells@.len(),
            forall|i: int|
                0 <= i < final(self).cells@.len() ==> final(self).cells@[i] == (if alive@[i] {
                    Cell::Alive
                } else {
                    Cell::Dead
                }),
    {
        self.cells = Universe::get_random_cells(self.width, self.height, alive);
    }

    /// Set every cell to dead, keeping the dimensions.
    pub fn clear(&mut self)
        requires
            old(self).wf(),
        ensures
            final(self).wf(),
            final(self).width == old(self).width,
            final(self).height == old(self).height,
            final(self).back_cells@ == old(self).back_cells@,
            final(self).cells@.len() == old(self).cells@.len(),
            forall|i: int| 0 <= i < final(self).cells@.len() ==> final(self).cells@[i] == Cell::Dead,
    {
        let n = self.cells.len();
        self.cells = dead_cells(n);
    }

    /// Set the width and reset both buffers to all-dead cells of the new
    /// shape. Old cell contents are deliberately discarded.
    pub fn set_width(&mut self, width: u32)
        requires
            old(self).wf(),
            1 <= width,
            (width as int) * (old(self).height as int) <= u32::MAX as int,
        ensures
            final(self).wf(),
            final(self).width == width,
            final(self).height == old(self).height,
            final(self).cells@.len() == final(self).area(),
            forall|i: int| 0 <= i < final(self).cells@.len() ==> final(self).cells@[i] == Cell::Dead,
    {
        self.width = width;
        let n = (width * self.height) as usize;
        self.cells = dead_cells(n);
        self.back_cells = dead_cells(n);
    }

    /// Set the height and reset both buffers to all-dead cells of the new
    /// shape. Old cell contents are deliberately discarded.
    pub fn set_height(&mut self, height: u32)
        requires
            old(self).wf(),
            1 <= height,
            (old(self).width as int) * (height as int) <= u32::MAX as int,
        ensures
            final(self).wf(),
            final(self).width == old(self).width,
            final(self).height == height,
            final(self).cells@.len() == final(self).area(),
            forall|i: int| 0 <= i < final(self).cells@.len() ==> final(self).cells@[i] == Cell::Dead,
    {
        self.height = height;
        let n = (self.width * height) as usize;
        self.cells = dead_cells(n);
        self.back_cells = dead_cells(n);
    }

    /// The number of live cells among the eight toroidal neighbors of the
    /// in-range cell (row, column). Both the row and the column axis wrap.
    pub(crate) fn live_neighbor_count(&self, row: u32, column: u32) -> (n: u8)
        requires
            self.wf(),
            row < self.height,
            column < self.width,
        ensures
            n as int == neighbor_count(
                self.cells@,
                self.width as int,
                self.height as int,
                row as int,
                column as int,
            ),
    {
        let north = if row == 0 {
            self.height - 1
        } else {
            row - 1
        };
        let south = if row == self.height - 1 {
            0
        } else {
            row + 1
        };
        let west = if column == 0 {
            self.width - 1
        } else {
            column - 1
        };
        let east = if column == self.width - 1 {
            0
        } else {
            column + 1
        };

        let mut count: u8 = 0;
        let nw = self.get_index(north, west);
        if self.cells[nw] == Cell::Alive {
            count += 1;
        }
        let n_ = self.get_index(north, column);
        if self.cells[n_] == Cell::Alive {
            count += 1;
        }
        let ne = self.get_index(north, east);
        if self.cells[ne] == Cell::Alive {
            count += 1;
        }
        let w_ = self.get_index(row, west);
        if self.cells[w_] == Cell::Alive {
            count += 1;
        }
        let e_ = self.get_index(row, east);
        if self.cells[e_] == Cell::Alive {
            count += 1;
        }
        let sw = self.get_index(south, west);
        if self.cells[sw] == Cell::Alive {
            count += 1;
        }
        let s_ = self.get_index(south, column);
        if self.cells[s_] == Cell::Alive {
            count += 1;
        }
        let se = self.get_index(south, east);
        if self.cells[se] == Cell::Alive {
            count += 1;
        }
        count
    }

    /// Advance the grid one generation. Every cell of the new grid is the
    /// rule table applied to the old cell and its neighbor count in the old
    /// snapshot alone: the next states are written to the back buffer and
    /// the buffers are swapped only after the full pass.
    pub fn tick(&mut self)
        requires
            old(self).wf(),
        ensures
            final(self).wf(),
            final(self).width == old(self).width,
            final(self).height == old(self).height,
            final(self).cells@ == step_spec(
                old(self).cells@,
                old(self).width as int,
                old(self).height as int,
            ),
            forall|r: int, c: int|
                0 <= r < old(self).height as int && 0 <= c < old(self).width as int
                    ==> final(self).cells@[r * (old(self).width as int) + c] == next_cell(
                    old(self).cells@[r * (old(self).width as int) + c],
                    neighbor_count(
                        old(self).cells@,
                        old(self).width as int,
                        old(self).height as int,
                        r,
                        c,
                    ),
                ),
    {
        let w = self.width;
        let h = self.height;
        let ghost g0 = self.cells@;
        let ghost stepped = step_spec(g0, w as int, h as int);
        let mut row: u32 = 0;
        while row < h
            invariant
                self.wf(),
                self.width == w,
                self.height == h,
                self.cells@ == g0,
                stepped == step_spec(g0, w as int, h as int),
                row <= h,
                forall|k: int|
                    0 <= k < (row as int) * (w as int) ==> self.back_cells@[k] == stepped[k],
            decreases h - row,
        {
            let mut col: u32 = 0;
            while col < w
                invariant
                    self.wf(),
                    self.width == w,
                    self.height == h,
                    self.cells@ == g0,
                    stepped == step_spec(g0, w as int, h as int),
                    row < h,
                    col <= w,
                    forall|k: int|
                        0 <= k < (row as int) * (w as int) + col as int ==> self.back_cells@[k]
                            == stepped[k],
                decreases w - col,
            {
                let idx = self.get_index(row, col);
                let cell = self.cells[idx];
                let live_neighbors = self.live_neighbor_count(row, col);
                let next = if cell == Cell::Alive {
                    if live_neighbors < 2 {
                        Cell::Dead
                    } else if live_neighbors <= 3 {
                        Cell::Alive
                    } else {
                        Cell::Dead
                    }
                } else {
                    if live_neighbors == 3 {
                        Cell::Alive
                    } else {
                        Cell::Dead
                    }
                };
                proof {
                    lemma_fundamental_div_mod_converse(
                        idx as int,
                        w as int,
                        row as int,
                        col as int,
                    );
                    assert(next == stepped[idx as int]);
                }
                self.back_cells.set(idx, next);
                col += 1;
            }
            proof {
                assert((row as int) * (w as int) + (w as int) == (row as int + 1) * (w as int))
                    by (nonlinear_arith);
            }
            row += 1;
        }
        proof {
            assert(self.back_cells@ =~= stepped);
        }
        core::mem::swap(&mut self.cells, &mut self.back_cells);
        proof {
            assert forall|r: int, c: int|
                0 <= r < h as int && 0 <= c < w as int implies self.cells@[r * (w as int) + c]
                == next_cell(g0[r * (w as int) + c], neighbor_count(g0, w as int, h as int, r, c)) by {
                assert(r * (w as int) + c < (w as int) * (h as int)) by (nonlinear_arith)
                    requires
                        0 <= r < h as int,
                        0 <= c < w as int,
                ;
                assert(0 <= r * (w as int) + c) by (nonlinear_arith)
                    requires
                        0 <= r,
                        0 <= c,
                        0 <= w as int,
                ;
                lemma_fundamental_div_mod_converse(r * (w as int) + c, w as int, r, c);
            }
        }
    }

    /// Flip the cell at the given coordinates between dead and alive. The
    /// row and column wrap toroidally, so every coordinate pair is accepted.
    pub fn toggle_cell(&mut self, row: u32, column: u32)
        requires
            old(self).wf(),
        ensures
            final(self).wf(),
            final(self).width == old(self).width,
            final(self).height == old(self).height,
            final(self).back_cells@ == old(self).back_cells@,
            final(self).cells@ == old(self).cells@.update(
                old(self).wrapped_index_of(row as int, column as int),
                flipped(
                    old(self).cells@[old(self).wrapped_index_of(row as int, column as int)],
                ),
            ),
    {
        let r = row % self.height;
        let c = column % self.width;
        let idx = self.get_index(r, c);
        let mut cell = self.cells[idx];
        cell.toggle();
        self.cells.set(idx, cell);
    }

    /// Set the cell at each listed (row, column) pair to alive, leaving all
    /// other cells untouched. Coordinates wrap toroidally.
    pub fn set_cells(&mut self, cells: &[(u32, u32)])
        requires
            old(self).wf(),
        ensures
            final(self).wf(),
            final(self).width == old(self).width,
            final(self).height == old(self).height,
            final(self).back_cells@ == old(self).back_cells@,
            final(self).cells@.len() == old(self).cells@.len(),
            forall|k: int|
                0 <= k < final(self).cells@.len() ==> final(self).cells@[k] == (if (exists|i: int|
                    0 <= i < cells@.len() && old(self).wrapped_index_of(
                        cells@[i].0 as int,
                        cells@[i].1 as int,
                    ) == k) {
                    Cell::Alive
                } else {
                    old(self).cells@[k]
                }),
    {
        let ghost orig = *self;
        let mut i: usize = 0;
        while i < cells.len()
            invariant
                self.wf(),
                self.width == orig.width,
                self.height == orig.height,
                self.back_cells@ == orig.back_cells@,
                self.cells@.len() == orig.cells@.len(),
                i <= cells@.len(),
                forall|k: int|
                    0 <= k < self.cells@.len() ==> self.cells@[k] == (if (exists|j: int|
                        0 <= j < i && orig.wrapped_index_of(
                            cells@[j].0 as int,
                            cells@[j].1 as int,
                        ) == k) {
                        Cell::Alive
                    } else {
                        orig.cells@[k]
                    }),
            decreases cells@.len() - i,
        {
            let (row, col) = cells[i];
            let r = row % self.height;
            let c = col % self.width;
            let idx = self.get_index(r, c);
            self.cells.set(idx, Cell::Alive);
            proof {
                assert(orig.wrapped_index_of(cells@[i as int].0 as int, cells@[i as int].1 as int)
                    == idx as int);
                assert forall|k: int| 0 <= k < self.cells@.len() implies self.cells@[k] == (
                if (exists|j: int|
                    0 <= j < i + 1 && orig.wrapped_index_of(
                        cells@[j].0 as int,
                        cells@[j].1 as int,
                    ) == k) {
                    Cell::Alive
                } else {
                    orig.cells@[k]
                }) by {
                    if k != idx as int {
                        if exists|j: int|
                            0 <= j < i + 1 && orig.wrapped_index_of(
                                cells@[j].0 as int,
                                cells@[j].1 as int,
                            ) == k {
                            let j = choose|j: int|
                                0 <= j < i + 1 && orig.wrapped_index_of(
                                    cells@[j].0 as int,
                                    cells@[j].1 as int,
                                ) == k;
                            assert(j < i);
                        }
                    }
                }
            }
            i += 1;
        }
    }
}

} // verus!
