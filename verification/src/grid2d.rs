//! A fixed-size rectangular grid that wraps horizontally and is bounded
//! vertically: a read or a write above the first row or below the last
//! goes to the first or the last.

use vstd::prelude::*;
use crate::coords::GridCoord;

verus! {

/// What a cell of the wall grid holds.
#[derive(Clone, Copy, PartialEq, Eq, Structural, Debug)]
pub enum GridCellType {
    Empty,
    Wall,
}

impl Default for GridCellType {
    fn default() -> (r: GridCellType)
        ensures
            r == GridCellType::Empty,
    {
        GridCellType::Empty
    }
}

/// The cell type of the wall grid.
pub type WallGridCell = GridCellType;

/// A cell of a ray-castable grid.
#[derive(Clone, Copy, PartialEq, Eq, Structural, Debug)]
pub struct RayGridCell {
    pub cell_type: GridCellType,
}

impl Default for RayGridCell {
    fn default() -> (r: RayGridCell)
        ensures
            r.cell_type == GridCellType::Empty,
    {
        RayGridCell { cell_type: GridCellType::Empty }
    }
}

/// The remainder of a negative number: `-b` lies as far below a multiple of
/// `w` as `b` lies above one.
pub proof fn lemma_mod_of_negative(b: int, w: int)
    requires
        w > 0,
    ensures
        (-b) % w == (if b % w == 0 {
            0
        } else {
            w - b % w
        }),
{
    let q = b / w;
    let r = b % w;
    vstd::arithmetic::div_mod::lemma_fundamental_div_mod(b, w);
    if r == 0 {
        assert(-b == (-q) * w + 0) by (nonlinear_arith)
            requires
                b == w * q + r,
                r == 0,
        ;
        vstd::arithmetic::div_mod::lemma_fundamental_div_mod_converse(-b, w, -q, 0);
    } else {
        assert(-b == (-q - 1) * w + (w - r)) by (nonlinear_arith)
            requires
                b == w * q + r,
        ;
        vstd::arithmetic::div_mod::lemma_fundamental_div_mod_converse(-b, w, -q - 1, w - r);
    }
}

/// Where `y` ends up after clamping to the rows `0 ..= height - 1`.
pub open spec fn clamp_row(y: int, height: int) -> int {
    if y < 0 {
        0
    } else if y >= height {
        height - 1
    } else {
        y
    }
}

/// Row-major grid of `width * height` cells.
pub struct Grid2D<T> {
    width: usize,
    height: usize,
    cells: Vec<T>,
}

impl<T> Grid2D<T> {
    /// Number of columns.
    pub closed spec fn width(&self) -> nat {
        self.width as nat
    }

    /// Number of rows.
    pub closed spec fn height(&self) -> nat {
        self.height as nat
    }

    /// The cells in row-major order.
    pub closed spec fn cells(&self) -> Seq<T> {
        self.cells@
    }

    /// The grid is not empty, every cell has `i32` coordinates, and there
    /// are exactly `width * height` cells.
    pub open spec fn wf(&self) -> bool {
        &&& 0 < self.width() <= i32::MAX
        &&& 0 < self.height() <= i32::MAX
        &&& self.cells().len() == self.width() * self.height()
    }

    /// Row `y` exists.
    pub open spec fn in_rows(&self, y: int) -> bool {
        0 <= y < self.height()
    }

    /// Column that `x` falls on after wrapping around the horizontal seam.
    pub open spec fn wrap_x(&self, x: int) -> int {
        x % (self.width() as int)
    }

    /// Position in `cells()` of the cell that `(x, y)` addresses.
    pub open spec fn index_of(&self, x: int, y: int) -> int {
        y * self.width() + self.wrap_x(x)
    }

    /// The cell that `(x, y)` addresses, for a row that exists.
    pub open spec fn at(&self, x: int, y: int) -> T
        recommends
            self.wf(),
            self.in_rows(y),
    {
        self.cells()[self.index_of(x, y)]
    }

    /// The row that `y` falls on after clamping to the rows of the grid.
    pub open spec fn clamp_row(&self, y: int) -> int {
        clamp_row(y, self.height() as int)
    }

    /// The cell that a read at `(x, y)` gives: the column wraps around and
    /// the row is clamped.
    pub open spec fn read(&self, x: int, y: int) -> T
        recommends
            self.wf(),
    {
        self.at(x, self.clamp_row(y))
    }

    /// The cell that `(x, y)` addresses, or `None` above the first and below
    /// the last row.
    pub open spec fn lookup(&self, x: int, y: int) -> Option<T> {
        if self.in_rows(y) {
            Some(self.at(x, y))
        } else {
            None
        }
    }

    /// Every addressable cell has its place in `cells()`.
    pub proof fn lemma_index_in_bounds(&self, x: int, y: int)
        requires
            self.wf(),
            self.in_rows(y),
        ensures
            0 <= self.wrap_x(x) < self.width(),
            0 <= self.index_of(x, y) < self.cells().len(),
    {
        let w = self.width() as int;
        let h = self.height() as int;
        let c = x % w;
        assert(0 <= c < w);
        assert(0 <= y * w + c < h * w) by (nonlinear_arith)
            requires
                0 <= y < h,
                0 <= c < w,
        ;
        assert(h * w == w * h) by (nonlinear_arith);
    }

    /// Different cells have different places: two coordinates with the same
    /// place are in the same row and wrap to the same column.
    pub proof fn lemma_index_injective(&self, x1: int, y1: int, x2: int, y2: int)
        requires
            self.wf(),
            self.in_rows(y1),
            self.in_rows(y2),
            self.index_of(x1, y1) == self.index_of(x2, y2),
        ensures
            y1 == y2,
            self.wrap_x(x1) == self.wrap_x(x2),
            0 <= x1 < self.width() && 0 <= x2 < self.width() ==> x1 == x2,
    {
        let w = self.width() as int;
        let c1 = x1 % w;
        let c2 = x2 % w;
        assert(y1 == y2) by (nonlinear_arith)
            requires
                y1 * w + c1 == y2 * w + c2,
                0 <= c1 < w,
                0 <= c2 < w,
        ;
        if 0 <= x1 < w && 0 <= x2 < w {
            vstd::arithmetic::div_mod::lemma_small_mod(x1 as nat, w as nat);
            vstd::arithmetic::div_mod::lemma_small_mod(x2 as nat, w as nat);
        }
    }

    /// Every cell holds a value that `T::default()` may return.
    pub open spec fn is_zeroed(&self) -> bool where T: Default {
        forall|i: int|
            0 <= i < self.cells().len() ==> call_ensures(T::default, (), #[trigger] self.cells()[i])
    }

    /// A grid of `width` columns and `height` rows in which every cell holds
    /// the default value.
    pub fn new(width: usize, height: usize) -> (grid: Self) where T: Default
        requires
            0 < width <= i32::MAX,
            0 < height <= i32::MAX,
            width * height <= usize::MAX,
        ensures
            grid.wf(),
            grid.width() == width,
            grid.height() == height,
            grid.is_zeroed(),
    {
        let mut grid = Grid2D { width, height, cells: Vec::new() };
        grid.fill_default();
        grid
    }

    /// Replaces the cells by `width * height` default values.
    fn fill_default(&mut self) where T: Default
        requires
            0 < old(self).width() <= i32::MAX,
            0 < old(self).height() <= i32::MAX,
            old(self).width() * old(self).height() <= usize::MAX,
        ensures
            final(self).wf(),
            final(self).width() == old(self).width(),
            final(self).height() == old(self).height(),
            final(self).is_zeroed(),
    {
        let n: usize = self.width * self.height;
        self.cells = Vec::new();
        let mut i: usize = 0;
        while i < n
            invariant
                i <= n,
                n == self.width * self.height,
                self.width == old(self).width,
                self.height == old(self).height,
                self.cells@.len() == i,
                forall|j: int| 0 <= j < i ==> call_ensures(T::default, (), #[trigger] self.cells@[j]),
            decreases n - i,
        {
            self.cells.push(T::default());
            i += 1;
        }
    }

    /// Resets every cell to the default value.
    pub fn zero(&mut self) where T: Default
        requires
            old(self).wf(),
        ensures
            final(self).wf(),
            final(self).width() == old(self).width(),
            final(self).height() == old(self).height(),
            final(self).is_zeroed(),
    {
        proof {
            assert(self.cells@.len() == self.cells.len());
        }
        self.fill_default();
    }

    /// Wraparound: a full turn around the seam in either direction
    /// addresses the same cell, in every row, and reads the same cell.
    pub proof fn lemma_lookup_wraps(&self, x: int, y: int)
        requires
            self.wf(),
        ensures
            self.wrap_x(x + self.width()) == self.wrap_x(x),
            self.wrap_x(x - self.width()) == self.wrap_x(x),
            self.lookup(x + self.width(), y) == self.lookup(x, y),
            self.lookup(x - self.width(), y) == self.lookup(x, y),
            self.read(x + self.width(), y) == self.read(x, y),
            self.read(x - self.width(), y) == self.read(x, y),
    {
        let w = self.width() as int;
        vstd::arithmetic::div_mod::lemma_mod_add_multiples_vanish(x, w);
        vstd::arithmetic::div_mod::lemma_mod_sub_multiples_vanish(x, w);
    }

    /// Clamping: a read in a row of the grid gives the cell there, a read
    /// above the first row gives the cell of the first row, and a read
    /// below the last row gives the cell of the last.
    pub proof fn lemma_read_clamps(&self, x: int, y: int)
        requires
            self.wf(),
        ensures
            self.in_rows(y) ==> self.read(x, y) == self.at(x, y),
            y < 0 ==> self.read(x, y) == self.read(x, 0),
            y >= self.height() ==> self.read(x, y) == self.read(x, self.height() - 1),
            self.in_rows(self.clamp_row(y)),
    {
    }

    pub fn get_size(&self) -> (size: (usize, usize))
        ensures
            size.0 == self.width(),
            size.1 == self.height(),
    {
        (self.width, self.height)
    }

    pub fn get_cells(&self) -> (cells: &Vec<T>)
        ensures
            cells@ == self.cells(),
    {
        &self.cells
    }

    /// Builds a grid from its cells in row-major order, or nothing if a
    /// dimension is zero or too large for `i32` coordinates, or if the
    /// dimensions do not match the number of cells.
    pub fn from_cells(width: usize, height: usize, cells: Vec<T>) -> (grid: Option<Self>)
        ensures
            grid is Some <==> 0 < width <= i32::MAX && 0 < height <= i32::MAX && cells@.len()
                == width * height,
            grid matches Some(g) ==> g.wf() && g.width() == width && g.height() == height
                && g.cells() == cells@,
    {
        if width == 0 || height == 0 || width > 0x7fff_ffff || height > 0x7fff_ffff {
            return None;
        }
        let len: usize = cells.len();
        match width.checked_mul(height) {
            Some(n) => {
                if len == n {
                    Some(Grid2D { width, height, cells })
                } else {
                    None
                }
            },
            None => {
                None
            },
        }
    }

    /// Column index of `x` after wrapping.
    fn wrapped_column(&self, x: i32) -> (c: usize)
        requires
            self.width() > 0,
        ensures
            c == self.wrap_x(x as int),
            c < self.width(),
    {
        if x >= 0 {
            (x as usize) % self.width
        } else {
            let back: u64 = (-(x as i64)) as u64;
            let w: u64 = self.width as u64;
            let r: u64 = back % w;
            proof {
                lemma_mod_of_negative(back as int, w as int);
            }
            if r == 0 {
                0
            } else {
                (w - r) as usize
            }
        }
    }

    /// Row `y` is a row of the grid.
    pub fn has_row(&self, y: i32) -> (b: bool)
        ensures
            b == self.in_rows(y as int),
    {
        y >= 0 && ((y as u32) as u64) < self.height as u64
    }

    /// Row index of `y` after clamping.
    fn clamped_row(&self, y: i32) -> (r: usize)
        requires
            self.height() > 0,
        ensures
            r == self.clamp_row(y as int),
            r < self.height(),
    {
        if y < 0 {
            0
        } else if (y as u32) as u64 >= self.height as u64 {
            self.height - 1
        } else {
            y as usize
        }
    }

    /// Reads the cell at `pos`: the column wraps around, and a row above
    /// the first or below the last reads the first or the last.
    pub fn get_cell_at_grid_coords_int(&self, pos: GridCoord) -> (cell: Option<&T>)
        requires
            self.wf(),
        ensures
            cell is Some,
            *cell->Some_0 == self.read(pos.x as int, pos.y as int),
    {
        let x: usize = self.wrapped_column(pos.x);
        let y: usize = self.clamped_row(pos.y);
        proof {
            self.lemma_index_in_bounds(pos.x as int, y as int);
            assert(self.cells@.len() == self.cells.len());
            assert(y * self.width + x == self.index_of(pos.x as int, y as int));
        }
        Some(&self.cells[y * self.width + x])
    }

    /// Reads the cell at `pos` if its row is a row of the grid: the column
    /// wraps around, and outside the rows there is nothing.
    pub fn get_in_rows(&self, pos: GridCoord) -> (cell: Option<&T>)
        requires
            self.wf(),
        ensures
            cell is Some <==> self.in_rows(pos.y as int),
            cell matches Some(c) ==> *c == self.at(pos.x as int, pos.y as int),
    {
        if self.has_row(pos.y) {
            self.get_cell_at_grid_coords_int(pos)
        } else {
            None
        }
    }

    /// Writes `val` into the cell at `pos`, the cell that
    /// `get_cell_at_grid_coords_int` reads there.
    pub fn set_cell_at_grid_coords_int(&mut self, pos: GridCoord, val: T) -> (done: Option<()>)
        requires
            old(self).wf(),
        ensures
            final(self).wf(),
            final(self).width() == old(self).width(),
            final(self).height() == old(self).height(),
            done is Some,
            final(self).cells() == old(self).cells().update(
                old(self).index_of(pos.x as int, old(self).clamp_row(pos.y as int)),
                val,
            ),
    {
        let x: usize = self.wrapped_column(pos.x);
        let y: usize = self.clamped_row(pos.y);
        proof {
            self.lemma_index_in_bounds(pos.x as int, y as int);
            assert(self.cells@.len() == self.cells.len());
            assert(y * self.width + x == self.index_of(pos.x as int, y as int));
        }
        let i: usize = y * self.width + x;
        self.cells[i] = val;
        Some(())
    }

    /// Writes `val` into the cell at `pos` if its row is a row of the grid.
    /// A row outside the grid is left alone and reported as `None`.
    pub fn set_in_rows(&mut self, pos: GridCoord, val: T) -> (done: Option<()>)
        requires
            old(self).wf(),
        ensures
            final(self).wf(),
            final(self).width() == old(self).width(),
            final(self).height() == old(self).height(),
            done is Some <==> old(self).in_rows(pos.y as int),
            done is Some ==> final(self).cells() == old(self).cells().update(
                old(self).index_of(pos.x as int, pos.y as int),
                val,
            ),
            done is None ==> final(self).cells() == old(self).cells(),
    {
        if self.has_row(pos.y) {
            self.set_cell_at_grid_coords_int(pos, val)
        } else {
            None
        }
    }
}

} // verus!
