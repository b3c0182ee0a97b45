//! The level: its wall grid, where the player starts and wins, where
//! monsters spawn, and the boundary conditions of its world.

use vstd::prelude::*;
use crate::coords::{wrap_i64, GridCoord, WorldPos, SUBCELLS};
use crate::grid2d::{clamp_row, Grid2D, GridCellType, WallGridCell};

verus! {

/// A level of the game.
pub struct Level {
    pub player_start: (usize, usize),
    pub win_room: (usize, usize),
    pub grid: Grid2D<WallGridCell>,
    /// Cells in which a monster spawns when the level starts.
    pub mob_list: Vec<(i32, i32)>,
    /// Decorations: world position in sub-cell units and sprite index.
    pub flavor_sprites: Option<Vec<(i64, i64, usize)>>,
    /// The file that backs the level, if it has one.
    pub filename: Option<String>,
}

/// The cell that `pos` addresses in a world of the given size: the column
/// wraps around, the row is clamped to the first or last row.
pub open spec fn boundary_cell(pos: GridCoord, world_size: (usize, usize)) -> GridCoord {
    GridCoord {
        x: ((pos.x as int) % (world_size.0 as int)) as i32,
        y: clamp_row(pos.y as int, world_size.1 as int) as i32,
    }
}

/// Where a world position ends up in a world of the given size: `x` wraps
/// into `0 .. width`, `y` is clamped to `0 ..= height` (in cells).
pub open spec fn boundary_point(pos: WorldPos, world_size: (usize, usize)) -> WorldPos {
    let span = world_size.0 * SUBCELLS;
    let bottom = world_size.1 * SUBCELLS;
    WorldPos {
        x: ((pos.x as int) % span) as i64,
        y: (if pos.y < 0 {
            0
        } else if pos.y >= bottom {
            bottom
        } else {
            pos.y as int
        }) as i64,
    }
}

/// Applies the boundary conditions of the world to a cell coordinate:
/// wrap horizontally, clamp vertically.
pub fn apply_boundary_conditions_i32(pos: GridCoord, world_size: (usize, usize)) -> (r: GridCoord)
    requires
        0 < world_size.0 <= i32::MAX,
        0 < world_size.1 <= i32::MAX,
    ensures
        r == boundary_cell(pos, world_size),
        0 <= r.x < world_size.0,
        0 <= r.y < world_size.1,
        r.x == (pos.x as int) % (world_size.0 as int),
        r.y == clamp_row(pos.y as int, world_size.1 as int),
{
    let w: i64 = world_size.0 as i64;
    let h: i64 = world_size.1 as i64;
    let nx: i64 = wrap_i64(pos.x as i64, w);
    let ny: i64 = if pos.y < 0 {
        0
    } else if pos.y as i64 >= h {
        h - 1
    } else {
        pos.y as i64
    };
    GridCoord { x: nx as i32, y: ny as i32 }
}

/// Applies the boundary conditions of the world to a world position: wrap
/// horizontally, clamp vertically.
pub fn apply_boundary_conditions_world(pos: WorldPos, world_size: (usize, usize)) -> (r: WorldPos)
    requires
        0 < world_size.0 <= i32::MAX,
        0 < world_size.1 <= i32::MAX,
    ensures
        r == boundary_point(pos, world_size),
        0 <= r.x < world_size.0 * SUBCELLS,
        0 <= r.y <= world_size.1 * SUBCELLS,
        r.in_cell_range(),
{
    let span: i64 = (world_size.0 as i64) * SUBCELLS;
    let bottom: i64 = (world_size.1 as i64) * SUBCELLS;
    let nx: i64 = wrap_i64(pos.x, span);
    let ny: i64 = if pos.y < 0 {
        0
    } else if pos.y >= bottom {
        bottom
    } else {
        pos.y
    };
    WorldPos { x: nx, y: ny }
}

/// After the boundary conditions a lookup always finds a cell: the one
/// that a read at `pos` gives, in the wrapped column of the row that
/// `pos.y` clamps to, which is the first row above the grid and the last
/// row below it.
pub proof fn lemma_boundary_cell_lookup<T>(grid: &Grid2D<T>, pos: GridCoord)
    requires
        grid.wf(),
    ensures
        ({
            let size = (grid.width() as usize, grid.height() as usize);
            let r = boundary_cell(pos, size);
            &&& grid.in_rows(r.y as int)
            &&& grid.lookup(r.x as int, r.y as int) == Some(
                grid.at(pos.x as int, clamp_row(pos.y as int, grid.height() as int)),
            )
            &&& grid.lookup(r.x as int, r.y as int) == Some(grid.read(pos.x as int, pos.y as int))
            &&& pos.y < 0 ==> r.y == 0
            &&& pos.y >= grid.height() ==> r.y == grid.height() - 1
            &&& grid.in_rows(pos.y as int) ==> grid.lookup(r.x as int, r.y as int) == grid.lookup(
                pos.x as int,
                pos.y as int,
            )
        }),
{
    let w = grid.width() as int;
    let c = (pos.x as int) % w;
    assert(0 <= c < w);
    vstd::arithmetic::div_mod::lemma_small_mod(c as nat, w as nat);
}

/// Converts unsigned cell coordinates to signed ones.
pub fn ucoords_to_icoords(x: (usize, usize)) -> (r: (i32, i32))
    ensures
        r.0 == x.0 as i32,
        r.1 == x.1 as i32,
        x.0 <= i32::MAX ==> r.0 == x.0,
        x.1 <= i32::MAX ==> r.1 == x.1,
{
    (#[verifier::truncate] (x.0 as i32), #[verifier::truncate] (x.1 as i32))
}

/// World position of the centre of a cell, moved by an offset in sub-cell
/// units.
pub fn world_space_centered_coord(pos: (i32, i32), x_off: i64, y_off: i64) -> (r: WorldPos)
    requires
        -SUBCELLS <= x_off <= SUBCELLS,
        -SUBCELLS <= y_off <= SUBCELLS,
    ensures
        r.x == pos.0 * SUBCELLS + SUBCELLS / 2 + x_off,
        r.y == pos.1 * SUBCELLS + SUBCELLS / 2 + y_off,
{
    WorldPos {
        x: (pos.0 as i64) * SUBCELLS + SUBCELLS / 2 + x_off,
        y: (pos.1 as i64) * SUBCELLS + SUBCELLS / 2 + y_off,
    }
}

impl Level {
    /// The grid is well formed, and the player's start and the win room are
    /// cells of it.
    pub open spec fn wf(&self) -> bool {
        &&& self.grid.wf()
        &&& self.player_start.0 < self.grid.width()
        &&& self.player_start.1 < self.grid.height()
        &&& self.win_room.0 < self.grid.width()
        &&& self.win_room.1 < self.grid.height()
    }

    /// An empty level of the given size: no walls, no monsters, no
    /// decorations, the player starting in cell (8, 8) and winning in the
    /// top row a quarter of the way across.
    pub fn new(level_name: Option<&str>, world_width: usize, world_height: usize) -> (level: Level)
        requires
            0 < world_width <= i32::MAX,
            0 < world_height <= i32::MAX,
            world_width * world_height <= usize::MAX,
        ensures
            level.grid.wf(),
            level.grid.width() == world_width,
            level.grid.height() == world_height,
            level.grid.is_zeroed(),
            level.player_start == (8usize, 8usize),
            level.win_room == ((world_width / 4) as usize, 0usize),
            level.mob_list@.len() == 0,
            level.flavor_sprites is None,
            level_name is None <==> level.filename is None,
            level_name matches Some(n) ==> level.filename.unwrap()@ == n@,
            level.wf() <==> world_width > 8 && world_height > 8,
    {
        let grid: Grid2D<WallGridCell> = Grid2D::new(world_width, world_height);
        let filename: Option<String> = match level_name {
            Some(s) => Some(s.to_owned()),
            None => None,
        };
        Level {
            player_start: (8, 8),
            win_room: (world_width / 4, 0),
            grid,
            filename,
            mob_list: Vec::new(),
            flavor_sprites: None,
        }
    }

    /// `pos` is solid: a wall, or a row outside the grid.
    pub open spec fn solid_at(&self, x: int, y: int) -> bool {
        self.grid.in_rows(y) ==> self.grid.at(x, y) == GridCellType::Wall
    }

    /// `pos` is a wall cell of the grid.
    pub open spec fn wall_at(&self, x: int, y: int) -> bool {
        self.grid.in_rows(y) && self.grid.at(x, y) == GridCellType::Wall
    }
}

/// The explored part of a level: a grid in which visited cells are marked.
pub struct PlayerMap {
    grid: Grid2D<WallGridCell>,
}

impl PlayerMap {
    /// The grid of marks; a visited cell holds `Wall`.
    pub closed spec fn marks(&self) -> Grid2D<WallGridCell> {
        self.grid
    }

    /// A map of the given size without marks.
    pub fn new(world_size: (usize, usize)) -> (map: PlayerMap)
        requires
            0 < world_size.0 <= i32::MAX,
            0 < world_size.1 <= i32::MAX,
            world_size.0 * world_size.1 <= usize::MAX,
        ensures
            map.marks().wf(),
            map.marks().width() == world_size.0,
            map.marks().height() == world_size.1,
            forall|i: int|
                0 <= i < map.marks().cells().len() ==> #[trigger] map.marks().cells()[i]
                    == GridCellType::Empty,
    {
        let mut x: Grid2D<WallGridCell> = Grid2D::new(world_size.0, world_size.1);
        x.zero();
        PlayerMap { grid: x }
    }

    /// Marks the cell at `pos` as visited. A row outside the map is ignored.
    pub fn add_marker(&mut self, pos: GridCoord)
        requires
            old(self).marks().wf(),
        ensures
            final(self).marks().wf(),
            final(self).marks().width() == old(self).marks().width(),
            final(self).marks().height() == old(self).marks().height(),
            old(self).marks().in_rows(pos.y as int) ==> final(self).marks().cells() == old(
                self,
            ).marks().cells().update(
                old(self).marks().index_of(pos.x as int, pos.y as int),
                GridCellType::Wall,
            ),
            !old(self).marks().in_rows(pos.y as int) ==> final(self).marks().cells() == old(
                self,
            ).marks().cells(),
    {
        let _ = self.grid.set_in_rows(pos, GridCellType::Wall);
    }

    /// The grid of marks.
    pub fn get_grid(&self) -> (grid: &Grid2D<WallGridCell>)
        ensures
            *grid == self.marks(),
    {
        &self.grid
    }
}

} // verus!
