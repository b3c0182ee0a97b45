//! Line of sight between an entity and a target, through a grid and across
//! the horizontal seam of the world.

use vstd::prelude::*;
use crate::coords::{GridCoord, WorldPos, SUBCELLS};
use crate::grid2d::Grid2D;
use crate::level::{apply_boundary_conditions_world, boundary_point};
use crate::mob::{MobData, MONSTER_LINE_OF_SIGHT};
use crate::raycaster::{cast_ray, lemma_mul_bound, ray_cast, RayCell, ORIGIN_LIMIT, RAY_LIMIT};

verus! {

/// How much nearer than the target the end of the sight ray may be for the
/// target still to count as seen, in sub-cell units: a fifth of a cell.
pub const SIGHT_FUDGE: i64 = 13107;

/// Widest world across whose seam sight is decided, in cells. The vector
/// to the image of a target across the seam can be two widths of the world
/// long, and a ray follows no vector longer than `RAY_LIMIT`: this is the
/// width at which the two are the same.
pub const SIGHT_WORLD_WIDTH: usize = 8192;

/// Highest world in which sight across the seam is decided, in cells.
/// Sight alone could do with twice this: it is the height at which the
/// bottom of the world is `SPRITE_WORLD_LIMIT` down, the farthest that a
/// billboard can stand, so that one limit serves sight and billboards.
pub const SIGHT_WORLD_HEIGHT: usize = 8192;

/// Where the limits on the size of the world come from: the width from the
/// longest vector of a ray, the height from the farthest place of a
/// billboard.
pub proof fn lemma_world_limits()
    ensures
        2 * SIGHT_WORLD_WIDTH * SUBCELLS == RAY_LIMIT,
        SIGHT_WORLD_HEIGHT * SUBCELLS == crate::sprites::SPRITE_WORLD_LIMIT,
{
}

/// Square of the distance between two points.
pub open spec fn dist2(a: WorldPos, b: WorldPos) -> int {
    (a.x - b.x) * (a.x - b.x) + (a.y - b.y) * (a.y - b.y)
}

/// Whether `sqrt(far2) - sqrt(near2) < margin`, decided without roots: with
/// `l = far2 - near2 - margin^2` the inequality is `l < 2 * margin *
/// sqrt(near2)`, which holds if `l` is negative or if the squares compare
/// that way.
pub open spec fn roots_within(far2: int, near2: int, margin: int) -> bool {
    let l = far2 - near2 - margin * margin;
    l < 0 || l * l < 4 * (margin * margin) * near2
}

/// For distances that are whole numbers `roots_within` holds just if the far
/// one is less than `margin` beyond the near one.
pub proof fn lemma_roots_within(far: int, near: int, margin: int)
    requires
        0 <= near,
        0 <= far,
        0 < margin,
    ensures
        roots_within(far * far, near * near, margin) <==> far - near < margin,
{
    let l = far * far - near * near - margin * margin;
    let bound = 2 * margin * near;
    assert(4 * (margin * margin) * (near * near) == bound * bound) by (nonlinear_arith)
        requires
            bound == 2 * margin * near,
    ;
    assert(bound >= 0) by (nonlinear_arith)
        requires
            bound == 2 * margin * near,
            near >= 0,
            margin > 0,
    ;
    // far < near + margin  <==>  far^2 < near^2 + 2 margin near + margin^2  <==>  l < bound
    assert((far < near + margin) <==> (l < bound)) by (nonlinear_arith)
        requires
            l == far * far - near * near - margin * margin,
            bound == 2 * margin * near,
            0 <= near,
            0 <= far,
            0 < margin,
    ;
    if l >= 0 {
        assert((l < bound) <==> (l * l < bound * bound)) by (nonlinear_arith)
            requires
                l >= 0,
                bound >= 0,
        ;
    }
}

/// The centre of a cell.
pub open spec fn center(c: GridCoord) -> WorldPos {
    WorldPos {
        x: (c.x * SUBCELLS + SUBCELLS / 2) as i64,
        y: (c.y * SUBCELLS + SUBCELLS / 2) as i64,
    }
}

/// Whether a target counts as seen from `pos` when the sight ray ended in
/// the cell `end`: the centre of that cell is farther away than the target,
/// or nearer by less than `SIGHT_FUDGE`.
pub open spec fn sight_clear(pos: WorldPos, target: WorldPos, end: GridCoord) -> bool {
    let reach2 = dist2(center(end), pos);
    let sight2 = dist2(target, pos);
    reach2 > sight2 || roots_within(sight2, reach2, SIGHT_FUDGE as int)
}

/// A line of sight that can be decided without overflow: the eye is in the
/// quadrant of non-negative coordinates, the target is somewhere else and
/// not too far.
pub open spec fn sight_in_range(pos: WorldPos, target: WorldPos) -> bool {
    &&& 0 <= pos.x <= ORIGIN_LIMIT
    &&& 0 <= pos.y <= ORIGIN_LIMIT
    &&& -RAY_LIMIT <= target.x - pos.x <= RAY_LIMIT
    &&& -RAY_LIMIT <= target.y - pos.y <= RAY_LIMIT
    &&& target != pos
}

/// The vector from `from` to `to`.
pub open spec fn toward(from: WorldPos, to: WorldPos) -> WorldPos {
    WorldPos { x: (to.x - from.x) as i64, y: (to.y - from.y) as i64 }
}

/// What `has_line_of_sight` answers from `pos` for `target`: the cell in
/// which the sight ray ends, if the target counts as seen.
pub open spec fn line_of_sight<T: RayCell>(pos: WorldPos, target: WorldPos, grid: &Grid2D<T>) -> Option<
    GridCoord,
> {
    let end = ray_cast(grid, pos, toward(pos, target), MONSTER_LINE_OF_SIGHT as int).3;
    if sight_clear(pos, target, end) {
        Some(end)
    } else {
        None
    }
}

/// The image of a target across the seam, on the other side of an eye at
/// `pos`: one world width to the left of a target to the right, one world
/// width to the right of any other.
pub open spec fn seam_image(pos: WorldPos, target: WorldPos, width: int) -> WorldPos {
    if pos.x < target.x {
        WorldPos { x: (target.x - width * SUBCELLS) as i64, y: target.y }
    } else {
        WorldPos { x: (target.x + width * SUBCELLS) as i64, y: target.y }
    }
}

/// The better of two lines of sight, each the cell that the sight ray
/// ended in and the vector it was cast along: the only one, or the one
/// whose end cell has the nearer corner, the right one if both are as near.
pub open spec fn nearer_sight(
    pos: WorldPos,
    left: Option<(GridCoord, WorldPos)>,
    right: Option<(GridCoord, WorldPos)>,
) -> Option<(GridCoord, WorldPos)> {
    match (left, right) {
        (_, None) => left,
        (None, Some(_)) => right,
        (Some(l), Some(r)) => {
            if dist2(corner(l.0), pos) < dist2(corner(r.0), pos) {
                left
            } else {
                right
            }
        },
    }
}

/// The corner of a cell with the smallest coordinates.
pub open spec fn corner(c: GridCoord) -> WorldPos {
    WorldPos { x: (c.x * SUBCELLS) as i64, y: (c.y * SUBCELLS) as i64 }
}

/// A line of sight together with the vector along which it was cast.
pub open spec fn sight_along<T: RayCell>(pos: WorldPos, target: WorldPos, grid: &Grid2D<T>) -> Option<
    (GridCoord, WorldPos),
> {
    match line_of_sight(pos, target, grid) {
        Some(end) => Some((end, toward(pos, target))),
        None => None,
    }
}

/// What `has_line_of_sight_with_bc` answers from `pos` for `target` in the
/// world of the grid: the better of the line of sight to the target and the
/// one to its image across the seam.
pub open spec fn line_of_sight_across<T: RayCell>(
    pos: WorldPos,
    target: WorldPos,
    grid: &Grid2D<T>,
) -> Option<(GridCoord, WorldPos)> {
    let image = seam_image(pos, target, grid.width() as int);
    if pos.x < target.x {
        nearer_sight(pos, sight_along(pos, image, grid), sight_along(pos, target, grid))
    } else {
        nearer_sight(pos, sight_along(pos, target, grid), sight_along(pos, image, grid))
    }
}

impl MobData {
    /// Whether the entity sees `target` through the grid: casts a ray
    /// towards the target, as far as `MONSTER_LINE_OF_SIGHT`, and returns
    /// the cell in which the ray ended if the target counts as seen from
    /// there, nothing if something is in the way.
    pub fn has_line_of_sight<T: RayCell>(&self, target: WorldPos, grid: &Grid2D<T>) -> (seen: Option<
        GridCoord,
    >)
        requires
            grid.wf(),
            sight_in_range(self.pos, target),
        ensures
            seen == line_of_sight(self.pos, target, grid),
            seen matches Some(c) ==> -0x20_0000 <= c.x * SUBCELLS - self.pos.x <= 0x20_0000
                && -0x20_0000 <= c.y * SUBCELLS - self.pos.y <= 0x20_0000,
    {
        let f: i64 = SUBCELLS;
        let sight = WorldPos { x: target.x - self.pos.x, y: target.y - self.pos.y };
        let (_, _, _, coord) = cast_ray(grid, &self.pos, &sight, MONSTER_LINE_OF_SIGHT);
        let hx: i64 = (coord.x as i64) * f + f / 2 - self.pos.x;
        let hy: i64 = (coord.y as i64) * f + f / 2 - self.pos.y;
        proof {
            lemma_square_bound(hx as int, 0x20_0000);
            lemma_square_bound(hy as int, 0x20_0000);
            lemma_square_bound(sight.x as int, RAY_LIMIT as int);
            lemma_square_bound(sight.y as int, RAY_LIMIT as int);
        }
        let reach2: i128 = (hx * hx + hy * hy) as i128;
        let sight2: i128 = (sight.x * sight.x + sight.y * sight.y) as i128;
        let has_los: bool = if reach2 <= sight2 {
            let margin2: i128 = (SIGHT_FUDGE * SIGHT_FUDGE) as i128;
            let l: i128 = sight2 - reach2 - margin2;
            if l < 0 {
                true
            } else {
                proof {
                    lemma_mul_bound(l as int, l as int, 2 * (RAY_LIMIT * RAY_LIMIT), 2 * (RAY_LIMIT * RAY_LIMIT));
                    lemma_mul_bound(4 * margin2 as int, reach2 as int, 4 * (SIGHT_FUDGE * SIGHT_FUDGE), 2 * (0x20_0000int * 0x20_0000int));
                }
                l * l < 4 * margin2 * reach2
            }
        } else {
            true
        };
        if has_los {
            Some(coord)
        } else {
            None
        }
    }

    /// Whether the entity sees `target` in a world that wraps around:
    /// looks towards the target and towards its image across the seam, and
    /// of the lines of sight it finds returns the better one, as the cell
    /// in which the sight ray ended and the vector along which it was
    /// cast.
    pub fn has_line_of_sight_with_bc<T: RayCell>(&self, target: WorldPos, grid: &Grid2D<T>) -> (seen:
        Option<(GridCoord, WorldPos)>)
        requires
            grid.wf(),
            grid.width() <= SIGHT_WORLD_WIDTH,
            grid.height() <= SIGHT_WORLD_HEIGHT,
            0 <= self.pos.x < grid.width() * SUBCELLS,
            0 <= self.pos.y <= grid.height() * SUBCELLS,
            boundary_point(target, (grid.width() as usize, grid.height() as usize)) != self.pos,
        ensures
            seen == line_of_sight_across(
                self.pos,
                boundary_point(target, (grid.width() as usize, grid.height() as usize)),
                grid,
            ),
            seen matches Some(s) ==> {
                &&& -RAY_LIMIT <= s.1.x <= RAY_LIMIT
                &&& -RAY_LIMIT <= s.1.y <= RAY_LIMIT
                &&& (s.1.x != 0 || s.1.y != 0)
            },
    {
        let size = grid.get_size();
        let span: i64 = (size.0 as i64) * SUBCELLS;
        let target = apply_boundary_conditions_world(target, size);
        let (left, right): (Option<(GridCoord, WorldPos)>, Option<(GridCoord, WorldPos)>) =
            if self.pos.x < target.x {
            let target_left = WorldPos { x: target.x - span, y: target.y };
            (self.sight_toward(target_left, grid), self.sight_toward(target, grid))
        } else {
            let target_right = WorldPos { x: target.x + span, y: target.y };
            (self.sight_toward(target, grid), self.sight_toward(target_right, grid))
        };
        match right {
            None => left,
            Some(r) => match left {
                None => right,
                Some(l) => {
                    let dist_to_right: i64 = self.corner_distance_squared(r.0);
                    let dist_to_left: i64 = self.corner_distance_squared(l.0);
                    if dist_to_left < dist_to_right {
                        left
                    } else {
                        right
                    }
                },
            },
        }
    }

    /// A line of sight together with the vector along which it was cast.
    fn sight_toward<T: RayCell>(&self, target: WorldPos, grid: &Grid2D<T>) -> (seen: Option<
        (GridCoord, WorldPos),
    >)
        requires
            grid.wf(),
            sight_in_range(self.pos, target),
        ensures
            seen == sight_along(self.pos, target, grid),
            seen matches Some(s) ==> -0x20_0000 <= s.0.x * SUBCELLS - self.pos.x <= 0x20_0000
                && -0x20_0000 <= s.0.y * SUBCELLS - self.pos.y <= 0x20_0000,
    {
        let sight = WorldPos { x: target.x - self.pos.x, y: target.y - self.pos.y };
        match self.has_line_of_sight(target, grid) {
            Some(end) => Some((end, sight)),
            None => None,
        }
    }

    /// Square of the distance from the entity to the corner of a cell.
    fn corner_distance_squared(&self, c: GridCoord) -> (d: i64)
        requires
            -0x20_0000 <= c.x * SUBCELLS - self.pos.x <= 0x20_0000,
            -0x20_0000 <= c.y * SUBCELLS - self.pos.y <= 0x20_0000,
        ensures
            d == dist2(corner(c), self.pos),
    {
        let dx: i64 = (c.x as i64) * SUBCELLS - self.pos.x;
        let dy: i64 = (c.y as i64) * SUBCELLS - self.pos.y;
        proof {
            lemma_square_bound(dx as int, 0x20_0000);
            lemma_square_bound(dy as int, 0x20_0000);
        }
        dx * dx + dy * dy
    }
}

/// The square of a bounded number is bounded.
pub proof fn lemma_square_bound(v: int, bound: int)
    requires
        -bound <= v <= bound,
    ensures
        0 <= v * v <= bound * bound,
{
    assert(0 <= v * v <= bound * bound) by (nonlinear_arith)
        requires
            -bound <= v <= bound,
    ;
}

} // verus!
