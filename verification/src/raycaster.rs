//! Exact grid ray casting: a digital differential analyser over fixed-point
//! coordinates, without rounding.

use vstd::prelude::*;
use crate::coords::{lemma_div_bounds, GridCoord, WorldPos, SUBCELLS};
use crate::grid2d::{Grid2D, GridCellType, RayGridCell, WallGridCell};
use crate::mob::MobId;

verus! {

/// Which face of a cell a ray came in through.
#[derive(Clone, Copy, PartialEq, Eq, Structural, Debug)]
pub enum HitSide {
    /// The ray crossed a vertical grid line: it stepped along `x`.
    Vertical,
    /// The ray crossed a horizontal grid line: it stepped along `y`.
    Horizontal,
}

/// A non-negative fraction `num / den`.
#[derive(Clone, Copy, PartialEq, Eq, Structural, Debug)]
pub struct Ratio {
    pub num: i64,
    pub den: i64,
}

/// Largest length of a ray and largest magnitude of a component of its
/// direction, in sub-cell units.
pub const RAY_LIMIT: i64 = 0x4000_0000;

/// Largest coordinate of the origin of a ray, in sub-cell units.
pub const ORIGIN_LIMIT: i64 = 0x4000_0000_0000;

/// A cell that a ray can be cast against.
pub trait RayCell {
    /// The cell stops a ray.
    spec fn is_solid(&self) -> bool;

    /// Whether the cell stops a ray.
    fn blocks(&self) -> (b: bool)
        ensures
            b == self.is_solid(),
    ;
}

impl RayCell for GridCellType {
    open spec fn is_solid(&self) -> bool {
        *self == GridCellType::Wall
    }

    fn blocks(&self) -> (b: bool) {
        match self {
            GridCellType::Empty => false,
            GridCellType::Wall => true,
        }
    }
}

impl RayCell for RayGridCell {
    open spec fn is_solid(&self) -> bool {
        self.cell_type == GridCellType::Wall
    }

    fn blocks(&self) -> (b: bool) {
        match self.cell_type {
            GridCellType::Empty => false,
            GridCellType::Wall => true,
        }
    }
}

impl RayCell for MobId {
    open spec fn is_solid(&self) -> bool {
        *self != MobId::NoMob
    }

    fn blocks(&self) -> (b: bool) {
        match self {
            MobId::NoMob => false,
            MobId::Mob(_) => true,
            MobId::Player => true,
        }
    }
}

/// Magnitude of a number.
pub open spec fn abs(v: int) -> int {
    if v < 0 {
        -v
    } else {
        v
    }
}

/// Where a ray is after some crossings of grid lines. The ray is the set of
/// points `start + t * dir` for `t >= 0`. It next crosses a vertical grid
/// line at `t = ax / |dir.x|` and a horizontal one at `t = ay / |dir.y|`;
/// `ax` and `ay` are distances along the axes in sub-cell units.
pub struct RayState {
    /// The cell that the ray is in.
    pub cell_x: int,
    pub cell_y: int,
    pub ax: int,
    pub ay: int,
    /// The kind of grid line that the ray crossed last.
    pub side: HitSide,
}

/// The ray at its origin, before any crossing.
pub open spec fn ray_start(start: WorldPos, dir: WorldPos) -> RayState {
    let f = SUBCELLS as int;
    let cx = start.x as int / f;
    let cy = start.y as int / f;
    RayState {
        cell_x: cx,
        cell_y: cy,
        ax: if dir.x < 0 {
            start.x - cx * f
        } else {
            (cx + 1) * f - start.x
        },
        ay: if dir.y < 0 {
            start.y - cy * f
        } else {
            (cy + 1) * f - start.y
        },
        side: HitSide::Horizontal,
    }
}

/// The next grid line that the ray crosses is a vertical one.
pub open spec fn x_is_nearer(s: RayState, dir: WorldPos) -> bool {
    s.ax * abs(dir.y as int) < s.ay * abs(dir.x as int)
}

/// The ray after its next crossing: it moves into the neighbouring cell
/// across the nearer grid line, the horizontal one if both are as near.
pub open spec fn ray_next(s: RayState, dir: WorldPos) -> RayState {
    if x_is_nearer(s, dir) {
        RayState {
            cell_x: s.cell_x + (if dir.x < 0 {
                -1int
            } else {
                1int
            }),
            ax: s.ax + SUBCELLS,
            side: HitSide::Vertical,
            ..s
        }
    } else {
        RayState {
            cell_y: s.cell_y + (if dir.y < 0 {
                -1int
            } else {
                1int
            }),
            ay: s.ay + SUBCELLS,
            side: HitSide::Horizontal,
            ..s
        }
    }
}

/// The ray after `n` crossings.
pub open spec fn ray_state(start: WorldPos, dir: WorldPos, n: nat) -> RayState
    decreases n,
{
    if n == 0 {
        ray_start(start, dir)
    } else {
        ray_next(ray_state(start, dir, (n - 1) as nat), dir)
    }
}

/// The ray has run its length: the point of the crossing that it has just
/// made is more than `max` away from the origin.
pub open spec fn out_of_range(s: RayState, dir: WorldPos, max: int) -> bool {
    let len2 = dir.x * dir.x + dir.y * dir.y;
    if s.side == HitSide::Vertical {
        (s.ax - SUBCELLS) * (s.ax - SUBCELLS) * len2 > max * max * (dir.x * dir.x)
    } else {
        (s.ay - SUBCELLS) * (s.ay - SUBCELLS) * len2 > max * max * (dir.y * dir.y)
    }
}

/// The cell that the ray is in stops it: it is solid, or outside the rows
/// of the grid.
pub open spec fn blocked<T: RayCell>(grid: &Grid2D<T>, s: RayState) -> bool {
    grid.in_rows(s.cell_y) ==> grid.at(s.cell_x, s.cell_y).is_solid()
}

/// The ray ends here: it is blocked, or it has run its length.
pub open spec fn stops<T: RayCell>(grid: &Grid2D<T>, s: RayState, dir: WorldPos, max: int) -> bool {
    blocked(grid, s) || out_of_range(s, dir, max)
}

/// The ray ends after `n` crossings and not before.
pub open spec fn is_first_stop<T: RayCell>(
    grid: &Grid2D<T>,
    start: WorldPos,
    dir: WorldPos,
    max: int,
    n: nat,
) -> bool {
    &&& n >= 1
    &&& stops(grid, ray_state(start, dir, n), dir, max)
    &&& forall|i: nat| 1 <= i < n ==> !stops(grid, #[trigger] ray_state(start, dir, i), dir, max)
}

/// The number of crossings after which the ray ends.
pub open spec fn ray_end<T: RayCell>(grid: &Grid2D<T>, start: WorldPos, dir: WorldPos, max: int) -> nat {
    choose|n: nat| is_first_stop(grid, start, dir, max, n)
}

/// What `cast_ray` reports of a ray that ends in state `s`: the parameter
/// `t` of the last crossing, which for a direction of length one is the
/// distance to the crossed grid line; `Wall` if a solid cell of the grid
/// stopped the ray within its length and `Empty` if not; the kind of grid
/// line crossed last; and the cell that the ray ended in.
pub open spec fn ray_report<T: RayCell>(
    grid: &Grid2D<T>,
    s: RayState,
    dir: WorldPos,
    max: int,
) -> (Ratio, WallGridCell, HitSide, GridCoord) {
    (
        if s.side == HitSide::Vertical {
            Ratio { num: (s.ax - SUBCELLS) as i64, den: abs(dir.x as int) as i64 }
        } else {
            Ratio { num: (s.ay - SUBCELLS) as i64, den: abs(dir.y as int) as i64 }
        },
        if !out_of_range(s, dir, max) && grid.in_rows(s.cell_y) && grid.at(
            s.cell_x,
            s.cell_y,
        ).is_solid() {
            GridCellType::Wall
        } else {
            GridCellType::Empty
        },
        s.side,
        GridCoord { x: s.cell_x as i32, y: s.cell_y as i32 },
    )
}

/// What `cast_ray` reports of a ray.
pub open spec fn ray_cast<T: RayCell>(grid: &Grid2D<T>, start: WorldPos, dir: WorldPos, max: int) -> (
    Ratio,
    WallGridCell,
    HitSide,
    GridCoord,
) {
    ray_report(grid, ray_state(start, dir, ray_end(grid, start, dir, max)), dir, max)
}

/// A ray that `cast_ray` can follow without overflow: the origin is in the
/// quadrant of non-negative coordinates, the direction is not zero, and
/// nothing is too large.
pub open spec fn ray_in_range(start: WorldPos, dir: WorldPos, max: i64) -> bool {
    &&& 0 <= start.x <= ORIGIN_LIMIT
    &&& 0 <= start.y <= ORIGIN_LIMIT
    &&& -RAY_LIMIT <= dir.x <= RAY_LIMIT
    &&& -RAY_LIMIT <= dir.y <= RAY_LIMIT
    &&& (dir.x != 0 || dir.y != 0)
    &&& 0 <= max <= RAY_LIMIT
}

/// Whether `cast_ray` can follow the ray. See `ray_in_range`.
pub fn ray_fits(start: WorldPos, dir: WorldPos, max: i64) -> (fits: bool)
    ensures
        fits == ray_in_range(start, dir, max),
{
    0 <= start.x && start.x <= ORIGIN_LIMIT && 0 <= start.y && start.y <= ORIGIN_LIMIT
        && -RAY_LIMIT <= dir.x && dir.x <= RAY_LIMIT && -RAY_LIMIT <= dir.y && dir.y <= RAY_LIMIT
        && (dir.x != 0 || dir.y != 0) && 0 <= max && max <= RAY_LIMIT
}

/// A product of bounded factors is bounded.
pub proof fn lemma_mul_bound(a: int, b: int, a_max: int, b_max: int)
    requires
        0 <= a <= a_max,
        0 <= b <= b_max,
    ensures
        0 <= a * b <= a_max * b_max,
{
    assert(0 <= a * b <= a_max * b_max) by (nonlinear_arith)
        requires
            0 <= a <= a_max,
            0 <= b <= b_max,
    ;
}

/// A crossing that is within the length of the ray is no farther than that
/// length along its own axis.
pub proof fn lemma_crossing_within(a: int, max: int, d: int, e: int)
    requires
        0 <= a,
        0 <= max,
        d != 0,
        a * a * (d * d + e * e) <= max * max * (d * d),
    ensures
        a <= max,
{
    if a > max {
        assert(a * a > max * max) by (nonlinear_arith)
            requires
                a > max,
                max >= 0,
        ;
        assert(d * d > 0) by (nonlinear_arith)
            requires
                d != 0,
        ;
        assert(e * e >= 0) by (nonlinear_arith);
        assert(a * a * (d * d + e * e) > max * max * (d * d)) by (nonlinear_arith)
            requires
                a * a > max * max,
                max * max >= 0,
                d * d + e * e >= d * d,
                d * d > 0,
        ;
    }
}

/// Casts a ray from `start` in direction `ray_dir` against the grid and
/// follows it from cell to cell until a solid cell or a row outside the
/// grid stops it, or until the point at which it has crossed into a cell
/// is more than `max_ray_distance` away from `start`.
///
/// Coordinates, the direction and the distance are in sub-cell units. The
/// direction need not have length one.
pub fn cast_ray<T: RayCell>(
    grid: &Grid2D<T>,
    start: &WorldPos,
    ray_dir: &WorldPos,
    max_ray_distance: i64,
) -> (hit: (Ratio, WallGridCell, HitSide, GridCoord))
    requires
        grid.wf(),
        ray_in_range(*start, *ray_dir, max_ray_distance),
    ensures
        is_first_stop(
            grid,
            *start,
            *ray_dir,
            max_ray_distance as int,
            ray_end(grid, *start, *ray_dir, max_ray_distance as int),
        ),
        hit == ray_cast(grid, *start, *ray_dir, max_ray_distance as int),
        0 <= hit.0.num <= max_ray_distance + SUBCELLS,
        0 < hit.0.den <= RAY_LIMIT,
        -(max_ray_distance + 3 * SUBCELLS) <= hit.3.x * SUBCELLS - start.x <= max_ray_distance + 3
            * SUBCELLS,
        -(max_ray_distance + 3 * SUBCELLS) <= hit.3.y * SUBCELLS - start.y <= max_ray_distance + 3
            * SUBCELLS,
{
    let f: i64 = SUBCELLS;
    let dir = *ray_dir;
    let max = max_ray_distance;
    let cx: i64 = start.x / f;
    let cy: i64 = start.y / f;
    proof {
        lemma_div_bounds(start.x as int, f as int, 0int, 0x4000_0001int);
        lemma_div_bounds(start.y as int, f as int, 0int, 0x4000_0001int);
        vstd::arithmetic::div_mod::lemma_fundamental_div_mod(start.x as int, f as int);
        vstd::arithmetic::div_mod::lemma_fundamental_div_mod(start.y as int, f as int);
    }
    let mut map_x: i64 = cx;
    let mut map_y: i64 = cy;
    let adx: i64 = if dir.x < 0 {
        -dir.x
    } else {
        dir.x
    };
    let ady: i64 = if dir.y < 0 {
        -dir.y
    } else {
        dir.y
    };
    let step_x: i64 = if dir.x < 0 {
        -1
    } else {
        1
    };
    let step_y: i64 = if dir.y < 0 {
        -1
    } else {
        1
    };
    let ax0: i64 = if dir.x < 0 {
        start.x - cx * f
    } else {
        (cx + 1) * f - start.x
    };
    let ay0: i64 = if dir.y < 0 {
        start.y - cy * f
    } else {
        (cy + 1) * f - start.y
    };
    let mut ax: i64 = ax0;
    let mut ay: i64 = ay0;
    let mut side = HitSide::Horizontal;
    let mut cell_hit_type = GridCellType::Empty;
    proof {
        lemma_mul_bound(adx as int, adx as int, RAY_LIMIT as int, RAY_LIMIT as int);
        lemma_mul_bound(ady as int, ady as int, RAY_LIMIT as int, RAY_LIMIT as int);
        lemma_mul_bound(max as int, max as int, RAY_LIMIT as int, RAY_LIMIT as int);
        assert(adx * adx == dir.x * dir.x) by (nonlinear_arith)
            requires
                adx == dir.x || adx == -dir.x,
        ;
        assert(ady * ady == dir.y * dir.y) by (nonlinear_arith)
            requires
                ady == dir.y || ady == -dir.y,
        ;
    }
    let dx2: u128 = (adx * adx) as u128;
    let dy2: u128 = (ady * ady) as u128;
    let len2: u128 = dx2 + dy2;
    let max2: u128 = (max * max) as u128;
    proof {
        lemma_mul_bound(ax as int, ady as int, 0x4002_0000int, RAY_LIMIT as int);
        lemma_mul_bound(ay as int, adx as int, 0x4002_0000int, RAY_LIMIT as int);
    }
    let mut near_x: bool = ax * ady < ay * adx;
    let ghost mut n: nat = 0;
    loop
        invariant_except_break
            cell_hit_type == GridCellType::Empty,
            ax <= max + f,
            ay <= max + f,
            forall|i: nat| 1 <= i <= n ==> !stops(grid, #[trigger] ray_state(*start, dir, i), dir, max as int),
        invariant
            grid.wf(),
            ray_in_range(*start, dir, max),
            f == SUBCELLS,
            adx == abs(dir.x as int),
            ady == abs(dir.y as int),
            step_x == (if dir.x < 0 {
                -1int
            } else {
                1int
            }),
            step_y == (if dir.y < 0 {
                -1int
            } else {
                1int
            }),
            dx2 == dir.x * dir.x,
            dy2 == dir.y * dir.y,
            len2 == dx2 + dy2,
            max2 == max * max,
            dx2 <= RAY_LIMIT * RAY_LIMIT,
            dy2 <= RAY_LIMIT * RAY_LIMIT,
            max2 <= RAY_LIMIT * RAY_LIMIT,
            0 <= cx <= 0x4000_0000,
            0 <= cy <= 0x4000_0000,
            cx * f <= start.x < (cx + 1) * f,
            cy * f <= start.y < (cy + 1) * f,
            0 <= ax0 <= f,
            0 <= ay0 <= f,
            0 <= ax <= max + 2 * f,
            0 <= ay <= max + 2 * f,
            dir.x >= 0 ==> ax >= 1,
            dir.y >= 0 ==> ay >= 1,
            n == 0 ==> ax == ax0 && ay == ay0,
            n >= 1 && side == HitSide::Vertical ==> adx > 0 && ax >= f,
            n >= 1 && side == HitSide::Horizontal ==> ady > 0 && ay >= f,
            -(ax - ax0) <= (map_x - cx) * f <= ax - ax0,
            -(ay - ay0) <= (map_y - cy) * f <= ay - ay0,
            (RayState { cell_x: map_x as int, cell_y: map_y as int, ax: ax as int, ay: ay as int, side })
                == ray_state(*start, dir, n),
            near_x == x_is_nearer(ray_state(*start, dir, n), dir),
        ensures
            n >= 1,
            is_first_stop(grid, *start, dir, max as int, n),
            (RayState { cell_x: map_x as int, cell_y: map_y as int, ax: ax as int, ay: ay as int, side })
                == ray_state(*start, dir, n),
            cell_hit_type == ray_report(grid, ray_state(*start, dir, n), dir, max as int).1,
        decreases 2 * max + 4 * f - ax - ay,
    {
        let ghost prev = ray_state(*start, dir, n);
        if near_x {
            proof {
                assert(ax * ady >= 0) by (nonlinear_arith)
                    requires
                        ax >= 0,
                        ady >= 0,
                ;
                if adx == 0 {
                    assert(ay * adx == 0) by (nonlinear_arith)
                        requires
                            adx == 0,
                    ;
                }
            }
            ax = ax + f;
            map_x = map_x + step_x;
            side = HitSide::Vertical;
        } else {
            proof {
                if ady == 0 {
                    assert(ax * ady == 0) by (nonlinear_arith)
                        requires
                            ady == 0,
                    ;
                    assert(ay * adx <= 0);
                    assert(ay >= 1);
                    assert(adx >= 1);
                    assert(ay * adx >= 1) by (nonlinear_arith)
                        requires
                            ay >= 1,
                            adx >= 1,
                    ;
                }
            }
            ay = ay + f;
            map_y = map_y + step_y;
            side = HitSide::Horizontal;
        }
        proof {
            n = n + 1;
            assert(ray_state(*start, dir, n) == ray_next(prev, dir));
        }
        let cell = grid.get_in_rows(GridCoord { x: map_x as i32, y: map_y as i32 });
        let (hit, wall): (bool, bool) = match cell {
            None => (true, false),
            Some(c) => {
                let b: bool = c.blocks();
                (b, b)
            },
        };
        proof {
            lemma_mul_bound(ax as int, ady as int, 0x4002_0000int, RAY_LIMIT as int);
            lemma_mul_bound(ay as int, adx as int, 0x4002_0000int, RAY_LIMIT as int);
            lemma_mul_bound(ax as int, ax as int, 0x4002_0000int, 0x4002_0000int);
            lemma_mul_bound(ay as int, ay as int, 0x4002_0000int, 0x4002_0000int);
        }
        near_x = ax * ady < ay * adx;
        let run: i64 = match side {
            HitSide::Vertical => ax - f,
            HitSide::Horizontal => ay - f,
        };
        let d2: u128 = match side {
            HitSide::Vertical => dx2,
            HitSide::Horizontal => dy2,
        };
        proof {
            lemma_mul_bound(run as int, run as int, 0x4002_0000int, 0x4002_0000int);
        }
        let a2: u128 = (run * run) as u128;
        proof {
            lemma_mul_bound(
                a2 as int,
                len2 as int,
                0x4002_0000int * 0x4002_0000int,
                2 * (RAY_LIMIT * RAY_LIMIT),
            );
            lemma_mul_bound(
                max2 as int,
                d2 as int,
                RAY_LIMIT * RAY_LIMIT,
                RAY_LIMIT * RAY_LIMIT,
            );
        }
        let spent: bool = a2 * len2 > max2 * d2;
        proof {
            let now = ray_state(*start, dir, n);
            assert(spent == out_of_range(now, dir, max as int)) by {
                assert(max as int * max as int * (dir.x * dir.x) == max2 * dx2) by (nonlinear_arith)
                    requires
                        max2 == max * max,
                        dx2 == dir.x * dir.x,
                ;
                assert(max as int * max as int * (dir.y * dir.y) == max2 * dy2) by (nonlinear_arith)
                    requires
                        max2 == max * max,
                        dy2 == dir.y * dir.y,
                ;
            }
            assert(hit == blocked(grid, now));
            if !spent {
                match side {
                    HitSide::Vertical => {
                        lemma_crossing_within(run as int, max as int, dir.x as int, dir.y as int);
                    },
                    HitSide::Horizontal => {
                        lemma_crossing_within(run as int, max as int, dir.y as int, dir.x as int);
                    },
                }
            }
        }
        if spent {
            cell_hit_type = GridCellType::Empty;
            break;
        }
        if hit {
            if wall {
                cell_hit_type = GridCellType::Wall;
            }
            break;
        }
    }
    proof {
        let end = ray_end(grid, *start, dir, max as int);
        assert(is_first_stop(grid, *start, dir, max as int, end));
        lemma_first_stop_unique(grid, *start, dir, max as int, n, end);
    }
    let perp = match side {
        HitSide::Vertical => Ratio { num: ax - f, den: adx },
        HitSide::Horizontal => Ratio { num: ay - f, den: ady },
    };
    (perp, cell_hit_type, side, GridCoord { x: map_x as i32, y: map_y as i32 })
}

/// A ray ends only once.
pub proof fn lemma_first_stop_unique<T: RayCell>(
    grid: &Grid2D<T>,
    start: WorldPos,
    dir: WorldPos,
    max: int,
    n: nat,
    m: nat,
)
    requires
        is_first_stop(grid, start, dir, max, n),
        is_first_stop(grid, start, dir, max, m),
    ensures
        n == m,
{
    if n < m {
        assert(!stops(grid, ray_state(start, dir, n), dir, max));
    } else if m < n {
        assert(!stops(grid, ray_state(start, dir, m), dir, max));
    }
}

/// The geometry of a ray. After any number of crossings, `ax` and `ay` are
/// the distances along the axes from the origin to the far faces of the cell
/// that the ray is in, so the reported parameter times the direction is the
/// exact distance along the crossed axis to the face that the ray came in
/// through. And the ray did come in through that face: at the crossing it
/// is between the two grid lines of the other axis that bound the cell.
/// This holds for every direction, along an axis or not.
pub proof fn lemma_ray_geometry(start: WorldPos, dir: WorldPos, n: nat)
    requires
        0 <= start.x,
        0 <= start.y,
    ensures
        ({
            let s = ray_state(start, dir, n);
            let f = SUBCELLS as int;
            let dx = abs(dir.x as int);
            let dy = abs(dir.y as int);
            &&& dir.x >= 0 ==> s.ax == (s.cell_x + 1) * f - start.x
            &&& dir.x < 0 ==> s.ax == start.x - s.cell_x * f
            &&& dir.y >= 0 ==> s.ay == (s.cell_y + 1) * f - start.y
            &&& dir.y < 0 ==> s.ay == start.y - s.cell_y * f
            &&& 0 <= s.ax && 0 <= s.ay
            &&& (s.ax - f) * dy <= s.ay * dx
            &&& (s.ay - f) * dx <= s.ax * dy
            &&& n >= 1 && s.side == HitSide::Vertical ==> s.ax >= f && (s.ay - f) * dx <= (s.ax - f)
                * dy
            &&& n >= 1 && s.side == HitSide::Horizontal ==> s.ay >= f && (s.ax - f) * dy <= (s.ay
                - f) * dx
        }),
    decreases n,
{
    let f = SUBCELLS as int;
    let dx = abs(dir.x as int);
    let dy = abs(dir.y as int);
    if n == 0 {
        let s = ray_start(start, dir);
        vstd::arithmetic::div_mod::lemma_fundamental_div_mod(start.x as int, f);
        vstd::arithmetic::div_mod::lemma_fundamental_div_mod(start.y as int, f);
        assert(0 <= s.ax <= f);
        assert(0 <= s.ay <= f);
        assert((s.ax - f) * dy <= 0 <= s.ay * dx) by (nonlinear_arith)
            requires
                s.ax - f <= 0,
                dy >= 0,
                s.ay >= 0,
                dx >= 0,
        ;
        assert((s.ay - f) * dx <= 0 <= s.ax * dy) by (nonlinear_arith)
            requires
                s.ay - f <= 0,
                dx >= 0,
                s.ax >= 0,
                dy >= 0,
        ;
    } else {
        let p = ray_state(start, dir, (n - 1) as nat);
        lemma_ray_geometry(start, dir, (n - 1) as nat);
        let s = ray_next(p, dir);
        assert(s == ray_state(start, dir, n));
        if x_is_nearer(p, dir) {
            // p.ax * dy < p.ay * dx
            assert((s.ax - f) * dy <= s.ay * dx);
            assert((s.ay - f) * dx <= s.ax * dy) by (nonlinear_arith)
                requires
                    (p.ay - f) * dx <= p.ax * dy,
                    s.ax == p.ax + f,
                    s.ay == p.ay,
                    dy >= 0,
                    f >= 0,
            ;
        } else {
            assert((s.ay - f) * dx <= s.ax * dy);
            assert((s.ax - f) * dy <= s.ay * dx) by (nonlinear_arith)
                requires
                    (p.ax - f) * dy <= p.ay * dx,
                    s.ay == p.ay + f,
                    s.ax == p.ax,
                    dx >= 0,
                    f >= 0,
            ;
        }
    }
}

/// A ray along a row, to the right: after `n` crossings it is `n` cells to
/// the right of the cell it started in, in the same row, having crossed a
/// vertical grid line last.
pub proof fn lemma_ray_along_row(start: WorldPos, dir: WorldPos, n: nat)
    requires
        0 <= start.x,
        0 <= start.y,
        dir.x > 0,
        dir.y == 0,
    ensures
        ({
            let s = ray_state(start, dir, n);
            let f = SUBCELLS as int;
            &&& s.cell_x == start.x as int / f + n
            &&& s.cell_y == start.y as int / f
            &&& s.ax == (start.x as int / f + n + 1) * f - start.x
            &&& s.ay == (start.y as int / f + 1) * f - start.y
            &&& s.ay > 0
            &&& n >= 1 ==> s.side == HitSide::Vertical
            &&& x_is_nearer(s, dir)
        }),
    decreases n,
{
    let f = SUBCELLS as int;
    vstd::arithmetic::div_mod::lemma_fundamental_div_mod(start.x as int, f);
    vstd::arithmetic::div_mod::lemma_fundamental_div_mod(start.y as int, f);
    if n > 0 {
        lemma_ray_along_row(start, dir, (n - 1) as nat);
        let p = ray_state(start, dir, (n - 1) as nat);
        assert(ray_state(start, dir, n) == ray_next(p, dir));
        let cx = start.x as int / f;
        assert((cx + (n - 1) + 1) * f + f == (cx + n + 1) * f) by (nonlinear_arith);
    }
    let s = ray_state(start, dir, n);
    lemma_row_ray_measures(s, dir, 0);
}

/// For a ray along a row, the next crossing is a vertical grid line, and
/// after a crossing the ray has run its length when the line that it has
/// crossed is more than `max` away.
pub proof fn lemma_row_ray_measures(s: RayState, dir: WorldPos, max: int)
    requires
        dir.x > 0,
        dir.y == 0,
        s.ay > 0,
        s.ax >= 0,
        max >= 0,
    ensures
        x_is_nearer(s, dir),
        s.side == HitSide::Vertical && s.ax >= SUBCELLS ==> (out_of_range(s, dir, max) <==> s.ax
            - SUBCELLS > max),
{
    let dx = dir.x as int;
    assert(s.ax * abs(dir.y as int) == 0) by (nonlinear_arith)
        requires
            abs(dir.y as int) == 0,
    ;
    assert(s.ay * abs(dir.x as int) > 0) by (nonlinear_arith)
        requires
            s.ay > 0,
            abs(dir.x as int) > 0,
    ;
    if s.side == HitSide::Vertical && s.ax >= SUBCELLS {
        lemma_axis_ray_range(s.ax - SUBCELLS, dx, dir.y as int, max);
    }
}

/// For a ray along an axis, the square test of the range is the plain
/// comparison of the way run with the range.
pub proof fn lemma_axis_ray_range(run: int, d: int, e: int, max: int)
    requires
        run >= 0,
        max >= 0,
        d > 0,
        e == 0,
    ensures
        run * run * (d * d + e * e) > max * max * (d * d) <==> run > max,
{
    let len2 = d * d + e * e;
    assert(len2 == d * d) by (nonlinear_arith)
        requires
            len2 == d * d + e * e,
            e == 0,
    ;
    assert(d * d > 0) by (nonlinear_arith)
        requires
            d > 0,
    ;
    if run > max {
        assert(run * run > max * max) by (nonlinear_arith)
            requires
                run > max,
                max >= 0,
        ;
        assert(run * run * (d * d) > max * max * (d * d)) by (nonlinear_arith)
            requires
                run * run > max * max,
                d * d > 0,
        ;
    } else {
        assert(run * run <= max * max) by (nonlinear_arith)
            requires
                0 <= run <= max,
        ;
        assert(run * run * (d * d) <= max * max * (d * d)) by (nonlinear_arith)
            requires
                run * run <= max * max,
                d * d > 0,
        ;
    }
}

/// A ray down a corridor. The ray runs to the right along a row of the
/// grid in which the next `k - 1` cells are open and the `k`-th is solid,
/// and the near face of that cell is within the length of the ray. Then the
/// ray ends in that cell after `k` crossings, and the report is a wall, hit
/// through a vertical face, at a parameter whose numerator is the exact
/// distance from the origin to the near face of the wall.
pub proof fn lemma_corridor_hit<T: RayCell>(
    grid: &Grid2D<T>,
    start: WorldPos,
    dir: WorldPos,
    max: i64,
    k: nat,
)
    requires
        grid.wf(),
        ray_in_range(start, dir, max),
        dir.x > 0,
        dir.y == 0,
        k >= 1,
        grid.in_rows(start.y as int / (SUBCELLS as int)),
        forall|i: int|
            1 <= i < k ==> !(#[trigger] grid.at(
                start.x as int / (SUBCELLS as int) + i,
                start.y as int / (SUBCELLS as int),
            )).is_solid(),
        grid.at(
            start.x as int / (SUBCELLS as int) + k,
            start.y as int / (SUBCELLS as int),
        ).is_solid(),
        (start.x as int / (SUBCELLS as int) + k) * SUBCELLS - start.x <= max,
    ensures
        is_first_stop(grid, start, dir, max as int, k),
        ray_report(grid, ray_state(start, dir, k), dir, max as int).0.num == (start.x as int / (
        SUBCELLS as int) + k) * SUBCELLS - start.x,
        ray_report(grid, ray_state(start, dir, k), dir, max as int).0.den == dir.x,
        ray_report(grid, ray_state(start, dir, k), dir, max as int).1 == GridCellType::Wall,
        ray_report(grid, ray_state(start, dir, k), dir, max as int).2 == HitSide::Vertical,
        ray_report(grid, ray_state(start, dir, k), dir, max as int).3.x == start.x as int / (
        SUBCELLS as int) + k,
        ray_report(grid, ray_state(start, dir, k), dir, max as int).3.y == start.y as int / (
        SUBCELLS as int),
{
    let f = SUBCELLS as int;
    let cx = start.x as int / f;
    let cy = start.y as int / f;
    lemma_ray_along_row(start, dir, k);
    let s = ray_state(start, dir, k);
    lemma_row_ray_measures(s, dir, max as int);
    assert((cx + k + 1) * f - f == (cx + k) * f) by (nonlinear_arith);
    assert forall|i: nat| 1 <= i < k implies !stops(
        grid,
        #[trigger] ray_state(start, dir, i),
        dir,
        max as int,
    ) by {
        lemma_ray_along_row(start, dir, i);
        let si = ray_state(start, dir, i);
        lemma_row_ray_measures(si, dir, max as int);
        assert(!grid.at(cx + i, cy).is_solid());
        assert((cx + 1) * f <= (cx + i) * f <= (cx + k) * f) by (nonlinear_arith)
            requires
                1 <= i < k,
                f > 0,
        ;
        assert((cx + i + 1) * f - f == (cx + i) * f) by (nonlinear_arith);
    }
    lemma_div_bounds(start.x as int, f, 0int, 0x4000_0001int);
    lemma_div_bounds(start.y as int, f, 0int, 0x4000_0001int);
    vstd::arithmetic::div_mod::lemma_fundamental_div_mod(start.x as int, f);
    assert((cx + 1) * f <= (cx + k) * f) by (nonlinear_arith)
        requires
            k >= 1,
            f > 0,
    ;
    assert((k - 1) * f <= max) by (nonlinear_arith)
        requires
            (cx + k) * f - start.x <= max,
            start.x < (cx + 1) * f,
    ;
}

/// A ray into open space. The ray runs to the right along a row of the
/// grid in which every cell is open whose near face is within the length
/// of the ray. Then the ray ends when it has run its length, and the report is
/// `Empty`: no wall was hit.
pub proof fn lemma_open_row_no_hit<T: RayCell>(
    grid: &Grid2D<T>,
    start: WorldPos,
    dir: WorldPos,
    max: int,
    n: nat,
)
    requires
        grid.wf(),
        0 <= start.x,
        0 <= start.y,
        dir.x > 0,
        dir.y == 0,
        max >= 0,
        grid.in_rows(start.y as int / (SUBCELLS as int)),
        forall|i: int|
            1 <= i && (start.x as int / (SUBCELLS as int) + i) * SUBCELLS - start.x <= max ==> !(
            #[trigger] grid.at(
                start.x as int / (SUBCELLS as int) + i,
                start.y as int / (SUBCELLS as int),
            )).is_solid(),
        is_first_stop(grid, start, dir, max, n),
    ensures
        ray_report(grid, ray_state(start, dir, n), dir, max).1 == GridCellType::Empty,
        out_of_range(ray_state(start, dir, n), dir, max),
{
    let f = SUBCELLS as int;
    let cx = start.x as int / f;
    let cy = start.y as int / f;
    lemma_ray_along_row(start, dir, n);
    let s = ray_state(start, dir, n);
    lemma_row_ray_measures(s, dir, max);
    if !out_of_range(s, dir, max) {
        assert(!grid.at(cx + n, cy).is_solid());
    }
}

/// A ray down a column: after `n` crossings it is `n` cells below the cell
/// it started in, in the same column, having crossed a horizontal grid line
/// last.
pub proof fn lemma_ray_along_column(start: WorldPos, dir: WorldPos, n: nat)
    requires
        0 <= start.x,
        0 <= start.y,
        dir.x == 0,
        dir.y > 0,
    ensures
        ({
            let s = ray_state(start, dir, n);
            let f = SUBCELLS as int;
            &&& s.cell_x == start.x as int / f
            &&& s.cell_y == start.y as int / f + n
            &&& s.ax == (start.x as int / f + 1) * f - start.x
            &&& s.ay == (start.y as int / f + n + 1) * f - start.y
            &&& s.ax > 0
            &&& n >= 1 ==> s.side == HitSide::Horizontal
            &&& !x_is_nearer(s, dir)
        }),
    decreases n,
{
    let f = SUBCELLS as int;
    vstd::arithmetic::div_mod::lemma_fundamental_div_mod(start.x as int, f);
    vstd::arithmetic::div_mod::lemma_fundamental_div_mod(start.y as int, f);
    if n > 0 {
        lemma_ray_along_column(start, dir, (n - 1) as nat);
        let p = ray_state(start, dir, (n - 1) as nat);
        assert(ray_state(start, dir, n) == ray_next(p, dir));
        let cy = start.y as int / f;
        assert((cy + (n - 1) + 1) * f + f == (cy + n + 1) * f) by (nonlinear_arith);
    }
    let s = ray_state(start, dir, n);
    lemma_column_ray_measures(s, dir, 0);
}

/// For a ray down a column, the next crossing is a horizontal grid line,
/// and after a crossing the ray has run its length when the line that it
/// has crossed is more than `max` away.
pub proof fn lemma_column_ray_measures(s: RayState, dir: WorldPos, max: int)
    requires
        dir.x == 0,
        dir.y > 0,
        s.ax >= 0,
        s.ay >= 0,
        max >= 0,
    ensures
        !x_is_nearer(s, dir),
        s.side == HitSide::Horizontal && s.ay >= SUBCELLS ==> (out_of_range(s, dir, max) <==> s.ay
            - SUBCELLS > max),
{
    let dy = dir.y as int;
    assert(s.ay * abs(dir.x as int) == 0) by (nonlinear_arith)
        requires
            abs(dir.x as int) == 0,
    ;
    assert(s.ax * abs(dir.y as int) >= 0) by (nonlinear_arith)
        requires
            s.ax >= 0,
            abs(dir.y as int) >= 0,
    ;
    if s.side == HitSide::Horizontal && s.ay >= SUBCELLS {
        lemma_axis_ray_range(s.ay - SUBCELLS, dy, dir.x as int, max);
    }
}

/// A ray down a shaft. The ray runs straight down a column of the grid in
/// which the next `k - 1` cells are open and the `k`-th is solid or below
/// the last row, and the near face of that cell is within the length of the
/// ray. Then the ray ends in that cell after `k` crossings, having come in
/// through a horizontal face, at a parameter whose numerator is the exact
/// distance from the origin to the near face of the cell; and the report is
/// a wall if the cell is one of the grid.
pub proof fn lemma_shaft_hit<T: RayCell>(
    grid: &Grid2D<T>,
    start: WorldPos,
    dir: WorldPos,
    max: i64,
    k: nat,
)
    requires
        grid.wf(),
        ray_in_range(start, dir, max),
        dir.x == 0,
        dir.y > 0,
        k >= 1,
        forall|i: int|
            1 <= i < k ==> grid.in_rows(start.y as int / (SUBCELLS as int) + i) && !(
            #[trigger] grid.at(
                start.x as int / (SUBCELLS as int),
                start.y as int / (SUBCELLS as int) + i,
            )).is_solid(),
        grid.in_rows(start.y as int / (SUBCELLS as int) + k) ==> grid.at(
            start.x as int / (SUBCELLS as int),
            start.y as int / (SUBCELLS as int) + k,
        ).is_solid(),
        (start.y as int / (SUBCELLS as int) + k) * SUBCELLS - start.y <= max,
    ensures
        is_first_stop(grid, start, dir, max as int, k),
        ray_report(grid, ray_state(start, dir, k), dir, max as int).0.num == (start.y as int / (
        SUBCELLS as int) + k) * SUBCELLS - start.y,
        ray_report(grid, ray_state(start, dir, k), dir, max as int).0.den == dir.y,
        ray_report(grid, ray_state(start, dir, k), dir, max as int).1 == (if grid.in_rows(
            start.y as int / (SUBCELLS as int) + k,
        ) {
            GridCellType::Wall
        } else {
            GridCellType::Empty
        }),
        ray_report(grid, ray_state(start, dir, k), dir, max as int).2 == HitSide::Horizontal,
        ray_report(grid, ray_state(start, dir, k), dir, max as int).3.x == start.x as int / (
        SUBCELLS as int),
        ray_report(grid, ray_state(start, dir, k), dir, max as int).3.y == start.y as int / (
        SUBCELLS as int) + k,
{
    let f = SUBCELLS as int;
    let cx = start.x as int / f;
    let cy = start.y as int / f;
    lemma_ray_along_column(start, dir, k);
    let s = ray_state(start, dir, k);
    lemma_column_ray_measures(s, dir, max as int);
    assert((cy + k + 1) * f - f == (cy + k) * f) by (nonlinear_arith);
    assert forall|i: nat| 1 <= i < k implies !stops(
        grid,
        #[trigger] ray_state(start, dir, i),
        dir,
        max as int,
    ) by {
        lemma_ray_along_column(start, dir, i);
        let si = ray_state(start, dir, i);
        lemma_column_ray_measures(si, dir, max as int);
        assert(!grid.at(cx, cy + i).is_solid());
        assert((cy + 1) * f <= (cy + i) * f <= (cy + k) * f) by (nonlinear_arith)
            requires
                1 <= i < k,
                f > 0,
        ;
        assert((cy + i + 1) * f - f == (cy + i) * f) by (nonlinear_arith);
    }
    lemma_div_bounds(start.x as int, f, 0int, 0x4000_0001int);
    lemma_div_bounds(start.y as int, f, 0int, 0x4000_0001int);
    vstd::arithmetic::div_mod::lemma_fundamental_div_mod(start.y as int, f);
    assert((cy + 1) * f <= (cy + k) * f) by (nonlinear_arith)
        requires
            k >= 1,
            f > 0,
    ;
    assert((k - 1) * f <= max) by (nonlinear_arith)
        requires
            (cy + k) * f - start.y <= max,
            start.y < (cy + 1) * f,
    ;
}

} // verus!
