//! Integer cell coordinates and fixed-point world positions.

use vstd::prelude::*;

verus! {

/// Number of sub-cell units in one grid cell. World positions are fixed-point
/// numbers with this denominator.
pub const SUBCELLS: i64 = 65536;

/// Coordinate of a grid cell. `x` grows to the right, `y` grows downwards.
#[derive(Clone, Copy, PartialEq, Eq, Structural, Debug)]
pub struct GridCoord {
    pub x: i32,
    pub y: i32,
}

impl GridCoord {
    /// Both components are strictly inside the `i32` range, so that each of
    /// the four orthogonal neighbours is representable.
    pub open spec fn has_neighbors(self) -> bool {
        &&& i32::MIN < self.x < i32::MAX
        &&& i32::MIN < self.y < i32::MAX
    }

    /// The coordinate `(self.x + dx, self.y + dy)`.
    pub open spec fn shifted(self, dx: int, dy: int) -> GridCoord {
        GridCoord { x: (self.x + dx) as i32, y: (self.y + dy) as i32 }
    }

    pub fn new(x: i32, y: i32) -> (r: GridCoord)
        ensures
            r.x == x,
            r.y == y,
    {
        GridCoord { x, y }
    }

    /// Moves by `(dx, dy)`.
    pub fn offset(self, dx: i32, dy: i32) -> (r: GridCoord)
        requires
            i32::MIN <= self.x + dx <= i32::MAX,
            i32::MIN <= self.y + dy <= i32::MAX,
        ensures
            r == self.shifted(dx as int, dy as int),
            r.x == self.x + dx,
            r.y == self.y + dy,
    {
        GridCoord { x: self.x + dx, y: self.y + dy }
    }
}

/// A position in world space, in sub-cell units: the point
/// `(x / SUBCELLS, y / SUBCELLS)` measured in cells.
#[derive(Clone, Copy, PartialEq, Eq, Structural, Debug)]
pub struct WorldPos {
    pub x: i64,
    pub y: i64,
}

impl WorldPos {
    pub fn new(x: i64, y: i64) -> (r: WorldPos)
        ensures
            r.x == x,
            r.y == y,
    {
        WorldPos { x, y }
    }

    /// The cell that holds a point with these sub-cell coordinates.
    pub open spec fn cell_of(x: int, y: int) -> (int, int) {
        (x / (SUBCELLS as int), y / (SUBCELLS as int))
    }

    /// The point is close enough to the origin for its cell to have `i32`
    /// coordinates.
    pub open spec fn in_cell_range(self) -> bool {
        &&& (i32::MIN as int) * (SUBCELLS as int) <= self.x < (i32::MAX as int + 1) * (SUBCELLS as int)
        &&& (i32::MIN as int) * (SUBCELLS as int) <= self.y < (i32::MAX as int + 1) * (SUBCELLS as int)
    }

    /// The cell that holds this point.
    pub open spec fn cell_spec(self) -> GridCoord {
        GridCoord {
            x: (self.x as int / (SUBCELLS as int)) as i32,
            y: (self.y as int / (SUBCELLS as int)) as i32,
        }
    }

    /// The cell that holds this point.
    pub fn cell(self) -> (c: GridCoord)
        requires
            self.in_cell_range(),
        ensures
            (c.x as int, c.y as int) == Self::cell_of(self.x as int, self.y as int),
            c == self.cell_spec(),
    {
        let cx: i64 = floor_div(self.x, SUBCELLS);
        let cy: i64 = floor_div(self.y, SUBCELLS);
        proof {
            lemma_div_bounds(self.x as int, SUBCELLS as int, i32::MIN as int, i32::MAX as int + 1);
            lemma_div_bounds(self.y as int, SUBCELLS as int, i32::MIN as int, i32::MAX as int + 1);
        }
        GridCoord { x: cx as i32, y: cy as i32 }
    }

    /// The centre of a cell.
    pub fn center_of(c: GridCoord) -> (p: WorldPos)
        ensures
            p.x == c.x * SUBCELLS + SUBCELLS / 2,
            p.y == c.y * SUBCELLS + SUBCELLS / 2,
            p.in_cell_range(),
    {
        let p = WorldPos {
            x: (c.x as i64) * SUBCELLS + SUBCELLS / 2,
            y: (c.y as i64) * SUBCELLS + SUBCELLS / 2,
        };
        p
    }
}

/// A quotient lies between two bounds when the dividend lies between their
/// multiples.
pub proof fn lemma_div_bounds(x: int, d: int, lo: int, hi: int)
    requires
        d > 0,
        lo * d <= x < hi * d,
    ensures
        lo <= x / d < hi,
{
    vstd::arithmetic::div_mod::lemma_fundamental_div_mod(x, d);
    let q = x / d;
    let r = x % d;
    assert(lo <= q < hi) by (nonlinear_arith)
        requires
            x == d * q + r,
            0 <= r < d,
            lo * d <= x < hi * d,
            d > 0,
    ;
}

/// The product of two numbers of bounded magnitude is of bounded magnitude.
pub proof fn lemma_scaled_bound(a: int, b: int, a_max: int, b_max: int)
    requires
        -a_max <= a <= a_max,
        -b_max <= b <= b_max,
    ensures
        -(a_max * b_max) <= a * b <= a_max * b_max,
{
    assert(-(a_max * b_max) <= a * b <= a_max * b_max) by (nonlinear_arith)
        requires
            -a_max <= a <= a_max,
            -b_max <= b <= b_max,
    ;
}

/// Remainder of the floored division of `x` by `m`: the representative of
/// `x` in `0 .. m`.
pub fn wrap_i64(x: i64, m: i64) -> (r: i64)
    requires
        m > 0,
    ensures
        r == (x as int) % (m as int),
        0 <= r < m,
{
    if x >= 0 {
        x % m
    } else {
        let b: i64 = -(x + 1);
        let rb: i64 = b % m;
        proof {
            let q = (b as int) / (m as int);
            vstd::arithmetic::div_mod::lemma_fundamental_div_mod(b as int, m as int);
            assert(x as int == (-q - 1) * m + (m - 1 - rb)) by (nonlinear_arith)
                requires
                    b as int == m * q + rb,
                    x as int == -(b as int) - 1,
            ;
            vstd::arithmetic::div_mod::lemma_fundamental_div_mod_converse(
                x as int,
                m as int,
                -q - 1,
                m - 1 - rb,
            );
        }
        m - 1 - rb
    }
}

/// Quotient of the floored division of `x` by `d`.
pub fn floor_div(x: i64, d: i64) -> (q: i64)
    requires
        d > 0,
    ensures
        q == (x as int) / (d as int),
{
    if x >= 0 {
        x / d
    } else {
        let b: i64 = -(x + 1);
        let qb: i64 = b / d;
        proof {
            let rb = (b as int) % (d as int);
            vstd::arithmetic::div_mod::lemma_fundamental_div_mod(b as int, d as int);
            assert(x as int == (-qb - 1) * d + (d - 1 - rb)) by (nonlinear_arith)
                requires
                    b as int == d * qb + rb,
                    x as int == -(b as int) - 1,
            ;
            vstd::arithmetic::div_mod::lemma_fundamental_div_mod_converse(
                x as int,
                d as int,
                -qb - 1,
                d - 1 - rb,
            );
        }
        -qb - 1
    }
}

/// `r` is the integer square root of `s`: the largest number whose square
/// is not above `s`.
pub open spec fn is_sqrt(s: int, r: int) -> bool {
    0 <= r && r * r <= s < (r + 1) * (r + 1)
}

/// The integer square root.
pub open spec fn int_sqrt(s: int) -> int {
    choose|r: int| is_sqrt(s, r)
}

/// A number has one integer square root only.
pub proof fn lemma_sqrt_unique(s: int, a: int, b: int)
    requires
        is_sqrt(s, a),
        is_sqrt(s, b),
    ensures
        a == b,
{
    if a < b {
        assert((a + 1) * (a + 1) <= b * b) by (nonlinear_arith)
            requires
                0 <= a,
                a + 1 <= b,
        ;
    } else if b < a {
        assert((b + 1) * (b + 1) <= a * a) by (nonlinear_arith)
            requires
                0 <= b,
                b + 1 <= a,
        ;
    }
}

/// Largest number of which `isqrt` takes the root.
pub const SQRT_LIMIT: u64 = 0x3fff_ffff_ffff_ffff;

/// The integer square root of `s`.
pub fn isqrt(s: u64) -> (r: u64)
    requires
        s <= SQRT_LIMIT,
    ensures
        is_sqrt(s as int, r as int),
        r == int_sqrt(s as int),
        r < 0x8000_0000,
{
    let mut lo: u64 = 0;
    let mut hi: u64 = 0x8000_0000;
    assert(0x8000_0000u64 * 0x8000_0000u64 > s) by (nonlinear_arith)
        requires
            s <= 0x3fff_ffff_ffff_ffff,
    ;
    while hi - lo > 1
        invariant
            lo < hi <= 0x8000_0000,
            lo * lo <= s < hi * hi,
        decreases hi - lo,
    {
        let mid: u64 = lo + (hi - lo) / 2;
        assert(mid * mid <= 0x8000_0000 * 0x8000_0000) by (nonlinear_arith)
            requires
                mid <= 0x8000_0000,
        ;
        if mid * mid <= s {
            lo = mid;
        } else {
            hi = mid;
        }
    }
    proof {
        assert(is_sqrt(s as int, lo as int));
        lemma_sqrt_unique(s as int, lo as int, int_sqrt(s as int));
    }
    lo
}

/// The vector of length `SUBCELLS`, rounded down, that points the way of
/// `v`.
pub open spec fn unit_toward(v: WorldPos) -> WorldPos {
    let len = int_sqrt(v.x * v.x + v.y * v.y);
    WorldPos { x: ((v.x * SUBCELLS) / len) as i64, y: ((v.y * SUBCELLS) / len) as i64 }
}

/// Largest magnitude of a component of a vector that `normalize` scales.
pub const NORMALIZE_LIMIT: i64 = 0x4000_0000;

/// Scales a vector that is not zero to the length `SUBCELLS`.
pub fn normalize(v: WorldPos) -> (u: WorldPos)
    requires
        -NORMALIZE_LIMIT <= v.x <= NORMALIZE_LIMIT,
        -NORMALIZE_LIMIT <= v.y <= NORMALIZE_LIMIT,
        v.x != 0 || v.y != 0,
    ensures
        u == unit_toward(v),
        -SUBCELLS <= u.x <= SUBCELLS,
        -SUBCELLS <= u.y <= SUBCELLS,
{
    proof {
        assert(0 <= v.x * v.x <= NORMALIZE_LIMIT * NORMALIZE_LIMIT) by (nonlinear_arith)
            requires
                -NORMALIZE_LIMIT <= v.x <= NORMALIZE_LIMIT,
        ;
        assert(0 <= v.y * v.y <= NORMALIZE_LIMIT * NORMALIZE_LIMIT) by (nonlinear_arith)
            requires
                -NORMALIZE_LIMIT <= v.y <= NORMALIZE_LIMIT,
        ;
    }
    let s: u64 = (v.x * v.x + v.y * v.y) as u64;
    let len: i64 = isqrt(s) as i64;
    proof {
        let l = len as int;
        // the root is not zero, and no component is longer than it
        if l == 0 {
            assert(v.x * v.x + v.y * v.y >= 1) by (nonlinear_arith)
                requires
                    v.x != 0 || v.y != 0,
            ;
        }
        assert(-l <= v.x <= l && -l <= v.y <= l) by (nonlinear_arith)
            requires
                v.x * v.x + v.y * v.y < (l + 1) * (l + 1),
                l >= 0,
        ;
        assert(-SUBCELLS * l <= v.x * SUBCELLS <= SUBCELLS * l);
        assert(-SUBCELLS * l <= v.y * SUBCELLS <= SUBCELLS * l);
        lemma_div_bounds(v.x * SUBCELLS, l, -SUBCELLS as int, SUBCELLS as int + 1);
        lemma_div_bounds(v.y * SUBCELLS, l, -SUBCELLS as int, SUBCELLS as int + 1);
    }
    WorldPos { x: floor_div(v.x * SUBCELLS, len), y: floor_div(v.y * SUBCELLS, len) }
}

} // verus!
