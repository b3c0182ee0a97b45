//! Billboards: which of them the camera sees, in which order they are
//! drawn, where on the screen, and in which screen columns a wall hides
//! them.

use vstd::prelude::*;
use crate::coords::{lemma_scaled_bound, WorldPos, SUBCELLS};
use crate::fpv::{FirstPersonViewer, VIEW_LIMIT};
use crate::mob::MagicColor;
use crate::raycaster::{Ratio, RAY_LIMIT};

verus! {

/// Index of an image of the sprite atlas.
pub type ImageId = usize;

/// The image and the colour of a billboard.
pub type SpriteType = (ImageId, MagicColor);

/// Largest coordinate of a billboard and of the viewer, and largest width
/// of the world, in sub-cell units.
pub const SPRITE_WORLD_LIMIT: i64 = 0x2000_0000;

/// Largest scale of a billboard, with `SUBCELLS` for one.
pub const SPRITE_SCALE_LIMIT: i64 = 0x10_0000;

/// Largest size and largest distance from the screen's origin of a
/// billboard on the screen, in 65536ths of a pixel. What is larger is cut
/// to this.
pub const SCREEN_LIMIT: i64 = 0x4000_0000_0000;

/// How a billboard is scaled and placed: its width and height as parts of
/// the screen at distance one, how far off the middle of a screen column
/// it stands as a part of half the column, and how much of its shield is
/// left; all with `SUBCELLS` for one.
#[derive(Clone, Copy, PartialEq, Eq, Structural, Debug)]
pub struct SpriteScale {
    pub width: i64,
    pub height: i64,
    pub offset: i64,
    pub shield: i64,
}

/// The billboards of a frame.
pub struct Sprites {
    /// The middle of each billboard, in sub-cell units.
    pub sp_positions: Vec<WorldPos>,
    pub sp_size: Vec<SpriteScale>,
    pub sp_type: Vec<SpriteType>,
    /// The billboards to draw, from back to front: the square of the
    /// distance from the viewer and the index of each.
    pub sp_draw_order: Vec<(u64, usize)>,
}

/// Where a billboard is on the screen and how much of it a wall hides.
pub struct SpritePlan {
    /// Index of the billboard.
    pub index: usize,
    /// The depth of the billboard, `depth.num / depth.den`, in lengths of
    /// the view direction.
    pub depth: Ratio,
    /// The left edge and the upper edge of the billboard on the screen and
    /// its width and height, in 65536ths of a pixel.
    pub left: i64,
    pub top: i64,
    pub width: i64,
    pub height: i64,
    /// The pixels that the billboard covers, clipped to the screen: each
    /// range with both its ends.
    pub draw_start_x: usize,
    pub draw_end_x: usize,
    pub draw_start_y: usize,
    pub draw_end_y: usize,
    /// For each screen column from `draw_start_y` to `draw_end_y` whether
    /// the billboard is nearer there than the wall.
    pub visible: Vec<bool>,
}

/// The sign of a number.
pub open spec fn sign(v: int) -> int {
    if v < 0 {
        -1
    } else if v > 0 {
        1
    } else {
        0
    }
}

/// The way from the viewer at `pos` to a thing at `obj` in a world that
/// wraps around: a viewer who faces left sees what is to the right across
/// the seam, and a viewer who faces right sees what is to the left across
/// the seam.
pub open spec fn distance_across_boundary(obj: WorldPos, pos: WorldPos, facing: int, world_width: int) -> (
    int,
    int,
) {
    let dx = obj.x - pos.x;
    (
        if facing < 0 && dx > 0 {
            dx - world_width
        } else if facing > 0 && dx < 0 {
            dx + world_width
        } else {
            dx
        },
        obj.y - pos.y,
    )
}

/// The camera: where it stands, the view direction and the camera plane,
/// and the width of the world, in sub-cell units.
#[derive(Clone, Copy, PartialEq, Eq, Structural, Debug)]
pub struct Camera {
    pub pos: WorldPos,
    pub dir: WorldPos,
    pub plane: WorldPos,
    pub world_width: i64,
}

impl Camera {
    /// Nothing is too large for the arithmetic.
    pub open spec fn wf(self) -> bool {
        &&& 0 <= self.pos.x <= SPRITE_WORLD_LIMIT
        &&& 0 <= self.pos.y <= SPRITE_WORLD_LIMIT
        &&& -VIEW_LIMIT <= self.dir.x <= VIEW_LIMIT
        &&& -VIEW_LIMIT <= self.dir.y <= VIEW_LIMIT
        &&& -VIEW_LIMIT <= self.plane.x <= VIEW_LIMIT
        &&& -VIEW_LIMIT <= self.plane.y <= VIEW_LIMIT
        &&& 0 <= self.world_width <= SPRITE_WORLD_LIMIT
    }

    /// The determinant of the camera matrix, whose columns are the camera
    /// plane and the view direction.
    pub open spec fn det(self) -> int {
        self.plane.x * self.dir.y - self.dir.x * self.plane.y
    }

    /// The way from the camera to a thing at `obj`.
    pub open spec fn toward(self, obj: WorldPos) -> (int, int) {
        distance_across_boundary(obj, self.pos, sign(self.dir.x as int), self.world_width as int)
    }

    /// The depth of a thing at `obj` times the determinant: how far along
    /// the view direction it is.
    pub open spec fn depth_num(self, obj: WorldPos) -> int {
        let rel = self.toward(obj);
        self.plane.x * rel.1 - self.plane.y * rel.0
    }

    /// The offset of a thing at `obj` along the camera plane, times the
    /// determinant.
    pub open spec fn side_num(self, obj: WorldPos) -> int {
        let rel = self.toward(obj);
        self.dir.y * rel.0 - self.dir.x * rel.1
    }

    /// The square of the distance from the camera to a thing at `obj`.
    pub open spec fn dist2(self, obj: WorldPos) -> int {
        let rel = self.toward(obj);
        rel.0 * rel.0 + rel.1 * rel.1
    }

    /// The camera sees a thing at `obj`: it is in front of the camera
    /// plane, nearer than `cutoff`, and the camera matrix can be inverted.
    pub open spec fn sees(self, obj: WorldPos, cutoff: i64) -> bool {
        &&& self.det() != 0
        &&& self.depth_num(obj) * self.det() > 0
        &&& self.dist2(obj) < cutoff * cutoff
    }
}

/// A billboard at depth `depth` is nearer than what the depth buffer holds
/// for a column: nothing, or a wall that is farther away.
pub open spec fn nearer_than(depth: Ratio, wall: Option<Ratio>) -> bool {
    match wall {
        None => true,
        Some(z) => depth.num * z.den < z.num * depth.den,
    }
}

/// Sprite occlusion. A billboard that is strictly behind the wall of a
/// screen column is not nearer there than the wall, and one that is
/// strictly in front of it is; so is any billboard where no wall was hit.
/// Depths are compared as the fractions that they are.
pub proof fn lemma_occlusion(depth: Ratio, wall: Ratio)
    requires
        depth.den > 0,
        wall.den > 0,
    ensures
        depth.num * wall.den > wall.num * depth.den ==> !nearer_than(depth, Some(wall)),
        depth.num * wall.den < wall.num * depth.den ==> nearer_than(depth, Some(wall)),
        nearer_than(depth, None),
{
}

/// `v`, cut to what fits on the screen: to `-SCREEN_LIMIT ..= SCREEN_LIMIT`.
pub open spec fn cut(v: int) -> int {
    if v < -SCREEN_LIMIT {
        -SCREEN_LIMIT as int
    } else if v > SCREEN_LIMIT {
        SCREEN_LIMIT as int
    } else {
        v
    }
}

/// The pixel that holds a point of the screen given in 65536ths of a
/// pixel, or the first pixel for a point before it.
pub open spec fn pixel_of(v: int) -> int {
    if v < 0 {
        0
    } else {
        v / (SUBCELLS as int)
    }
}

/// Where a billboard that the camera sees is on a screen of the given
/// size. All lengths are in 65536ths of a pixel and rounded down.
pub struct Placement {
    /// The depth as a fraction with positive parts.
    pub depth_num: int,
    pub depth_den: int,
    pub left: int,
    pub top: int,
    pub width: int,
    pub height: int,
    pub draw_start_x: int,
    pub draw_end_x: int,
    pub draw_start_y: int,
    pub draw_end_y: int,
}

/// The smaller of two numbers.
pub open spec fn smaller(a: int, b: int) -> int {
    if a <= b {
        a
    } else {
        b
    }
}

/// Where a billboard at `obj` is on the screen. Its size is its scale times
/// the size of the screen, divided by its depth. Along a screen column it
/// is centred where the ray to it meets the camera plane; across the
/// columns it is centred in the middle, moved by its offset. The pixels it
/// covers are clipped to the screen.
pub open spec fn placement(camera: Camera, obj: WorldPos, scale: SpriteScale, render_size: (u16, u16)) -> Placement {
    let f = SUBCELLS as int;
    let w = render_size.0 as int;
    let h = render_size.1 as int;
    let flip = camera.depth_num(obj) < 0;
    let t = if flip {
        -camera.depth_num(obj)
    } else {
        camera.depth_num(obj)
    };
    let side = if flip {
        -camera.side_num(obj)
    } else {
        camera.side_num(obj)
    };
    let d = if camera.det() < 0 {
        -camera.det()
    } else {
        camera.det()
    };
    let width = cut((scale.width * w * d) / t);
    let height = cut((scale.height * h * d) / t);
    let center_x = (w * (f + scale.offset)) / 2;
    let center_y = (h * f) / 2 + cut((h * f * side) / (2 * t));
    let left = center_x - width / 2;
    let top = center_y - height / 2;
    Placement {
        depth_num: t,
        depth_den: d,
        left,
        top,
        width,
        height,
        draw_start_x: pixel_of(left),
        draw_end_x: smaller(w - 1, pixel_of(center_x + width / 2)),
        draw_start_y: pixel_of(top),
        draw_end_y: smaller(h - 1, pixel_of(center_y + height / 2)),
    }
}

/// The scale of a billboard is in range.
pub open spec fn scale_in_range(scale: SpriteScale) -> bool {
    &&& 0 <= scale.width <= SPRITE_SCALE_LIMIT
    &&& 0 <= scale.height <= SPRITE_SCALE_LIMIT
    &&& -SPRITE_SCALE_LIMIT <= scale.offset <= SPRITE_SCALE_LIMIT
}

/// The draw order lists the billboards that the camera sees, each once,
/// with the square of its distance, from back to front; billboards as far
/// away as each other are in the order of their indices.
pub open spec fn is_draw_order(
    order: Seq<(u64, usize)>,
    positions: Seq<WorldPos>,
    camera: Camera,
    cutoff: i64,
) -> bool {
    &&& forall|a: int|
        0 <= a < order.len() ==> (#[trigger] order[a]).1 < positions.len() && camera.sees(
            positions[order[a].1 as int],
            cutoff,
        ) && order[a].0 == camera.dist2(positions[order[a].1 as int])
    &&& forall|i: int|
        0 <= i < positions.len() && camera.sees(#[trigger] positions[i], cutoff) ==> exists|a: int|
            0 <= a < order.len() && (#[trigger] order[a]).1 == i
    &&& forall|a: int, b: int|
        0 <= a < b < order.len() ==> (#[trigger] order[a]).0 > (#[trigger] order[b]).0 || (order[a].0
            == order[b].0 && order[a].1 < order[b].1)
}

/// Quotient of the floored division of `x` by `d`, for wide numbers.
pub fn floor_div_wide(x: i128, d: i128) -> (q: i128)
    requires
        d > 0,
        x > i128::MIN,
    ensures
        q == (x as int) / (d as int),
{
    if x >= 0 {
        x / d
    } else {
        let b: i128 = -(x + 1);
        let qb: i128 = b / d;
        proof {
            let rb = (b as int) % (d as int);
            vstd::arithmetic::div_mod::lemma_fundamental_div_mod(b as int, d as int);
            assert(x as int == (-qb - 1) * d + (d - 1 - rb)) by (nonlinear_arith)
                requires
                    b as int == d * qb + rb,
                    x as int == -(b as int) - 1,
            ;
            vstd::arithmetic::div_mod::lemma_fundamental_div_mod_converse(
                x as int,
                d as int,
                -qb - 1,
                d - 1 - rb,
            );
        }
        -qb - 1
    }
}

/// `v`, cut to what fits on the screen.
fn cut_to_screen(v: i128) -> (r: i64)
    ensures
        r == cut(v as int),
        -SCREEN_LIMIT <= r <= SCREEN_LIMIT,
{
    if v < -(SCREEN_LIMIT as i128) {
        -SCREEN_LIMIT
    } else if v > SCREEN_LIMIT as i128 {
        SCREEN_LIMIT
    } else {
        v as i64
    }
}

/// The pixel that holds a point of the screen, not beyond `last`.
fn pixel_up_to(v: i64, last: usize) -> (p: usize)
    requires
        -4 * SCREEN_LIMIT <= v <= 4 * SCREEN_LIMIT,
        last <= 0xffff,
    ensures
        p == smaller(last as int, pixel_of(v as int)),
{
    if v < 0 {
        0
    } else {
        let q: i64 = v / SUBCELLS;
        if q > last as i64 {
            last
        } else {
            q as usize
        }
    }
}

/// The way from the viewer to a thing in a world that wraps around. See
/// `distance_across_boundary`; `facing` is negative for a viewer who faces
/// left and positive for one who faces right.
pub fn find_distance_across_boundary(obj: WorldPos, pos: WorldPos, facing: i64, world_width: i64) -> (diff:
    WorldPos)
    requires
        -SPRITE_WORLD_LIMIT <= obj.x <= SPRITE_WORLD_LIMIT,
        -SPRITE_WORLD_LIMIT <= obj.y <= SPRITE_WORLD_LIMIT,
        -SPRITE_WORLD_LIMIT <= pos.x <= SPRITE_WORLD_LIMIT,
        -SPRITE_WORLD_LIMIT <= pos.y <= SPRITE_WORLD_LIMIT,
        0 <= world_width <= SPRITE_WORLD_LIMIT,
    ensures
        (diff.x as int, diff.y as int) == distance_across_boundary(
            obj,
            pos,
            facing as int,
            world_width as int,
        ),
        -3 * SPRITE_WORLD_LIMIT <= diff.x <= 3 * SPRITE_WORLD_LIMIT,
        -2 * SPRITE_WORLD_LIMIT <= diff.y <= 2 * SPRITE_WORLD_LIMIT,
{
    let mut diff = WorldPos { x: obj.x - pos.x, y: obj.y - pos.y };
    if facing < 0 && diff.x > 0 {
        diff.x = -pos.x + obj.x - world_width;
    } else if facing > 0 && diff.x < 0 {
        diff.x = world_width + obj.x - pos.x;
    }
    diff
}

/// What the camera measures of a thing: the square of its distance, and
/// its depth and its offset along the camera plane, each times the
/// determinant of the camera matrix.
struct Measures {
    dist2: u64,
    depth_num: i64,
    side_num: i64,
}

impl Camera {
    /// The determinant of the camera matrix.
    fn determinant(&self) -> (d: i64)
        requires
            self.wf(),
        ensures
            d == self.det(),
            -0x200_0000_0000_0000 <= d <= 0x200_0000_0000_0000,
    {
        proof {
            lemma_scaled_bound(self.plane.x as int, self.dir.y as int, VIEW_LIMIT as int, VIEW_LIMIT as int);
            lemma_scaled_bound(self.dir.x as int, self.plane.y as int, VIEW_LIMIT as int, VIEW_LIMIT as int);
        }
        self.plane.x * self.dir.y - self.dir.x * self.plane.y
    }

    /// Measures a thing at `obj`.
    fn measure(&self, obj: WorldPos) -> (m: Measures)
        requires
            self.wf(),
            -SPRITE_WORLD_LIMIT <= obj.x <= SPRITE_WORLD_LIMIT,
            -SPRITE_WORLD_LIMIT <= obj.y <= SPRITE_WORLD_LIMIT,
        ensures
            m.dist2 == self.dist2(obj),
            m.depth_num == self.depth_num(obj),
            m.side_num == self.side_num(obj),
            -0x1000_0000_0000_0000 <= m.depth_num <= 0x1000_0000_0000_0000,
            -0x1000_0000_0000_0000 <= m.side_num <= 0x1000_0000_0000_0000,
    {
        let facing: i64 = if self.dir.x < 0 {
            -1
        } else if self.dir.x > 0 {
            1
        } else {
            0
        };
        let rel = find_distance_across_boundary(obj, self.pos, facing, self.world_width);
        proof {
            let far = 3 * SPRITE_WORLD_LIMIT as int;
            lemma_scaled_bound(rel.x as int, rel.x as int, far, far);
            lemma_scaled_bound(rel.y as int, rel.y as int, far, far);
            assert(rel.x * rel.x >= 0 && rel.y * rel.y >= 0) by (nonlinear_arith);
            lemma_scaled_bound(self.plane.x as int, rel.y as int, VIEW_LIMIT as int, far);
            lemma_scaled_bound(self.plane.y as int, rel.x as int, VIEW_LIMIT as int, far);
            lemma_scaled_bound(self.dir.y as int, rel.x as int, VIEW_LIMIT as int, far);
            lemma_scaled_bound(self.dir.x as int, rel.y as int, VIEW_LIMIT as int, far);
        }
        Measures {
            dist2: (rel.x * rel.x + rel.y * rel.y) as u64,
            depth_num: self.plane.x * rel.y - self.plane.y * rel.x,
            side_num: self.dir.y * rel.x - self.dir.x * rel.y,
        }
    }
}

impl Sprites {
    /// There is a position, a scale and a type for every billboard, and
    /// positions and scales are in range.
    pub open spec fn wf(&self) -> bool {
        &&& self.sp_size@.len() == self.sp_positions@.len()
        &&& self.sp_type@.len() == self.sp_positions@.len()
        &&& forall|i: int|
            0 <= i < self.sp_positions@.len() ==> -SPRITE_WORLD_LIMIT <= (
            #[trigger] self.sp_positions@[i]).x <= SPRITE_WORLD_LIMIT && -SPRITE_WORLD_LIMIT
                <= self.sp_positions@[i].y <= SPRITE_WORLD_LIMIT
        &&& forall|i: int| 0 <= i < self.sp_size@.len() ==> scale_in_range(#[trigger] self.sp_size@[i])
    }

    /// The billboards, each as its position, its type and its scale.
    pub open spec fn entries(&self) -> Seq<(WorldPos, SpriteType, SpriteScale)> {
        Seq::new(
            self.sp_positions@.len(),
            |i: int| (self.sp_positions@[i], self.sp_type@[i], self.sp_size@[i]),
        )
    }

    /// No billboards.
    pub fn new() -> (sprites: Sprites)
        ensures
            sprites.wf(),
            sprites.sp_positions@.len() == 0,
            sprites.sp_draw_order@.len() == 0,
    {
        Sprites {
            sp_positions: Vec::new(),
            sp_size: Vec::new(),
            sp_type: Vec::new(),
            sp_draw_order: Vec::new(),
        }
    }

    /// Adds a billboard. It is not drawn before `draw_sprites` has put it
    /// into the draw order; until then its entry there says that it is
    /// infinitely far away.
    pub fn add_sprite(&mut self, pos: WorldPos, sprite_type: SpriteType, scaling: SpriteScale)
        requires
            old(self).wf(),
            -SPRITE_WORLD_LIMIT <= pos.x <= SPRITE_WORLD_LIMIT,
            -SPRITE_WORLD_LIMIT <= pos.y <= SPRITE_WORLD_LIMIT,
            scale_in_range(scaling),
        ensures
            final(self).wf(),
            final(self).sp_positions@ == old(self).sp_positions@.push(pos),
            final(self).sp_type@ == old(self).sp_type@.push(sprite_type),
            final(self).sp_size@ == old(self).sp_size@.push(scaling),
            final(self).sp_draw_order@ == old(self).sp_draw_order@.push((u64::MAX, 0usize)),
            final(self).entries() == old(self).entries().push((pos, sprite_type, scaling)),
    {
        self.sp_positions.push(pos);
        self.sp_type.push(sprite_type);
        self.sp_size.push(scaling);
        self.sp_draw_order.push((u64::MAX, 0));
        proof {
            assert(self.entries() =~= old(self).entries().push((pos, sprite_type, scaling)));
        }
    }

    /// Removes every billboard.
    pub fn clear_sprites(&mut self)
        ensures
            final(self).wf(),
            final(self).sp_positions@.len() == 0,
            final(self).sp_type@.len() == 0,
            final(self).sp_size@.len() == 0,
            final(self).sp_draw_order@.len() == 0,
            final(self).entries().len() == 0,
    {
        self.sp_positions.clear();
        self.sp_type.clear();
        self.sp_size.clear();
        self.sp_draw_order.clear();
    }

    /// Works out the draw order: the billboards that the camera sees,
    /// nearer than `cutoff_distance`, from back to front.
    pub fn sort_sprites(&mut self, camera: &Camera, cutoff_distance: i64)
        requires
            old(self).wf(),
            camera.wf(),
            0 <= cutoff_distance <= RAY_LIMIT,
        ensures
            final(self).wf(),
            final(self).sp_positions == old(self).sp_positions,
            final(self).sp_size == old(self).sp_size,
            final(self).sp_type == old(self).sp_type,
            is_draw_order(
                final(self).sp_draw_order@,
                final(self).sp_positions@,
                *camera,
                cutoff_distance,
            ),
    {
        self.sp_draw_order.clear();
        let det: i64 = camera.determinant();
        proof {
            lemma_scaled_bound(
                cutoff_distance as int,
                cutoff_distance as int,
                RAY_LIMIT as int,
                RAY_LIMIT as int,
            );
            assert(cutoff_distance * cutoff_distance >= 0) by (nonlinear_arith);
        }
        let cutoff: u64 = (cutoff_distance * cutoff_distance) as u64;
        let n: usize = self.sp_positions.len();
        let mut i: usize = 0;
        while i < n
            invariant
                i <= n,
                n == self.sp_positions@.len(),
                self.wf(),
                camera.wf(),
                self.sp_positions == old(self).sp_positions,
                self.sp_size == old(self).sp_size,
                self.sp_type == old(self).sp_type,
                det == camera.det(),
                cutoff == cutoff_distance * cutoff_distance,
                is_draw_order(
                    self.sp_draw_order@,
                    self.sp_positions@.take(i as int),
                    *camera,
                    cutoff_distance,
                ),
            decreases n - i,
        {
            let sprite = self.sp_positions[i];
            let m = camera.measure(sprite);
            let seen: bool = is_seen(det, m.depth_num, m.dist2, cutoff);
            let ghost before = self.sp_draw_order@;
            let ghost seen_so_far = self.sp_positions@.take(i as int);
            proof {
                assert(self.sp_positions@.take(i as int + 1) == seen_so_far.push(sprite));
            }
            if seen {
                let p: usize = insertion_point(&self.sp_draw_order, m.dist2);
                self.sp_draw_order.insert(p, (m.dist2, i));
                proof {
                    lemma_order_insert(
                        before,
                        seen_so_far,
                        sprite,
                        *camera,
                        cutoff_distance,
                        p as int,
                        m.dist2,
                    );
                }
            } else {
                proof {
                    lemma_order_skip(before, seen_so_far, sprite, *camera, cutoff_distance);
                }
            }
            i += 1;
        }
        proof {
            assert(self.sp_positions@.take(n as int) == self.sp_positions@);
        }
    }
}

/// Whether the camera sees a thing with these measures.
fn is_seen(det: i64, depth_num: i64, dist2: u64, cutoff: u64) -> (seen: bool)
    ensures
        seen <==> det != 0 && depth_num * det > 0 && dist2 < cutoff,
{
    let in_front: bool = (det > 0 && depth_num > 0) || (det < 0 && depth_num < 0);
    proof {
        assert(in_front <==> det != 0 && depth_num * det > 0) by (nonlinear_arith)
            requires
                in_front == ((det > 0 && depth_num > 0) || (det < 0 && depth_num < 0)),
        ;
    }
    in_front && dist2 < cutoff
}

/// Where in a draw order a billboard at the given distance goes: behind
/// all that are as far away or farther.
fn insertion_point(order: &Vec<(u64, usize)>, dist2: u64) -> (p: usize)
    ensures
        p <= order@.len(),
        forall|a: int| 0 <= a < p ==> (#[trigger] order@[a]).0 >= dist2,
        p < order@.len() ==> order@[p as int].0 < dist2,
{
    let order_len: usize = order.len();
    let mut p: usize = 0;
    while p < order_len && order[p].0 >= dist2
        invariant
            p <= order_len,
            order_len == order@.len(),
            forall|a: int| 0 <= a < p ==> (#[trigger] order@[a]).0 >= dist2,
        decreases order_len - p,
    {
        p += 1;
    }
    p
}

/// A billboard that the camera sees takes its place in the draw order.
proof fn lemma_order_insert(
    before: Seq<(u64, usize)>,
    positions: Seq<WorldPos>,
    sprite: WorldPos,
    camera: Camera,
    cutoff: i64,
    p: int,
    dist2: u64,
)
    requires
        is_draw_order(before, positions, camera, cutoff),
        camera.sees(sprite, cutoff),
        dist2 == camera.dist2(sprite),
        positions.len() <= usize::MAX,
        0 <= p <= before.len(),
        forall|a: int| 0 <= a < p ==> (#[trigger] before[a]).0 >= dist2,
        p < before.len() ==> before[p].0 < dist2,
    ensures
        is_draw_order(
            before.insert(p, (dist2, positions.len() as usize)),
            positions.push(sprite),
            camera,
            cutoff,
        ),
{
    let i = positions.len() as usize;
    let after = before.insert(p, (dist2, i));
    let now = positions.push(sprite);
    assert forall|a: int| 0 <= a < after.len() implies (#[trigger] after[a]).1 < now.len()
        && camera.sees(now[after[a].1 as int], cutoff) && after[a].0 == camera.dist2(
        now[after[a].1 as int],
    ) by {
        if a < p {
            assert(after[a] == before[a]);
        } else if a > p {
            assert(after[a] == before[a - 1]);
        }
    }
    assert forall|k: int| 0 <= k < now.len() && camera.sees(#[trigger] now[k], cutoff) implies exists|
        a: int,
    |
        0 <= a < after.len() && (#[trigger] after[a]).1 == k by {
        if k < positions.len() {
            assert(camera.sees(positions[k], cutoff));
            let a0 = choose|a: int| 0 <= a < before.len() && (#[trigger] before[a]).1 == k;
            if a0 < p {
                assert(after[a0] == before[a0]);
            } else {
                assert(after[a0 + 1] == before[a0]);
            }
        } else {
            assert(after[p].1 == k);
        }
    }
    assert forall|a: int, b: int| 0 <= a < b < after.len() implies (#[trigger] after[a]).0 > (
    #[trigger] after[b]).0 || (after[a].0 == after[b].0 && after[a].1 < after[b].1) by {
        if b < p {
            assert(after[a] == before[a] && after[b] == before[b]);
        } else if a > p {
            assert(after[a] == before[a - 1] && after[b] == before[b - 1]);
        } else if a < p && b > p {
            assert(after[a] == before[a] && after[b] == before[b - 1]);
        } else if b == p {
            assert(after[a] == before[a]);
            assert(before[a].1 < positions.len());
        } else {
            assert(after[b] == before[b - 1]);
            assert(before[p].0 < dist2);
            if b - 1 > p {
                assert(before[p].0 > before[b - 1].0 || before[p].0 == before[b - 1].0);
            }
        }
    }
}

/// A billboard that the camera does not see leaves the draw order as it
/// is.
proof fn lemma_order_skip(
    before: Seq<(u64, usize)>,
    positions: Seq<WorldPos>,
    sprite: WorldPos,
    camera: Camera,
    cutoff: i64,
)
    requires
        is_draw_order(before, positions, camera, cutoff),
        !camera.sees(sprite, cutoff),
    ensures
        is_draw_order(before, positions.push(sprite), camera, cutoff),
{
    let now = positions.push(sprite);
    assert forall|a: int| 0 <= a < before.len() implies (#[trigger] before[a]).1 < now.len()
        && camera.sees(now[before[a].1 as int], cutoff) && before[a].0 == camera.dist2(
        now[before[a].1 as int],
    ) by {
        assert(before[a].1 < positions.len());
    }
    assert forall|k: int| 0 <= k < now.len() && camera.sees(#[trigger] now[k], cutoff) implies exists|
        a: int,
    |
        0 <= a < before.len() && (#[trigger] before[a]).1 == k by {
        assert(k < positions.len());
        assert(camera.sees(positions[k], cutoff));
    }
}

/// Whether a billboard at the given depth is nearer than what the depth
/// buffer holds for a column. See `nearer_than`.
pub fn is_nearer(depth: Ratio, wall: Option<Ratio>) -> (nearer: bool)
    ensures
        nearer == nearer_than(depth, wall),
{
    match wall {
        None => true,
        Some(z) => {
            proof {
                lemma_scaled_bound(
                    depth.num as int,
                    z.den as int,
                    0x8000_0000_0000_0000,
                    0x8000_0000_0000_0000,
                );
                lemma_scaled_bound(
                    z.num as int,
                    depth.den as int,
                    0x8000_0000_0000_0000,
                    0x8000_0000_0000_0000,
                );
            }
            (depth.num as i128) * (z.den as i128) < (z.num as i128) * (depth.den as i128)
        },
    }
}

/// The plan says where the billboard with index `index` is on the screen
/// of the viewer, and in which of the screen columns that it covers it is
/// nearer than the wall.
pub open spec fn is_plan_of(
    plan: SpritePlan,
    index: int,
    camera: Camera,
    obj: WorldPos,
    scale: SpriteScale,
    viewer: &FirstPersonViewer,
) -> bool {
    let place = placement(camera, obj, scale, viewer.render_size);
    &&& plan.index == index
    &&& plan.depth.num == place.depth_num
    &&& plan.depth.den == place.depth_den
    &&& plan.left == place.left
    &&& plan.top == place.top
    &&& plan.width == place.width
    &&& plan.height == place.height
    &&& plan.draw_start_x == place.draw_start_x
    &&& plan.draw_end_x == place.draw_end_x
    &&& plan.draw_start_y == place.draw_start_y
    &&& plan.draw_end_y == place.draw_end_y
    &&& plan.visible@.len() == (if place.draw_start_y <= place.draw_end_y {
        place.draw_end_y - place.draw_start_y + 1
    } else {
        0
    })
    &&& forall|k: int|
        0 <= k < plan.visible@.len() ==> #[trigger] plan.visible@[k] == nearer_than(
            plan.depth,
            viewer.z_buffer@[place.draw_start_y + k],
        )
}

/// Works out where a billboard that the camera sees is on the screen.
fn plan_sprite(
    camera: &Camera,
    obj: WorldPos,
    scale: SpriteScale,
    index: usize,
    viewer: &FirstPersonViewer,
) -> (plan: SpritePlan)
    requires
        camera.wf(),
        camera.det() != 0,
        camera.depth_num(obj) * camera.det() > 0,
        -SPRITE_WORLD_LIMIT <= obj.x <= SPRITE_WORLD_LIMIT,
        -SPRITE_WORLD_LIMIT <= obj.y <= SPRITE_WORLD_LIMIT,
        scale_in_range(scale),
        viewer.wf(),
        viewer.render_size.0 >= 1,
        viewer.render_size.1 >= 1,
    ensures
        is_plan_of(plan, index as int, *camera, obj, scale, viewer),
        plan.depth.den > 0,
        plan.draw_end_x < viewer.render_size.0,
        plan.draw_end_y < viewer.render_size.1,
{
    let f: i128 = SUBCELLS as i128;
    let w: i128 = viewer.render_size.0 as i128;
    let h: i128 = viewer.render_size.1 as i128;
    let det: i64 = camera.determinant();
    let m = camera.measure(obj);
    let flip: bool = m.depth_num < 0;
    let t: i64 = if flip {
        -m.depth_num
    } else {
        m.depth_num
    };
    let side: i64 = if flip {
        -m.side_num
    } else {
        m.side_num
    };
    let d: i64 = if det < 0 {
        -det
    } else {
        det
    };
    proof {
        if m.depth_num == 0 {
            assert(m.depth_num * det == 0) by (nonlinear_arith)
                requires
                    m.depth_num == 0,
            ;
        }
        assert(0 <= scale.width * w <= 0x10_0000 * 0x1_0000 && 0 <= scale.height * h <= 0x10_0000
            * 0x1_0000) by (nonlinear_arith)
            requires
                0 <= scale.width <= 0x10_0000,
                0 <= scale.height <= 0x10_0000,
                0 <= w <= 0x1_0000,
                0 <= h <= 0x1_0000,
        ;
        lemma_scaled_bound(scale.width * w, d as int, 0x10_0000_0000int, 0x200_0000_0000_0000);
        lemma_scaled_bound(scale.height * h, d as int, 0x10_0000_0000int, 0x200_0000_0000_0000);
        assert(scale.width * w * d >= 0 && scale.height * h * d >= 0) by (nonlinear_arith)
            requires
                scale.width * w >= 0,
                scale.height * h >= 0,
                d >= 0,
        ;
        assert(0 <= h * f <= 0x1_0000 * 0x1_0000) by (nonlinear_arith)
            requires
                0 <= h <= 0x1_0000,
                f == 0x1_0000,
        ;
        lemma_scaled_bound(h * f, side as int, 0x1_0000_0000int, 0x1000_0000_0000_0000);
        lemma_scaled_bound(w as int, f + scale.offset, 0x1_0000, 0x20_0000);
    }
    let width: i64 = cut_to_screen(floor_div_wide((scale.width as i128) * w * (d as i128), t as i128));
    let height: i64 = cut_to_screen(
        floor_div_wide((scale.height as i128) * h * (d as i128), t as i128),
    );
    let center_x: i64 = floor_div_wide(w * (f + scale.offset as i128), 2) as i64;
    let lean: i64 = cut_to_screen(floor_div_wide(h * f * (side as i128), 2 * (t as i128)));
    let center_y: i64 = ((h * f) / 2) as i64 + lean;
    let left: i64 = center_x - width / 2;
    let top: i64 = center_y - height / 2;
    let draw_start_x: usize = if left < 0 {
        0
    } else {
        (left / SUBCELLS) as usize
    };
    let draw_end_x: usize = pixel_up_to(center_x + width / 2, (viewer.render_size.0 - 1) as usize);
    let draw_start_y: usize = if top < 0 {
        0
    } else {
        (top / SUBCELLS) as usize
    };
    let draw_end_y: usize = pixel_up_to(center_y + height / 2, (viewer.render_size.1 - 1) as usize);
    let depth = Ratio { num: t, den: d };
    let mut visible: Vec<bool> = Vec::new();
    if draw_start_y <= draw_end_y {
        let mut y: usize = draw_start_y;
        while y <= draw_end_y
            invariant
                draw_start_y <= y <= draw_end_y + 1,
                draw_end_y < viewer.render_size.1,
                viewer.wf(),
                visible@.len() == y - draw_start_y,
                forall|k: int|
                    0 <= k < visible@.len() ==> #[trigger] visible@[k] == nearer_than(
                        depth,
                        viewer.z_buffer@[draw_start_y + k],
                    ),
            decreases draw_end_y + 1 - y,
        {
            visible.push(is_nearer(depth, viewer.z_buffer[y]));
            y += 1;
        }
    }
    SpritePlan {
        index,
        depth,
        left,
        top,
        width,
        height,
        draw_start_x,
        draw_end_x,
        draw_start_y,
        draw_end_y,
        visible,
    }
}

impl Sprites {
    /// Plans the drawing of the billboards into the image of `viewer`, as
    /// seen from `pos` in direction `dir` with the camera plane `plane`, in
    /// a world `world_width` sub-cell units wide.
    ///
    /// The draw order is worked out first: the billboards that the camera
    /// sees, nearer than `cutoff_distance`, from back to front. Then comes
    /// one plan for each of them, in that order. A plan says where the
    /// billboard is on the screen and in which screen columns it is nearer
    /// than the wall that the depth buffer of the viewer holds there; it is
    /// to be drawn in those and in no others. The viewer is not changed.
    pub fn draw_sprites(
        &mut self,
        cutoff_distance: i64,
        viewer: &FirstPersonViewer,
        pos: WorldPos,
        dir: WorldPos,
        plane: WorldPos,
        world_width: i64,
    ) -> (plans: Vec<SpritePlan>)
        requires
            old(self).wf(),
            viewer.wf(),
            viewer.render_size.0 >= 1,
            viewer.render_size.1 >= 1,
            (Camera { pos, dir, plane, world_width }).wf(),
            0 <= cutoff_distance <= RAY_LIMIT,
        ensures
            final(self).wf(),
            final(self).sp_positions == old(self).sp_positions,
            final(self).sp_size == old(self).sp_size,
            final(self).sp_type == old(self).sp_type,
            is_draw_order(
                final(self).sp_draw_order@,
                final(self).sp_positions@,
                Camera { pos, dir, plane, world_width },
                cutoff_distance,
            ),
            plans@.len() == final(self).sp_draw_order@.len(),
            forall|a: int|
                0 <= a < plans@.len() ==> is_plan_of(
                    #[trigger] plans@[a],
                    final(self).sp_draw_order@[a].1 as int,
                    Camera { pos, dir, plane, world_width },
                    final(self).sp_positions@[final(self).sp_draw_order@[a].1 as int],
                    final(self).sp_size@[final(self).sp_draw_order@[a].1 as int],
                    viewer,
                ),
    {
        let camera = Camera { pos, dir, plane, world_width };
        self.sort_sprites(&camera, cutoff_distance);
        let mut plans: Vec<SpritePlan> = Vec::new();
        let n: usize = self.sp_draw_order.len();
        let mut a: usize = 0;
        while a < n
            invariant
                a <= n,
                n == self.sp_draw_order@.len(),
                self.wf(),
                viewer.wf(),
                viewer.render_size.0 >= 1,
                viewer.render_size.1 >= 1,
                camera.wf(),
                camera == (Camera { pos, dir, plane, world_width }),
                is_draw_order(self.sp_draw_order@, self.sp_positions@, camera, cutoff_distance),
                plans@.len() == a,
                forall|b: int|
                    0 <= b < a ==> is_plan_of(
                        #[trigger] plans@[b],
                        self.sp_draw_order@[b].1 as int,
                        camera,
                        self.sp_positions@[self.sp_draw_order@[b].1 as int],
                        self.sp_size@[self.sp_draw_order@[b].1 as int],
                        viewer,
                    ),
            decreases n - a,
        {
            let i: usize = self.sp_draw_order[a].1;
            assert(self.sp_draw_order@[a as int].1 < self.sp_positions@.len());
            let plan = plan_sprite(
                &camera,
                self.sp_positions[i],
                self.sp_size[i],
                i,
                viewer,
            );
            plans.push(plan);
            a += 1;
        }
        plans
    }
}

} // verus!
