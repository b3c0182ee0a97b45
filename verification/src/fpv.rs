//! The first-person viewer: one ray per screen column, the wall slice that
//! each ray gives, and the depth buffer that the slices leave behind.

use vstd::prelude::*;
use crate::coords::{floor_div, lemma_div_bounds, wrap_i64, GridCoord, WorldPos, SUBCELLS};
use crate::grid2d::{Grid2D, GridCellType, WallGridCell};
use crate::level::Level;
use crate::raycaster::{cast_ray, ray_cast, HitSide, Ratio, ORIGIN_LIMIT, RAY_LIMIT};

verus! {

/// Index of an image of the sprite atlas.
pub type SpriteId = usize;

/// The images of a room.
#[derive(Clone, Copy, PartialEq, Eq, Structural, Debug)]
pub struct RoomTextureBindings {
    pub floor: SpriteId,
    pub wall: SpriteId,
    pub ceiling: SpriteId,
}

/// The image of a side wall: how fast it repeats with the distance, in
/// sub-cell units, and whether it is pinned to the viewer rather than to
/// the world.
#[derive(Clone, Copy, PartialEq, Eq, Structural, Debug)]
pub struct WallTextureBinding {
    pub sprite_id: SpriteId,
    pub repeat_speed: i64,
    pub pin: bool,
}

/// The images of the two side walls.
#[derive(Clone, Copy, PartialEq, Eq, Structural, Debug)]
pub struct WallTextureBindings {
    pub left: WallTextureBinding,
    pub right: WallTextureBinding,
}

/// Largest magnitude of a component of the view direction and of the camera
/// plane, in sub-cell units.
pub const VIEW_LIMIT: i64 = 0x1000_0000;

/// Largest numerator and denominator of the scale of the slices.
pub const SCALE_LIMIT: i64 = 0x1_0000;

/// A viewer of `render_size.0` by `render_size.1` pixels. Screen columns
/// run along the second of the two for `draw_view` and along the first for
/// `draw_view_horizontal`.
pub struct FirstPersonViewer {
    pub render_size: (u16, u16),
    /// The pixels, row by row, as red, green, blue and alpha.
    pub render_image: Vec<[u8; 4]>,
    /// For each screen column the depth of the wall in it, as the
    /// parameter of the ray that hit it; `None` where no wall was hit,
    /// which is infinitely far.
    pub z_buffer: Vec<Option<Ratio>>,
}

/// What one screen column shows: the ray that was cast for it and what
/// `cast_ray` reported of it, the width of the wall slice in pixels, the
/// pixels from `draw_start` up to `draw_end` that the slice covers, the
/// image to take its colours from, if it has one, and where on the wall the
/// ray hit: the part of a cell, in sub-cell units, by which the point of the
/// hit lies behind a grid line.
#[derive(Clone, Copy, PartialEq, Eq, Structural, Debug)]
pub struct WallSlice {
    pub ray: WorldPos,
    pub perp: Ratio,
    pub hit_type: WallGridCell,
    pub hit_side: HitSide,
    pub cell: GridCoord,
    pub line_width: i32,
    pub draw_start: usize,
    pub draw_end: usize,
    pub texture: Option<SpriteId>,
    pub wall_offset: i64,
}

/// The larger of two numbers.
pub open spec fn larger(a: int, b: int) -> int {
    if a >= b {
        a
    } else {
        b
    }
}

/// The direction of the ray for screen column `column` of `count`: the view
/// direction plus the camera plane times the offset of the column, which
/// runs from -1 at the first column to 1 behind the last, or the other way
/// round if `flip` is set.
pub open spec fn column_ray(dir: WorldPos, plane: WorldPos, column: int, count: int, flip: bool) -> WorldPos {
    let offset = if flip {
        count - 2 * column
    } else {
        2 * column - count
    };
    WorldPos {
        x: (dir.x + (plane.x * offset) / count) as i64,
        y: (dir.y + (plane.y * offset) / count) as i64,
    }
}

/// The width in pixels of the slice of a wall at depth `perp` on a screen
/// `extent` pixels wide: `scale * extent / perp`, rounded down, and
/// `i32::MAX` where that is more or where the depth is zero.
pub open spec fn projected_width(perp: Ratio, extent: int, scale: Ratio) -> int {
    if perp.num == 0 {
        i32::MAX as int
    } else {
        let w = (scale.num * extent * perp.den) / (scale.den * perp.num);
        if w > i32::MAX {
            i32::MAX as int
        } else {
            w
        }
    }
}

/// The pixels that a slice of the given width covers on a screen `extent`
/// pixels wide: it is centred, and clipped to the screen.
pub open spec fn slice_span(line_width: int, extent: int) -> (int, int) {
    let start = extent / 2 - line_width / 2;
    let end = line_width / 2 + extent / 2;
    (
        if start < 0 {
            0
        } else {
            start
        },
        if end > extent {
            extent
        } else {
            end
        },
    )
}

/// The image for a wall slice. An empty hit has none. A wall hit through a
/// vertical face takes the image of the wall. A wall hit through a
/// horizontal face takes the image of the floor if the ray points down and
/// of the ceiling if not; with `hide_floor_ceiling` it has none if the cell
/// is right above or below the viewer's.
pub open spec fn slice_texture(
    hit_type: WallGridCell,
    hit_side: HitSide,
    cell: GridCoord,
    ray: WorldPos,
    viewer_row: int,
    bindings: RoomTextureBindings,
    hide_floor_ceiling: bool,
) -> Option<SpriteId> {
    match hit_type {
        GridCellType::Empty => None,
        GridCellType::Wall => match hit_side {
            HitSide::Vertical => Some(bindings.wall),
            HitSide::Horizontal => if hide_floor_ceiling && (cell.y == viewer_row + 1 || cell.y
                == viewer_row - 1) {
                None
            } else if ray.y > 0 {
                Some(bindings.floor)
            } else {
                Some(bindings.ceiling)
            },
        },
    }
}

/// Where on the wall a ray hit: the part of a cell, in sub-cell units, by
/// which the point `pos + perp * ray` lies behind a grid line, along `y`
/// for a vertical face and along `x` for a horizontal one.
pub open spec fn hit_offset(pos: WorldPos, ray: WorldPos, perp: Ratio, hit_side: HitSide) -> int {
    let along = if hit_side == HitSide::Vertical {
        pos.y + (perp.num * ray.y) / (perp.den as int)
    } else {
        pos.x + (perp.num * ray.x) / (perp.den as int)
    };
    along % (SUBCELLS as int)
}

/// A view that the viewer can scan without overflow.
pub open spec fn view_in_range(pos: WorldPos, dir: WorldPos, plane: WorldPos, max: i64, scale: Ratio) -> bool {
    &&& 0 <= pos.x <= ORIGIN_LIMIT
    &&& 0 <= pos.y <= ORIGIN_LIMIT
    &&& -VIEW_LIMIT <= dir.x <= VIEW_LIMIT
    &&& -VIEW_LIMIT <= dir.y <= VIEW_LIMIT
    &&& -VIEW_LIMIT <= plane.x <= VIEW_LIMIT
    &&& -VIEW_LIMIT <= plane.y <= VIEW_LIMIT
    &&& 0 <= max <= RAY_LIMIT
    &&& 0 <= scale.num <= SCALE_LIMIT
    &&& 0 < scale.den <= SCALE_LIMIT
}

/// Whether the viewer can scan the view. See `view_in_range`.
pub fn view_fits(pos: WorldPos, dir: WorldPos, plane: WorldPos, max: i64, scale: Ratio) -> (fits: bool)
    ensures
        fits == view_in_range(pos, dir, plane, max, scale),
{
    0 <= pos.x && pos.x <= ORIGIN_LIMIT && 0 <= pos.y && pos.y <= ORIGIN_LIMIT && -VIEW_LIMIT
        <= dir.x && dir.x <= VIEW_LIMIT && -VIEW_LIMIT <= dir.y && dir.y <= VIEW_LIMIT
        && -VIEW_LIMIT <= plane.x && plane.x <= VIEW_LIMIT && -VIEW_LIMIT <= plane.y && plane.y
        <= VIEW_LIMIT && 0 <= max && max <= RAY_LIMIT && 0 <= scale.num && scale.num
        <= SCALE_LIMIT && 0 < scale.den && scale.den <= SCALE_LIMIT
}

/// What a screen column shows. A column whose ray has no direction shows
/// nothing: an empty hit without depth.
pub open spec fn column_slice<T: crate::raycaster::RayCell>(
    grid: &Grid2D<T>,
    pos: WorldPos,
    dir: WorldPos,
    plane: WorldPos,
    max: i64,
    scale: Ratio,
    column: int,
    count: int,
    extent: int,
    flip: bool,
) -> WallSlice {
    let ray = column_ray(dir, plane, column, count, flip);
    if ray.x == 0 && ray.y == 0 {
        WallSlice {
            ray,
            perp: Ratio { num: 0, den: 1 },
            hit_type: GridCellType::Empty,
            hit_side: HitSide::Horizontal,
            cell: pos.cell_spec(),
            line_width: 0,
            draw_start: (extent / 2) as usize,
            draw_end: (extent / 2) as usize,
            texture: None,
            wall_offset: 0,
        }
    } else {
        let hit = ray_cast(grid, pos, ray, max as int);
        let line_width = projected_width(hit.0, extent, scale);
        let span = slice_span(line_width, extent);
        WallSlice {
            ray,
            perp: hit.0,
            hit_type: hit.1,
            hit_side: hit.2,
            cell: hit.3,
            line_width: line_width as i32,
            draw_start: span.0 as usize,
            draw_end: span.1 as usize,
            texture: None,
            wall_offset: hit_offset(pos, ray, hit.0, hit.2) as i64,
        }
    }
}

/// The depth that a slice leaves in the depth buffer.
pub open spec fn slice_depth(slice: WallSlice) -> Option<Ratio> {
    match slice.hit_type {
        GridCellType::Empty => None,
        GridCellType::Wall => Some(slice.perp),
    }
}

/// The direction of the ray for a screen column. See `column_ray`.
pub fn ray_for_column(dir: WorldPos, plane: WorldPos, column: usize, count: u16, flip: bool) -> (ray:
    WorldPos)
    requires
        column < count,
        -VIEW_LIMIT <= dir.x <= VIEW_LIMIT,
        -VIEW_LIMIT <= dir.y <= VIEW_LIMIT,
        -VIEW_LIMIT <= plane.x <= VIEW_LIMIT,
        -VIEW_LIMIT <= plane.y <= VIEW_LIMIT,
    ensures
        ray == column_ray(dir, plane, column as int, count as int, flip),
        -2 * VIEW_LIMIT <= ray.x <= 2 * VIEW_LIMIT,
        -2 * VIEW_LIMIT <= ray.y <= 2 * VIEW_LIMIT,
{
    let c: i64 = count as i64;
    let offset: i64 = if flip {
        c - 2 * (column as i64)
    } else {
        2 * (column as i64) - c
    };
    proof {
        let lim = VIEW_LIMIT as int;
        assert(-(lim * c) <= plane.x * offset <= lim * c && -(lim * c) <= plane.y * offset <= lim
            * c) by (nonlinear_arith)
            requires
                -lim <= plane.x <= lim,
                -lim <= plane.y <= lim,
                -c <= offset <= c,
                c > 0,
                lim >= 0,
        ;
        assert(lim * c < (lim + 1) * c && -(lim * c) == (-lim) * c) by (nonlinear_arith)
            requires
                c > 0,
        ;
        assert(lim * c <= 0x1000_0000 * 0x1_0000) by (nonlinear_arith)
            requires
                lim == 0x1000_0000,
                0 < c <= 0x1_0000,
        ;
        lemma_div_bounds(plane.x * offset, c as int, -lim, lim + 1);
        lemma_div_bounds(plane.y * offset, c as int, -lim, lim + 1);
    }
    WorldPos {
        x: dir.x + floor_div(plane.x * offset, c),
        y: dir.y + floor_div(plane.y * offset, c),
    }
}

/// The width in pixels of the slice of a wall. See `projected_width`.
pub fn project_width(perp: Ratio, extent: u16, scale: Ratio) -> (w: i32)
    requires
        0 <= perp.num <= 2 * RAY_LIMIT,
        0 < perp.den <= RAY_LIMIT,
        0 <= scale.num <= SCALE_LIMIT,
        0 < scale.den <= SCALE_LIMIT,
    ensures
        w == projected_width(perp, extent as int, scale),
        w >= 0,
{
    if perp.num == 0 {
        return 0x7fff_ffff;
    }
    proof {
        assert(0 <= scale.num * extent <= 0x1_0000 * 0x1_0000) by (nonlinear_arith)
            requires
                0 <= scale.num <= 0x1_0000,
                0 <= extent <= 0x1_0000,
        ;
        assert(0 <= scale.num * extent * perp.den <= 0x1_0000 * 0x1_0000 * 0x4000_0000)
            by (nonlinear_arith)
            requires
                0 <= scale.num * extent <= 0x1_0000 * 0x1_0000,
                0 < perp.den <= 0x4000_0000,
        ;
        assert(0 < scale.den * perp.num <= 0x1_0000 * 0x8000_0000) by (nonlinear_arith)
            requires
                0 < scale.den <= 0x1_0000,
                0 < perp.num <= 0x8000_0000,
        ;
    }
    let top: i64 = scale.num * (extent as i64) * perp.den;
    let bottom: i64 = scale.den * perp.num;
    let w: i64 = top / bottom;
    proof {
        assert(top < (top + 1) * bottom) by (nonlinear_arith)
            requires
                top >= 0,
                bottom >= 1,
        ;
        lemma_div_bounds(top as int, bottom as int, 0int, top as int + 1);
    }
    if w > 0x7fff_ffff {
        0x7fff_ffff
    } else {
        w as i32
    }
}

/// The pixels that a slice covers. See `slice_span`.
pub fn span_of_slice(line_width: i32, extent: u16) -> (span: (usize, usize))
    requires
        line_width >= 0,
    ensures
        span.0 == slice_span(line_width as int, extent as int).0,
        span.1 == slice_span(line_width as int, extent as int).1,
        span.0 <= extent,
        span.1 <= extent,
{
    let w: i32 = extent as i32;
    let start: i32 = w / 2 - line_width / 2;
    let end: i64 = (line_width / 2) as i64 + (w / 2) as i64;
    (
        if start < 0 {
            0
        } else {
            start as usize
        },
        if end > w as i64 {
            w as usize
        } else {
            end as usize
        },
    )
}

/// The image for a wall slice. See `slice_texture`.
pub fn texture_for_slice(
    hit_type: WallGridCell,
    hit_side: HitSide,
    cell: GridCoord,
    ray: WorldPos,
    viewer_row: i32,
    bindings: &RoomTextureBindings,
    hide_floor_ceiling: bool,
) -> (sid: Option<SpriteId>)
    ensures
        sid == slice_texture(
            hit_type,
            hit_side,
            cell,
            ray,
            viewer_row as int,
            *bindings,
            hide_floor_ceiling,
        ),
{
    match hit_type {
        GridCellType::Empty => None,
        GridCellType::Wall => match hit_side {
            HitSide::Horizontal => {
                if hide_floor_ceiling && (cell.y as i64 == viewer_row as i64 + 1 || cell.y as i64
                    == viewer_row as i64 - 1) {
                    None
                } else if ray.y > 0 {
                    Some(bindings.floor)
                } else {
                    Some(bindings.ceiling)
                }
            },
            HitSide::Vertical => Some(bindings.wall),
        },
    }
}

/// Casts the ray of one screen column and works out its slice. See
/// `column_slice`.
pub fn scan_column<T: crate::raycaster::RayCell>(
    grid: &Grid2D<T>,
    pos: WorldPos,
    dir: WorldPos,
    plane: WorldPos,
    max_ray_distance: i64,
    scale: Ratio,
    column: usize,
    count: u16,
    extent: u16,
    flip: bool,
) -> (slice: WallSlice)
    requires
        grid.wf(),
        view_in_range(pos, dir, plane, max_ray_distance, scale),
        column < count,
    ensures
        slice == column_slice(
            grid,
            pos,
            dir,
            plane,
            max_ray_distance,
            scale,
            column as int,
            count as int,
            extent as int,
            flip,
        ),
        slice.draw_start <= extent,
        slice.draw_end <= extent,
        slice.line_width >= 0,
        0 <= slice.perp.num,
        0 < slice.perp.den,
{
    let ray = ray_for_column(dir, plane, column, count, flip);
    if ray.x == 0 && ray.y == 0 {
        proof {
            lemma_div_bounds(pos.x as int, SUBCELLS as int, 0int, 0x4000_0001int);
            lemma_div_bounds(pos.y as int, SUBCELLS as int, 0int, 0x4000_0001int);
        }
        let half: usize = (extent / 2) as usize;
        return WallSlice {
            ray,
            perp: Ratio { num: 0, den: 1 },
            hit_type: GridCellType::Empty,
            hit_side: HitSide::Horizontal,
            cell: pos.cell(),
            line_width: 0,
            draw_start: half,
            draw_end: half,
            texture: None,
            wall_offset: 0,
        };
    }
    let (perp, hit_type, hit_side, cell) = cast_ray(grid, &pos, &ray, max_ray_distance);
    let line_width: i32 = project_width(perp, extent, scale);
    let (draw_start, draw_end) = span_of_slice(line_width, extent);
    let toward: i64 = match hit_side {
        HitSide::Vertical => ray.y,
        HitSide::Horizontal => ray.x,
    };
    let from: i64 = match hit_side {
        HitSide::Vertical => pos.y,
        HitSide::Horizontal => pos.x,
    };
    proof {
        let reach = 0x4001_0000int * 0x2000_0000int;
        assert(-reach <= perp.num * toward <= reach) by (nonlinear_arith)
            requires
                0 <= perp.num <= 0x4001_0000,
                -0x2000_0000 <= toward <= 0x2000_0000,
                reach == 0x4001_0000int * 0x2000_0000int,
        ;
        assert((-reach) * perp.den <= -reach && reach < (reach + 1) * perp.den) by (nonlinear_arith)
            requires
                perp.den >= 1,
                reach >= 0,
        ;
        lemma_div_bounds(perp.num * toward, perp.den as int, -reach, reach + 1);
    }
    let along: i64 = from + floor_div(perp.num * toward, perp.den);
    let wall_offset: i64 = wrap_i64(along, SUBCELLS);
    WallSlice {
        ray,
        perp,
        hit_type,
        hit_side,
        cell,
        line_width,
        draw_start,
        draw_end,
        texture: None,
        wall_offset,
    }
}

impl FirstPersonViewer {
    /// There is a pixel for every point of the screen, and a depth for
    /// every column, whichever way the columns run.
    pub open spec fn wf(&self) -> bool {
        &&& self.render_image@.len() == self.render_size.0 * self.render_size.1
        &&& self.z_buffer@.len() == larger(self.render_size.0 as int, self.render_size.1 as int)
    }

    /// A viewer of the given size with a black, opaque image and nothing in
    /// sight.
    pub fn new(width: u16, height: u16) -> (viewer: Self)
        ensures
            viewer.wf(),
            viewer.render_size == (width, height),
            forall|i: int|
                0 <= i < viewer.render_image@.len() ==> #[trigger] viewer.render_image@[i]@ == seq![
                    0u8,
                    0u8,
                    0u8,
                    255u8,
                ],
            forall|i: int| 0 <= i < viewer.z_buffer@.len() ==> #[trigger] viewer.z_buffer@[i] is None,
    {
        let black: [u8; 4] = [0, 0, 0, 255];
        assert(width * height <= 0xffff * 0xffff) by (nonlinear_arith)
            requires
                width <= 0xffff,
                height <= 0xffff,
        ;
        let n: usize = (width as usize) * (height as usize);
        let mut render_image: Vec<[u8; 4]> = Vec::new();
        let mut i: usize = 0;
        while i < n
            invariant
                i <= n,
                render_image@.len() == i,
                black@ == seq![0u8, 0u8, 0u8, 255u8],
                forall|j: int| 0 <= j < i ==> #[trigger] render_image@[j]@ == seq![0u8, 0u8, 0u8, 255u8],
            decreases n - i,
        {
            render_image.push(black);
            i += 1;
        }
        let z_size: usize = if height >= width {
            height as usize
        } else {
            width as usize
        };
        let mut z_buffer: Vec<Option<Ratio>> = Vec::new();
        let mut k: usize = 0;
        while k < z_size
            invariant
                k <= z_size,
                z_buffer@.len() == k,
                forall|j: int| 0 <= j < k ==> #[trigger] z_buffer@[j] is None,
            decreases z_size - k,
        {
            z_buffer.push(None);
            k += 1;
        }
        FirstPersonViewer { render_size: (width, height), render_image, z_buffer }
    }

    /// Forgets every depth: nothing is in sight.
    pub fn reset_z_buffer(&mut self)
        ensures
            final(self).render_size == old(self).render_size,
            final(self).render_image == old(self).render_image,
            final(self).z_buffer@.len() == old(self).z_buffer@.len(),
            forall|i: int| 0 <= i < final(self).z_buffer@.len() ==> #[trigger] final(self).z_buffer@[i] is None,
    {
        let n: usize = self.z_buffer.len();
        let mut i: usize = 0;
        while i < n
            invariant
                i <= n,
                n == self.z_buffer@.len(),
                self.render_size == old(self).render_size,
                self.render_image == old(self).render_image,
                forall|j: int| 0 <= j < i ==> #[trigger] self.z_buffer@[j] is None,
            decreases n - i,
        {
            self.z_buffer[i] = None;
            i += 1;
        }
    }

    /// Gives every pixel the colour `color`.
    pub fn reset_image_buffer(&mut self, color: [u8; 4])
        ensures
            final(self).render_size == old(self).render_size,
            final(self).z_buffer == old(self).z_buffer,
            final(self).render_image@.len() == old(self).render_image@.len(),
            forall|i: int|
                0 <= i < final(self).render_image@.len() ==> #[trigger] final(self).render_image@[i]
                    == color,
    {
        let n: usize = self.render_image.len();
        let mut i: usize = 0;
        while i < n
            invariant
                i <= n,
                n == self.render_image@.len(),
                self.render_size == old(self).render_size,
                self.z_buffer == old(self).z_buffer,
                forall|j: int| 0 <= j < i ==> #[trigger] self.render_image@[j] == color,
            decreases n - i,
        {
            self.render_image[i] = color;
            i += 1;
        }
    }

    /// Scans the view from `pos` in direction `dir` with the camera plane
    /// `plane`: casts one ray for each of the `render_size.1` screen
    /// columns against the walls of the level, as far as
    /// `max_ray_distance`, and returns the wall slice of each column, with
    /// the image that its pixels are to be taken from. Slices are scaled by
    /// `line_width_scale` and laid out across the `render_size.0` pixels of
    /// a column. The columns run the other way if the view points towards
    /// growing `x`. The depth of each column goes into the depth buffer.
    pub fn draw_view(
        &mut self,
        max_ray_distance: i64,
        world: &Level,
        pos: WorldPos,
        dir: WorldPos,
        plane: WorldPos,
        texture_bindings: &RoomTextureBindings,
        hide_floor_ceiling: bool,
        line_width_scale: Ratio,
    ) -> (slices: Vec<WallSlice>)
        requires
            old(self).wf(),
            world.grid.wf(),
            view_in_range(pos, dir, plane, max_ray_distance, line_width_scale),
        ensures
            final(self).wf(),
            final(self).render_size == old(self).render_size,
            final(self).render_image == old(self).render_image,
            slices@.len() == old(self).render_size.1,
            forall|y: int|
                0 <= y < slices@.len() ==> #[trigger] slices@[y] == Self::view_slice(
                    old(self).render_size,
                    max_ray_distance,
                    world,
                    pos,
                    dir,
                    plane,
                    *texture_bindings,
                    hide_floor_ceiling,
                    line_width_scale,
                    y,
                ),
            forall|y: int|
                0 <= y < final(self).z_buffer@.len() ==> #[trigger] final(self).z_buffer@[y] == (if y
                    < slices@.len() {
                    slice_depth(slices@[y])
                } else {
                    old(self).z_buffer@[y]
                }),
            forall|y: int|
                0 <= y < slices@.len() ==> (#[trigger] slices@[y]).draw_start <= old(self).render_size.0 && slices@[y].draw_end <= old(self).render_size.0,
    {
        let (render_width, render_height) = self.render_size;
        let flip: bool = dir.x >= 0;
        proof {
            lemma_div_bounds(pos.y as int, SUBCELLS as int, 0int, 0x4000_0001int);
        }
        let viewer_row: i32 = (pos.y / SUBCELLS) as i32;
        let mut slices: Vec<WallSlice> = Vec::new();
        let mut y: usize = 0;
        while y < render_height as usize
            invariant
                y <= render_height,
                (render_width, render_height) == old(self).render_size,
                self.render_size == old(self).render_size,
                self.render_image == old(self).render_image,
                self.z_buffer@.len() == old(self).z_buffer@.len(),
                old(self).wf(),
                world.grid.wf(),
                view_in_range(pos, dir, plane, max_ray_distance, line_width_scale),
                flip == (dir.x >= 0),
                viewer_row == pos.y as int / (SUBCELLS as int),
                slices@.len() == y,
                forall|i: int|
                    0 <= i < y ==> #[trigger] slices@[i] == Self::view_slice(
                        old(self).render_size,
                        max_ray_distance,
                        world,
                        pos,
                        dir,
                        plane,
                        *texture_bindings,
                        hide_floor_ceiling,
                        line_width_scale,
                        i,
                    ),
                forall|i: int|
                    0 <= i < self.z_buffer@.len() ==> #[trigger] self.z_buffer@[i] == (if i < y {
                        slice_depth(slices@[i])
                    } else {
                        old(self).z_buffer@[i]
                    }),
                forall|i: int|
                    0 <= i < y ==> (#[trigger] slices@[i]).draw_start <= render_width && slices@[i].draw_end
                        <= render_width,
            decreases render_height - y,
        {
            let scanned = scan_column(
                &world.grid,
                pos,
                dir,
                plane,
                max_ray_distance,
                line_width_scale,
                y,
                render_height,
                render_width,
                flip,
            );
            let slice = WallSlice {
                texture: texture_for_slice(
                    scanned.hit_type,
                    scanned.hit_side,
                    scanned.cell,
                    scanned.ray,
                    viewer_row,
                    texture_bindings,
                    hide_floor_ceiling,
                ),
                ..scanned
            };
            self.z_buffer[y] = match slice.hit_type {
                GridCellType::Empty => None,
                GridCellType::Wall => Some(slice.perp),
            };
            slices.push(slice);
            y += 1;
        }
        slices
    }

    /// What `draw_view` returns for screen column `y`.
    pub open spec fn view_slice(
        render_size: (u16, u16),
        max_ray_distance: i64,
        world: &Level,
        pos: WorldPos,
        dir: WorldPos,
        plane: WorldPos,
        texture_bindings: RoomTextureBindings,
        hide_floor_ceiling: bool,
        line_width_scale: Ratio,
        y: int,
    ) -> WallSlice {
        let scanned = column_slice(
            &world.grid,
            pos,
            dir,
            plane,
            max_ray_distance,
            line_width_scale,
            y,
            render_size.1 as int,
            render_size.0 as int,
            dir.x >= 0,
        );
        WallSlice {
            texture: slice_texture(
                scanned.hit_type,
                scanned.hit_side,
                scanned.cell,
                scanned.ray,
                pos.y as int / (SUBCELLS as int),
                texture_bindings,
                hide_floor_ceiling,
            ),
            ..scanned
        }
    }

    /// Scans the view as `draw_view` does, but with the screen turned: one
    /// ray for each of the `render_size.0` screen columns, slices laid out
    /// across the `render_size.1` pixels of a column and scaled by `lhs`,
    /// columns always running the same way, and no images chosen.
    pub fn draw_view_horizontal(
        &mut self,
        max_ray_distance: i64,
        world: &Level,
        pos: WorldPos,
        dir: WorldPos,
        plane: WorldPos,
        lhs: Ratio,
    ) -> (slices: Vec<WallSlice>)
        requires
            old(self).wf(),
            world.grid.wf(),
            view_in_range(pos, dir, plane, max_ray_distance, lhs),
        ensures
            final(self).wf(),
            final(self).render_size == old(self).render_size,
            final(self).render_image == old(self).render_image,
            slices@.len() == old(self).render_size.0,
            forall|x: int|
                0 <= x < slices@.len() ==> #[trigger] slices@[x] == column_slice(
                    &world.grid,
                    pos,
                    dir,
                    plane,
                    max_ray_distance,
                    lhs,
                    x,
                    old(self).render_size.0 as int,
                    old(self).render_size.1 as int,
                    false,
                ),
            forall|x: int|
                0 <= x < final(self).z_buffer@.len() ==> #[trigger] final(self).z_buffer@[x] == (if x
                    < slices@.len() {
                    slice_depth(slices@[x])
                } else {
                    old(self).z_buffer@[x]
                }),
            forall|x: int|
                0 <= x < slices@.len() ==> (#[trigger] slices@[x]).draw_start <= old(self).render_size.1 && slices@[x].draw_end <= old(self).render_size.1,
    {
        let (render_width, render_height) = self.render_size;
        let mut slices: Vec<WallSlice> = Vec::new();
        let mut x: usize = 0;
        while x < render_width as usize
            invariant
                x <= render_width,
                (render_width, render_height) == old(self).render_size,
                self.render_size == old(self).render_size,
                self.render_image == old(self).render_image,
                self.z_buffer@.len() == old(self).z_buffer@.len(),
                old(self).wf(),
                world.grid.wf(),
                view_in_range(pos, dir, plane, max_ray_distance, lhs),
                slices@.len() == x,
                forall|i: int|
                    0 <= i < x ==> #[trigger] slices@[i] == column_slice(
                        &world.grid,
                        pos,
                        dir,
                        plane,
                        max_ray_distance,
                        lhs,
                        i,
                        render_width as int,
                        render_height as int,
                        false,
                    ),
                forall|i: int|
                    0 <= i < self.z_buffer@.len() ==> #[trigger] self.z_buffer@[i] == (if i < x {
                        slice_depth(slices@[i])
                    } else {
                        old(self).z_buffer@[i]
                    }),
                forall|i: int|
                    0 <= i < x ==> (#[trigger] slices@[i]).draw_start <= render_height && slices@[i].draw_end
                        <= render_height,
            decreases render_width - x,
        {
            let slice = scan_column(
                &world.grid,
                pos,
                dir,
                plane,
                max_ray_distance,
                lhs,
                x,
                render_width,
                render_height,
                false,
            );
            self.z_buffer[x] = match slice.hit_type {
                GridCellType::Empty => None,
                GridCellType::Wall => Some(slice.perp),
            };
            slices.push(slice);
            x += 1;
        }
        slices
    }
}

} // verus!
