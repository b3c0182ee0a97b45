//! A frame: the billboards that the entities give, and the plan of what to
//! draw, walls first and billboards after them.

use vstd::prelude::*;
use crate::coords::{wrap_i64, GridCoord, WorldPos, SUBCELLS};
use crate::fpv::{
    view_in_range, FirstPersonViewer, RoomTextureBindings, SpriteId, WallSlice,
    WallTextureBinding, WallTextureBindings,
};
use crate::game::Game;
use crate::grid2d::GridCellType;
use crate::level::Level;
use crate::mob::{MagicColor, MobData, MobType, Mobs, MONSTER_HP};
use crate::raycaster::Ratio;
use crate::sprites::{
    is_draw_order, is_plan_of, scale_in_range, Camera, SpritePlan, SpriteScale, SpriteType,
    Sprites, SPRITE_WORLD_LIMIT,
};

verus! {

/// The image of a monster.
pub const MONSTER_SPRITE: SpriteId = 0;

/// The image of the win room.
pub const WIN_ROOM_SPRITE: SpriteId = 3;

/// The images of a room: floor, wall and ceiling.
pub const FLOOR_TEXTURE: SpriteId = 7;

pub const CEILING_TEXTURE: SpriteId = 8;

pub const WALL_TEXTURE: SpriteId = 9;

/// The images of the side walls, and how fast they repeat.
pub const LEFT_WALL_TEXTURE: SpriteId = 10;

pub const RIGHT_WALL_TEXTURE: SpriteId = 11;

pub const SIDE_WALL_REPEAT: i64 = 16 * 65536;

/// The scale of a monster, a bullet and the win room, and of a decoration
/// without a scale of its own: six tenths, one tenth, nine tenths and one
/// tenth, with `SUBCELLS` for one.
pub const MONSTER_SCALE: i64 = 39322;

pub const BULLET_SCALE: i64 = 6554;

pub const WIN_ROOM_SCALE: i64 = 58982;

pub const FLAVOR_SCALE: i64 = 6554;

/// How far below the centre of its cell the billboard of the win room
/// stands, in sub-cell units: a tenth of a cell.
pub const WIN_ROOM_DROP: i64 = 6554;

/// The image of a bullet of the given colour.
pub fn mana_color_sprite_id(magic_color: MagicColor) -> (id: SpriteId)
    ensures
        id == (match magic_color {
            MagicColor::White => 1usize,
            MagicColor::Black => 2usize,
        }),
{
    match magic_color {
        MagicColor::White => 1,
        MagicColor::Black => 2,
    }
}

/// The images of a room.
pub fn room_textures() -> (bindings: RoomTextureBindings)
    ensures
        bindings == (RoomTextureBindings {
            floor: FLOOR_TEXTURE,
            wall: WALL_TEXTURE,
            ceiling: CEILING_TEXTURE,
        }),
{
    RoomTextureBindings { floor: FLOOR_TEXTURE, wall: WALL_TEXTURE, ceiling: CEILING_TEXTURE }
}

/// The images of the side walls: pinned to the viewer.
pub fn side_wall_textures() -> (bindings: WallTextureBindings)
    ensures
        bindings == (WallTextureBindings {
            left: WallTextureBinding {
                sprite_id: LEFT_WALL_TEXTURE,
                repeat_speed: SIDE_WALL_REPEAT,
                pin: true,
            },
            right: WallTextureBinding {
                sprite_id: RIGHT_WALL_TEXTURE,
                repeat_speed: SIDE_WALL_REPEAT,
                pin: true,
            },
        }),
{
    WallTextureBindings {
        left: WallTextureBinding {
            sprite_id: LEFT_WALL_TEXTURE,
            repeat_speed: SIDE_WALL_REPEAT,
            pin: true,
        },
        right: WallTextureBinding {
            sprite_id: RIGHT_WALL_TEXTURE,
            repeat_speed: SIDE_WALL_REPEAT,
            pin: true,
        },
    }
}

/// A point is where a billboard can stand.
pub open spec fn in_sprite_range(pos: WorldPos) -> bool {
    -SPRITE_WORLD_LIMIT <= pos.x <= SPRITE_WORLD_LIMIT && -SPRITE_WORLD_LIMIT <= pos.y
        <= SPRITE_WORLD_LIMIT
}

/// The part of a whole, with `SUBCELLS` for all of it, and within zero and
/// `SUBCELLS`.
pub open spec fn fraction_of(part: int, whole: int) -> int {
    if part <= 0 {
        0
    } else if part >= whole {
        SUBCELLS as int
    } else {
        (part * SUBCELLS) / whole
    }
}

/// The billboard of an entity. A monster shows its image in its colour,
/// with as much of a shield as it has hit points left; a bullet shows the
/// image of its colour.
pub open spec fn billboard_of(mob: MobData) -> (WorldPos, SpriteType, SpriteScale) {
    match mob.mob_type {
        MobType::Monster(_) => (
            mob.pos,
            (MONSTER_SPRITE, mob.color),
            SpriteScale {
                width: MONSTER_SCALE,
                height: MONSTER_SCALE,
                offset: 0,
                shield: fraction_of(mob.hp as int, MONSTER_HP as int) as i64,
            },
        ),
        MobType::Bullet => (
            mob.pos,
            (
                match mob.color {
                    MagicColor::White => 1usize,
                    MagicColor::Black => 2usize,
                },
                mob.color,
            ),
            SpriteScale { width: BULLET_SCALE, height: BULLET_SCALE, offset: 0, shield: 0 },
        ),
    }
}

/// The billboards of the first `k` entities on the roster, in the order of
/// the roster. An entity too far out for a billboard has none.
pub open spec fn billboards_of(mobs: &Mobs, k: int) -> Seq<(WorldPos, SpriteType, SpriteScale)>
    decreases k,
{
    if k <= 0 {
        Seq::empty()
    } else {
        let rest = billboards_of(mobs, k - 1);
        let mob = mobs.mob(mobs.mob_list@[k - 1] as int);
        if in_sprite_range(mob.pos) {
            rest.push(billboard_of(mob))
        } else {
            rest
        }
    }
}

/// The billboard of the win room.
pub open spec fn win_room_billboard(level: &Level) -> (WorldPos, SpriteType, SpriteScale) {
    (
        WorldPos {
            x: (level.win_room.0 * SUBCELLS + SUBCELLS / 2) as i64,
            y: (level.win_room.1 * SUBCELLS + SUBCELLS / 2 + WIN_ROOM_DROP) as i64,
        },
        (WIN_ROOM_SPRITE, MagicColor::Black),
        SpriteScale { width: WIN_ROOM_SCALE, height: WIN_ROOM_SCALE, offset: 0, shield: 0 },
    )
}

/// The scale of a decoration with the given sprite index: the one that
/// the table holds for it, if it holds one that is in range.
pub open spec fn flavor_scale(sprite_index: usize, table: Seq<SpriteScale>) -> SpriteScale {
    if sprite_index < table.len() && scale_in_range(table[sprite_index as int]) {
        table[sprite_index as int]
    } else {
        SpriteScale { width: FLAVOR_SCALE, height: FLAVOR_SCALE, offset: 0, shield: 0 }
    }
}

/// A decoration has a billboard: there is an image for it, and it is not
/// too far out.
pub open spec fn flavor_shown(flavor: (i64, i64, usize), flavor_start: usize, image_count: usize) -> bool {
    flavor.2 + flavor_start < image_count && in_sprite_range(WorldPos { x: flavor.0, y: flavor.1 })
}

/// The billboards of the first `k` decorations.
pub open spec fn flavor_billboards(
    flavors: Seq<(i64, i64, usize)>,
    k: int,
    flavor_start: usize,
    image_count: usize,
    table: Seq<SpriteScale>,
) -> Seq<(WorldPos, SpriteType, SpriteScale)>
    decreases k,
{
    if k <= 0 {
        Seq::empty()
    } else {
        let rest = flavor_billboards(flavors, k - 1, flavor_start, image_count, table);
        let flavor = flavors[k - 1];
        if flavor_shown(flavor, flavor_start, image_count) {
            rest.push(
                (
                    WorldPos { x: flavor.0, y: flavor.1 },
                    ((flavor.2 + flavor_start) as usize, MagicColor::White),
                    flavor_scale(flavor.2, table),
                ),
            )
        } else {
            rest
        }
    }
}

/// The decorations of a level.
pub open spec fn flavors_of(level: &Level) -> Seq<(i64, i64, usize)> {
    match level.flavor_sprites {
        Some(list) => list@,
        None => Seq::empty(),
    }
}

/// The billboard of the win room, if the win room is a cell of the grid.
pub open spec fn win_room_billboards(level: &Level) -> Seq<(WorldPos, SpriteType, SpriteScale)> {
    if level.win_room.0 < level.grid.width() && level.win_room.1 < level.grid.height() {
        seq![win_room_billboard(level)]
    } else {
        Seq::empty()
    }
}

/// The billboards of a frame: those of the entities, in the order of the
/// roster, then the win room, then the decorations of the level for which
/// there is an image among the `image_count` images of the atlas, where
/// the images of decorations start at `flavor_start`.
pub open spec fn frame_billboards(
    game: &Game,
    flavor_start: usize,
    image_count: usize,
    table: Seq<SpriteScale>,
) -> Seq<(WorldPos, SpriteType, SpriteScale)> {
    billboards_of(&game.mobs, game.mobs.mob_list@.len() as int) + win_room_billboards(
        &game.level,
    ) + flavor_billboards(
        flavors_of(&game.level),
        flavors_of(&game.level).len() as int,
        flavor_start,
        image_count,
        table,
    )
}

/// Whether a point is where a billboard can stand.
fn can_show(pos: WorldPos) -> (ok: bool)
    ensures
        ok == in_sprite_range(pos),
{
    -SPRITE_WORLD_LIMIT <= pos.x && pos.x <= SPRITE_WORLD_LIMIT && -SPRITE_WORLD_LIMIT <= pos.y
        && pos.y <= SPRITE_WORLD_LIMIT
}

/// How much of its shield a monster with the given hit points has left.
fn shield_of(hp: i32) -> (shield: i64)
    ensures
        shield == fraction_of(hp as int, MONSTER_HP as int),
        0 <= shield <= SUBCELLS,
{
    if hp <= 0 {
        0
    } else if hp >= MONSTER_HP {
        SUBCELLS
    } else {
        proof {
            crate::coords::lemma_div_bounds(hp * SUBCELLS, MONSTER_HP as int, 0int, SUBCELLS as int);
        }
        (hp as i64) * SUBCELLS / (MONSTER_HP as i64)
    }
}

/// Replaces the billboards by those of the frame. See `frame_billboards`.
pub fn rebuild_sprites(
    game: &Game,
    sprite_manager: &mut Sprites,
    flavor_start: usize,
    image_count: usize,
    flavor_scaling: &Vec<SpriteScale>,
)
    requires
        game.wf(),
    ensures
        final(sprite_manager).wf(),
        final(sprite_manager).entries() == frame_billboards(
            game,
            flavor_start,
            image_count,
            flavor_scaling@,
        ),
{
    sprite_manager.clear_sprites();
    let n: usize = game.mobs.mob_list.len();
    let mut k: usize = 0;
    while k < n
        invariant
            k <= n,
            n == game.mobs.mob_list@.len(),
            game.wf(),
            sprite_manager.wf(),
            sprite_manager.entries() == billboards_of(&game.mobs, k as int),
        decreases n - k,
    {
        let id: usize = game.mobs.mob_list[k];
        assert(game.mobs.holds(game.mobs.mob_list@[k as int] as int));
        let m: MobData = game.mobs.get(id).unwrap();
        proof {
            reveal_with_fuel(billboards_of, 2);
        }
        if can_show(m.get_pos()) {
            match m.mob_type {
                MobType::Monster(_) => {
                    let monster_scaling = SpriteScale {
                        width: MONSTER_SCALE,
                        height: MONSTER_SCALE,
                        offset: 0,
                        shield: shield_of(m.hp),
                    };
                    sprite_manager.add_sprite(
                        m.get_pos(),
                        (MONSTER_SPRITE, m.get_color()),
                        monster_scaling,
                    );
                },
                MobType::Bullet => {
                    let bullet_scaling = SpriteScale {
                        width: BULLET_SCALE,
                        height: BULLET_SCALE,
                        offset: 0,
                        shield: 0,
                    };
                    let sprite_type = (mana_color_sprite_id(m.get_color()), m.get_color());
                    sprite_manager.add_sprite(m.get_pos(), sprite_type, bullet_scaling);
                },
            }
        }
        k += 1;
    }
    let size = game.level.grid.get_size();
    let ghost entities = sprite_manager.entries();
    if game.level.win_room.0 < size.0 && game.level.win_room.1 < size.1 {
        let win = WorldPos {
            x: (game.level.win_room.0 as i64) * SUBCELLS + SUBCELLS / 2,
            y: (game.level.win_room.1 as i64) * SUBCELLS + SUBCELLS / 2 + WIN_ROOM_DROP,
        };
        sprite_manager.add_sprite(
            win,
            (WIN_ROOM_SPRITE, MagicColor::Black),
            SpriteScale { width: WIN_ROOM_SCALE, height: WIN_ROOM_SCALE, offset: 0, shield: 0 },
        );
    }
    let ghost base = sprite_manager.entries();
    proof {
        assert(base =~= entities + win_room_billboards(&game.level));
    }
    match &game.level.flavor_sprites {
        Some(flavor_sprites) => {
            let count: usize = flavor_sprites.len();
            let mut j: usize = 0;
            while j < count
                invariant
                    j <= count,
                    count == flavor_sprites@.len(),
                    sprite_manager.wf(),
                    sprite_manager.entries() == base + flavor_billboards(
                        flavor_sprites@,
                        j as int,
                        flavor_start,
                        image_count,
                        flavor_scaling@,
                    ),
                decreases count - j,
            {
                let flavor: (i64, i64, usize) = flavor_sprites[j];
                let place = WorldPos { x: flavor.0, y: flavor.1 };
                proof {
                    reveal_with_fuel(flavor_billboards, 2);
                }
                let has_image: bool = flavor.2 < image_count && flavor_start < image_count - flavor.2;
                if has_image && can_show(place) {
                    let table_scale: Option<SpriteScale> = if flavor.2 < flavor_scaling.len() {
                        Some(flavor_scaling[flavor.2])
                    } else {
                        None
                    };
                    let flavor_scaling_here: SpriteScale = match table_scale {
                        Some(sca) => if scale_is_in_range(sca) {
                            sca
                        } else {
                            SpriteScale {
                                width: FLAVOR_SCALE,
                                height: FLAVOR_SCALE,
                                offset: 0,
                                shield: 0,
                            }
                        },
                        None => SpriteScale {
                            width: FLAVOR_SCALE,
                            height: FLAVOR_SCALE,
                            offset: 0,
                            shield: 0,
                        },
                    };
                    sprite_manager.add_sprite(
                        place,
                        (flavor.2 + flavor_start, MagicColor::White),
                        flavor_scaling_here,
                    );
                    proof {
                        let tail = flavor_billboards(
                            flavor_sprites@,
                            j as int,
                            flavor_start,
                            image_count,
                            flavor_scaling@,
                        );
                        let item = (
                            place,
                            ((flavor.2 + flavor_start) as usize, MagicColor::White),
                            flavor_scaling_here,
                        );
                        assert((base + tail).push(item) =~= base + tail.push(item));
                    }
                }
                j += 1;
            }
        },
        None => {
            proof {
                assert(sprite_manager.entries() =~= base + Seq::empty());
            }
        },
    }
}

/// Whether the scale of a billboard is in range.
fn scale_is_in_range(scale: SpriteScale) -> (ok: bool)
    ensures
        ok == scale_in_range(scale),
{
    0 <= scale.width && scale.width <= crate::sprites::SPRITE_SCALE_LIMIT && 0 <= scale.height
        && scale.height <= crate::sprites::SPRITE_SCALE_LIMIT
        && -crate::sprites::SPRITE_SCALE_LIMIT <= scale.offset && scale.offset
        <= crate::sprites::SPRITE_SCALE_LIMIT
}

/// What to draw in a frame: the wall slices, one for each screen column,
/// and the plans of the billboards, from back to front.
pub struct FramePlan {
    pub slices: Vec<WallSlice>,
    pub sprites: Vec<SpritePlan>,
}

/// The camera plane for the billboards: that of the walls for a player who
/// faces 1, and the opposite one for a player who faces -1.
pub open spec fn sprite_plane(plane: WorldPos, player_facing: i32) -> WorldPos {
    if player_facing < 0 {
        WorldPos { x: (-plane.x) as i64, y: (-plane.y) as i64 }
    } else {
        plane
    }
}

/// A frame that `draw_first_person_frame` can plan without overflow: the
/// view is in range, the viewer has pixels, and the camera stands in a
/// world that is not too wide.
pub open spec fn frame_in_range(
    player_facing: i32,
    max_ray_distance: i64,
    world: &Level,
    pos: WorldPos,
    view_dir: WorldPos,
    plane: WorldPos,
    line_width_scale: Ratio,
    render_size: (u16, u16),
) -> bool {
    &&& (player_facing == 1 || player_facing == -1)
    &&& render_size.0 >= 1
    &&& render_size.1 >= 1
    &&& world.grid.width() * SUBCELLS <= SPRITE_WORLD_LIMIT
    &&& view_in_range(pos, view_dir, plane, max_ray_distance, line_width_scale)
    &&& pos.x <= SPRITE_WORLD_LIMIT
    &&& pos.y <= SPRITE_WORLD_LIMIT
}

/// Whether a frame can be planned. See `frame_in_range`.
pub fn frame_fits(
    player_facing: i32,
    max_ray_distance: i64,
    world: &Level,
    pos: WorldPos,
    view_dir: WorldPos,
    plane: WorldPos,
    line_width_scale: Ratio,
    render_size: (u16, u16),
) -> (fits: bool)
    requires
        world.grid.wf(),
    ensures
        fits == frame_in_range(
            player_facing,
            max_ray_distance,
            world,
            pos,
            view_dir,
            plane,
            line_width_scale,
            render_size,
        ),
{
    let size = world.grid.get_size();
    (player_facing == 1 || player_facing == -1) && render_size.0 >= 1 && render_size.1 >= 1
        && size.0 <= 8192 && crate::fpv::view_fits(
        pos,
        view_dir,
        plane,
        max_ray_distance,
        line_width_scale,
    ) && pos.x <= SPRITE_WORLD_LIMIT && pos.y <= SPRITE_WORLD_LIMIT
}

/// Plans a frame of the first-person view: the walls first, which fills
/// the depth buffer of the viewer, and then the billboards, which are
/// hidden where the depth buffer holds a nearer wall. The walls are drawn
/// with the images of a room; billboards are seen as far as the rays go.
pub fn draw_first_person_frame(
    player_facing: i32,
    max_ray_distance: i64,
    world: &Level,
    pos: WorldPos,
    view_dir: WorldPos,
    plane: WorldPos,
    hide_floors_and_ceiling: bool,
    line_width_scale: Ratio,
    first_person_view: &mut FirstPersonViewer,
    sprite_manager: &mut Sprites,
) -> (frame: FramePlan)
    requires
        old(first_person_view).wf(),
        old(sprite_manager).wf(),
        world.grid.wf(),
        frame_in_range(
            player_facing,
            max_ray_distance,
            world,
            pos,
            view_dir,
            plane,
            line_width_scale,
            old(first_person_view).render_size,
        ),
    ensures
        final(first_person_view).wf(),
        final(first_person_view).render_size == old(first_person_view).render_size,
        final(first_person_view).render_image == old(first_person_view).render_image,
        frame.slices@.len() == old(first_person_view).render_size.1,
        forall|y: int|
            0 <= y < frame.slices@.len() ==> #[trigger] frame.slices@[y]
                == FirstPersonViewer::view_slice(
                old(first_person_view).render_size,
                max_ray_distance,
                world,
                pos,
                view_dir,
                plane,
                RoomTextureBindings {
                    floor: FLOOR_TEXTURE,
                    wall: WALL_TEXTURE,
                    ceiling: CEILING_TEXTURE,
                },
                hide_floors_and_ceiling,
                line_width_scale,
                y,
            ),
        forall|y: int|
            0 <= y < final(first_person_view).z_buffer@.len() ==> #[trigger] final(first_person_view).z_buffer@[y] == (if y < frame.slices@.len() {
                crate::fpv::slice_depth(frame.slices@[y])
            } else {
                old(first_person_view).z_buffer@[y]
            }),
        final(sprite_manager).wf(),
        final(sprite_manager).sp_positions == old(sprite_manager).sp_positions,
        final(sprite_manager).sp_size == old(sprite_manager).sp_size,
        final(sprite_manager).sp_type == old(sprite_manager).sp_type,
        ({
            let camera = Camera {
                pos,
                dir: view_dir,
                plane: sprite_plane(plane, player_facing),
                world_width: (world.grid.width() * SUBCELLS) as i64,
            };
            &&& is_draw_order(
                final(sprite_manager).sp_draw_order@,
                final(sprite_manager).sp_positions@,
                camera,
                max_ray_distance,
            )
            &&& frame.sprites@.len() == final(sprite_manager).sp_draw_order@.len()
            &&& forall|a: int|
                0 <= a < frame.sprites@.len() ==> is_plan_of(
                    #[trigger] frame.sprites@[a],
                    final(sprite_manager).sp_draw_order@[a].1 as int,
                    camera,
                    final(sprite_manager).sp_positions@[final(sprite_manager).sp_draw_order@[a].1 as int],
                    final(sprite_manager).sp_size@[final(sprite_manager).sp_draw_order@[a].1 as int],
                    final(first_person_view),
                )
        }),
{
    let texture_bindings = room_textures();
    let slices = first_person_view.draw_view(
        max_ray_distance,
        world,
        pos,
        view_dir,
        plane,
        &texture_bindings,
        hide_floors_and_ceiling,
        line_width_scale,
    );
    let world_size = world.grid.get_size();
    let billboard_plane = if player_facing == 1 {
        plane
    } else {
        WorldPos { x: -plane.x, y: -plane.y }
    };
    proof {
        assert(billboard_plane == sprite_plane(plane, player_facing));
    }
    let sprites = sprite_manager.draw_sprites(
        max_ray_distance,
        first_person_view,
        pos,
        view_dir,
        billboard_plane,
        (world_size.0 as i64) * SUBCELLS,
    );
    FramePlan { slices, sprites }
}

/// The entry of a table of the turned view for slot `slot`: the texture if
/// the slot stands for one of the `reach` cells from the viewer's on in the
/// direction that the viewer faces, the viewer's own in the middle slot,
/// and the cell `rows_below` rows below that cell is a wall of the grid.
pub open spec fn table_entry(
    level: &Level,
    cell: GridCoord,
    facing: int,
    reach: int,
    slot: int,
    rows_below: int,
    texture: SpriteId,
) -> Option<SpriteId> {
    let i = (slot - reach) * facing;
    if 0 <= i < reach && level.wall_at(cell.x + facing * i, cell.y + rows_below) {
        Some(texture)
    } else {
        None
    }
}

/// Whether the cell in column `x` and row `y` is a wall of the grid.
fn wall_in(level: &Level, x: i64, y: i64) -> (b: bool)
    requires
        level.grid.wf(),
    ensures
        b == level.wall_at(x as int, y as int),
{
    if y < 0 || y > 0x7fff_ffff {
        return false;
    }
    let w: i64 = level.grid.get_size().0 as i64;
    let c: i64 = wrap_i64(x, w);
    proof {
        vstd::arithmetic::div_mod::lemma_mod_twice(x as int, w as int);
    }
    match level.grid.get_in_rows(GridCoord { x: c as i32, y: y as i32 }) {
        Some(cell) => match cell {
            GridCellType::Wall => true,
            GridCellType::Empty => false,
        },
        None => false,
    }
}

/// The floor and the ceiling of the turned view: two tables of
/// `2 * reach + 1` slots, the viewer's cell in the middle. A slot holds the
/// floor texture, in the first table, if there is a wall below the cell
/// that it stands for, and the ceiling texture, in the second, if there is
/// one above it. Only the cells from the viewer's on in the direction of
/// `facing` have their slots filled. See `table_entry`.
pub fn floor_ceiling_tables(level: &Level, cell: GridCoord, facing: i32, reach: usize) -> (tables: (
    Vec<Option<SpriteId>>,
    Vec<Option<SpriteId>>,
))
    requires
        level.grid.wf(),
        facing == 1 || facing == -1,
        0 < reach <= 0x4000,
    ensures
        tables.0@.len() == 2 * reach + 1,
        tables.1@.len() == 2 * reach + 1,
        forall|slot: int|
            0 <= slot < 2 * reach + 1 ==> #[trigger] tables.0@[slot] == table_entry(
                level,
                cell,
                facing as int,
                reach as int,
                slot,
                1,
                FLOOR_TEXTURE,
            ),
        forall|slot: int|
            0 <= slot < 2 * reach + 1 ==> #[trigger] tables.1@[slot] == table_entry(
                level,
                cell,
                facing as int,
                reach as int,
                slot,
                -1,
                CEILING_TEXTURE,
            ),
{
    let n: usize = 2 * reach + 1;
    let mut floor: Vec<Option<SpriteId>> = Vec::new();
    let mut ceiling: Vec<Option<SpriteId>> = Vec::new();
    let mut slot: usize = 0;
    while slot < n
        invariant
            slot <= n,
            n == 2 * reach + 1,
            0 < reach <= 0x4000,
            facing == 1 || facing == -1,
            level.grid.wf(),
            floor@.len() == slot,
            ceiling@.len() == slot,
            forall|j: int|
                0 <= j < slot ==> #[trigger] floor@[j] == table_entry(
                    level,
                    cell,
                    facing as int,
                    reach as int,
                    j,
                    1,
                    FLOOR_TEXTURE,
                ),
            forall|j: int|
                0 <= j < slot ==> #[trigger] ceiling@[j] == table_entry(
                    level,
                    cell,
                    facing as int,
                    reach as int,
                    j,
                    -1,
                    CEILING_TEXTURE,
                ),
        decreases n - slot,
    {
        let off: i64 = slot as i64 - reach as i64;
        let i: i64 = if facing == 1 {
            off
        } else {
            -off
        };
        assert(i == (slot - reach) * facing) by (nonlinear_arith)
            requires
                i == (if facing == 1 {
                    off as int
                } else {
                    -off
                }),
                off == slot - reach,
                facing == 1 || facing == -1,
        ;
        let (below, above): (bool, bool) = if 0 <= i && i < reach as i64 {
            let x: i64 = cell.x as i64 + off;
            assert(x == cell.x + facing * i) by (nonlinear_arith)
                requires
                    x == cell.x + off,
                    i == (if facing == 1 {
                        off as int
                    } else {
                        -off
                    }),
                    facing == 1 || facing == -1,
            ;
            (wall_in(level, x, cell.y as i64 + 1), wall_in(level, x, cell.y as i64 - 1))
        } else {
            (false, false)
        };
        floor.push(if below {
            Some(FLOOR_TEXTURE)
        } else {
            None
        });
        ceiling.push(if above {
            Some(CEILING_TEXTURE)
        } else {
            None
        });
        slot += 1;
    }
    (floor, ceiling)
}

} // verus!
