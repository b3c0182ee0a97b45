use gridcaster::coords::{GridCoord, WorldPos, SUBCELLS};
use gridcaster::fpv::{
    project_width, ray_for_column, span_of_slice, texture_for_slice, FirstPersonViewer,
    RoomTextureBindings, WallSlice,
};
use gridcaster::frame::{
    floor_ceiling_tables,
    draw_first_person_frame, mana_color_sprite_id, rebuild_sprites, room_textures,
    side_wall_textures, BULLET_SCALE, FLAVOR_SCALE, MONSTER_SCALE, WIN_ROOM_DROP, WIN_ROOM_SCALE,
};
use gridcaster::game::Game;
use gridcaster::grid2d::GridCellType;
use gridcaster::level::Level;
use gridcaster::mob::MagicColor;
use gridcaster::raycaster::{HitSide, Ratio};
use gridcaster::sprites::{
    find_distance_across_boundary, floor_div_wide, is_nearer, Camera, SpriteScale, Sprites,
};

const F: i64 = SUBCELLS;
const PLANE: i64 = 75366; // 1.15

fn at(x: i32, y: i32) -> GridCoord {
    GridCoord::new(x, y)
}

fn corridor_level() -> Level {
    let mut level = Level::new(None, 16, 64);
    for y in 0..64 {
        for x in 0..16 {
            let border = x == 0 || x == 15 || y == 0 || y == 63;
            if border || y != 8 {
                level.grid.set_cell_at_grid_coords_int(at(x, y), GridCellType::Wall);
            }
        }
    }
    level
}

fn half() -> Ratio {
    Ratio { num: 1, den: 2 }
}

fn scale(width: i64, height: i64) -> SpriteScale {
    SpriteScale { width, height, offset: 0, shield: 0 }
}

fn eye() -> WorldPos {
    WorldPos::new(8 * F + F / 2, 8 * F + F / 2)
}

#[test]
fn a_new_viewer_is_black_and_sees_nothing() {
    let viewer = FirstPersonViewer::new(64, 48);
    assert_eq!(viewer.render_size, (64, 48));
    assert_eq!(viewer.render_image.len(), 64 * 48);
    assert!(viewer.render_image.iter().all(|p| *p == [0, 0, 0, 255]));
    assert_eq!(viewer.z_buffer.len(), 64);
    assert!(viewer.z_buffer.iter().all(|z| z.is_none()));
    let tall = FirstPersonViewer::new(3, 7);
    assert_eq!(tall.z_buffer.len(), 7);
    assert_eq!(tall.render_image.len(), 21);
}

#[test]
fn buffers_reset() {
    let mut viewer = FirstPersonViewer::new(8, 4);
    viewer.z_buffer[3] = Some(Ratio { num: 5, den: 2 });
    viewer.render_image[7] = [1, 2, 3, 4];
    viewer.reset_z_buffer();
    assert!(viewer.z_buffer.iter().all(|z| z.is_none()));
    assert_eq!(viewer.z_buffer.len(), 8);
    assert_eq!(viewer.render_image[7], [1, 2, 3, 4]);
    viewer.reset_image_buffer([9, 8, 7, 0]);
    assert!(viewer.render_image.iter().all(|p| *p == [9, 8, 7, 0]));
    assert_eq!(viewer.render_image.len(), 32);
}

#[test]
fn column_rays_fan_across_the_camera_plane() {
    let dir = WorldPos::new(-F, 0);
    let plane = WorldPos::new(0, PLANE);
    assert_eq!(ray_for_column(dir, plane, 24, 48, false), WorldPos::new(-F, 0));
    assert_eq!(ray_for_column(dir, plane, 0, 48, false), WorldPos::new(-F, -PLANE));
    assert_eq!(ray_for_column(dir, plane, 36, 48, false), WorldPos::new(-F, PLANE / 2));
    assert_eq!(ray_for_column(dir, plane, 47, 48, false), WorldPos::new(-F, 72225));
    // flipped, the columns run the other way
    assert_eq!(ray_for_column(dir, plane, 0, 48, true), WorldPos::new(-F, PLANE));
    assert_eq!(ray_for_column(dir, plane, 36, 48, true), WorldPos::new(-F, -PLANE / 2));
    assert_eq!(ray_for_column(dir, plane, 19, 48, false), WorldPos::new(-F, -15702));
}

#[test]
fn slices_shrink_with_the_distance() {
    // scale * extent / depth
    assert_eq!(project_width(Ratio { num: 2 * F, den: F }, 640, half()), 160);
    assert_eq!(project_width(Ratio { num: F, den: F }, 640, half()), 320);
    assert_eq!(project_width(Ratio { num: F / 2, den: F }, 640, half()), 640);
    assert_eq!(project_width(Ratio { num: 15 * F / 2, den: F }, 640, half()), 42);
    assert_eq!(project_width(Ratio { num: 3 * F, den: F }, 640, Ratio { num: 1, den: 1 }), 213);
    assert_eq!(project_width(Ratio { num: 0, den: F }, 640, half()), i32::MAX);
    assert_eq!(project_width(Ratio { num: 1, den: 0x4000_0000 }, 65535, Ratio { num: 65536, den: 1 }), i32::MAX);
    assert_eq!(project_width(Ratio { num: F, den: F }, 0, half()), 0);
}

#[test]
fn slices_are_centred_and_clipped() {
    assert_eq!(span_of_slice(160, 640), (240, 400));
    assert_eq!(span_of_slice(0, 640), (320, 320));
    assert_eq!(span_of_slice(640, 640), (0, 640));
    assert_eq!(span_of_slice(641, 640), (0, 640));
    assert_eq!(span_of_slice(i32::MAX, 640), (0, 640));
    assert_eq!(span_of_slice(3, 7), (2, 4));
    assert_eq!(span_of_slice(5, 0), (0, 0));
}

#[test]
fn textures_follow_the_face_that_was_hit() {
    let b = RoomTextureBindings { floor: 7, wall: 9, ceiling: 8 };
    let down = WorldPos::new(-F, 5);
    let up = WorldPos::new(-F, -5);
    let level_ray = WorldPos::new(-F, 0);
    let wall = GridCellType::Wall;
    assert_eq!(texture_for_slice(GridCellType::Empty, HitSide::Vertical, at(0, 8), down, 8, &b, false), None);
    assert_eq!(texture_for_slice(wall, HitSide::Vertical, at(0, 8), down, 8, &b, false), Some(9));
    assert_eq!(texture_for_slice(wall, HitSide::Vertical, at(0, 8), down, 8, &b, true), Some(9));
    assert_eq!(texture_for_slice(wall, HitSide::Horizontal, at(3, 9), down, 8, &b, false), Some(7));
    assert_eq!(texture_for_slice(wall, HitSide::Horizontal, at(3, 7), up, 8, &b, false), Some(8));
    assert_eq!(texture_for_slice(wall, HitSide::Horizontal, at(3, 7), level_ray, 8, &b, false), Some(8));
    assert_eq!(texture_for_slice(wall, HitSide::Horizontal, at(3, 9), down, 8, &b, true), None);
    assert_eq!(texture_for_slice(wall, HitSide::Horizontal, at(3, 7), up, 8, &b, true), None);
    assert_eq!(texture_for_slice(wall, HitSide::Horizontal, at(3, 10), down, 8, &b, true), Some(7));
    assert_eq!(room_textures(), b);
    let side = side_wall_textures();
    assert_eq!((side.left.sprite_id, side.right.sprite_id), (10, 11));
    assert!(side.left.pin && side.right.pin);
    assert_eq!(side.left.repeat_speed, 16 * F);
    assert_eq!(side.left.repeat_speed, side.right.repeat_speed);
}

#[test]
fn draw_view_fills_the_depth_buffer() {
    let level = corridor_level();
    let mut viewer = FirstPersonViewer::new(64, 48);
    let slices = viewer.draw_view(
        16 * F,
        &level,
        eye(),
        WorldPos::new(-F, 0),
        WorldPos::new(0, PLANE),
        &room_textures(),
        false,
        half(),
    );
    assert_eq!(slices.len(), 48);
    assert_eq!(viewer.z_buffer.len(), 64);
    // the centre column looks down the corridor at the end wall
    let centre: WallSlice = slices[24];
    assert_eq!(centre.ray, WorldPos::new(-F, 0));
    assert_eq!(centre.perp, Ratio { num: 7 * F + F / 2, den: F });
    assert_eq!(centre.hit_type, GridCellType::Wall);
    assert_eq!(centre.hit_side, HitSide::Vertical);
    assert_eq!(centre.cell, at(0, 8));
    assert_eq!(centre.texture, Some(9));
    // half of 64 pixels at a depth of 7.5: 4 pixels, centred
    assert_eq!(centre.line_width, 4);
    assert_eq!((centre.draw_start, centre.draw_end), (30, 34));
    assert_eq!(centre.wall_offset, F / 2);
    assert_eq!(viewer.z_buffer[24], Some(centre.perp));
    // the first column looks up at the ceiling of the corridor
    let first = slices[0];
    assert_eq!(first.ray, WorldPos::new(-F, -PLANE));
    assert_eq!((first.hit_type, first.hit_side), (GridCellType::Wall, HitSide::Horizontal));
    assert_eq!(first.cell, at(8, 7));
    assert_eq!(first.texture, Some(8));
    assert_eq!(first.perp, Ratio { num: F / 2, den: PLANE });
    // 0.5 * 64 / (0.5 / 1.15) = 73.6: wider than the screen
    assert_eq!(first.line_width, 73);
    assert_eq!((first.draw_start, first.draw_end), (0, 64));
    // the last column looks down at the floor
    let last = slices[47];
    assert_eq!((last.hit_side, last.texture), (HitSide::Horizontal, Some(7)));
    assert_eq!(last.cell.y, 9);
    for y in 0..48 {
        assert_eq!(viewer.z_buffer[y], Some(slices[y].perp));
        assert!(slices[y].draw_start <= slices[y].draw_end && slices[y].draw_end <= 64);
    }
    assert!(viewer.z_buffer[48..].iter().all(|z| z.is_none()));
    assert!(viewer.render_image.iter().all(|p| *p == [0, 0, 0, 255]));
}

#[test]
fn draw_view_flips_with_the_view() {
    let level = corridor_level();
    let mut viewer = FirstPersonViewer::new(64, 48);
    let slices = viewer.draw_view(
        16 * F,
        &level,
        eye(),
        WorldPos::new(F, 0),
        WorldPos::new(0, PLANE),
        &room_textures(),
        true,
        half(),
    );
    // looking towards growing x the first column looks down
    assert_eq!(slices[0].ray, WorldPos::new(F, PLANE));
    assert_eq!(slices[0].cell, at(8, 9));
    // floors and ceilings right above and below the viewer are hidden
    assert_eq!(slices[0].texture, None);
    assert_eq!(slices[24].cell, at(15, 8));
    assert_eq!(slices[24].perp, Ratio { num: 6 * F + F / 2, den: F });
    assert_eq!(slices[24].texture, Some(9));
}

#[test]
fn draw_view_without_walls_in_reach_leaves_no_depth() {
    let level = corridor_level();
    let mut viewer = FirstPersonViewer::new(64, 48);
    viewer.z_buffer[24] = Some(Ratio { num: 1, den: 1 });
    let slices = viewer.draw_view(
        3 * F,
        &level,
        eye(),
        WorldPos::new(-F, 0),
        WorldPos::new(0, PLANE),
        &room_textures(),
        false,
        half(),
    );
    assert_eq!(slices[24].hit_type, GridCellType::Empty);
    assert_eq!(slices[24].texture, None);
    assert_eq!(viewer.z_buffer[24], None);
    assert_eq!(slices[0].hit_type, GridCellType::Wall);
}

#[test]
fn the_horizontal_view_scans_along_the_width() {
    let level = corridor_level();
    let mut viewer = FirstPersonViewer::new(64, 48);
    let slices = viewer.draw_view_horizontal(
        16 * F,
        &level,
        eye(),
        WorldPos::new(-F, 0),
        WorldPos::new(0, PLANE),
        half(),
    );
    assert_eq!(slices.len(), 64);
    assert_eq!(slices[32].perp, Ratio { num: 7 * F + F / 2, den: F });
    assert_eq!(slices[32].cell, at(0, 8));
    // half of 48 pixels at a depth of 7.5: 3 pixels
    assert_eq!(slices[32].line_width, 3);
    assert_eq!((slices[32].draw_start, slices[32].draw_end), (23, 25));
    assert_eq!(slices[0].ray, WorldPos::new(-F, -PLANE));
    assert!(slices.iter().all(|s| s.texture.is_none()));
    for x in 0..64 {
        assert_eq!(viewer.z_buffer[x], Some(slices[x].perp));
    }
}

#[test]
fn the_way_across_the_seam() {
    let obj = WorldPos::new(10 * F, 3 * F);
    let pos = WorldPos::new(8 * F, 5 * F);
    let width = 16 * F;
    assert_eq!(find_distance_across_boundary(obj, pos, 1, width), WorldPos::new(2 * F, -2 * F));
    assert_eq!(find_distance_across_boundary(obj, pos, -1, width), WorldPos::new(-14 * F, -2 * F));
    assert_eq!(find_distance_across_boundary(pos, obj, -1, width), WorldPos::new(-2 * F, 2 * F));
    assert_eq!(find_distance_across_boundary(pos, obj, 1, width), WorldPos::new(14 * F, 2 * F));
    assert_eq!(find_distance_across_boundary(obj, pos, 0, width), WorldPos::new(2 * F, -2 * F));
    // right on the seam of the relation: nothing to correct
    assert_eq!(find_distance_across_boundary(pos, pos, -1, width), WorldPos::new(0, 0));
    assert_eq!(find_distance_across_boundary(pos, pos, 1, width), WorldPos::new(0, 0));
}

#[test]
fn depths_compare_as_fractions() {
    let wall = Some(Ratio { num: 15, den: 2 });
    assert!(is_nearer(Ratio { num: 7, den: 1 }, wall));
    assert!(!is_nearer(Ratio { num: 8, den: 1 }, wall));
    assert!(!is_nearer(Ratio { num: 15, den: 2 }, wall));
    assert!(!is_nearer(Ratio { num: 30, den: 4 }, wall));
    assert!(is_nearer(Ratio { num: 29, den: 4 }, wall));
    assert!(is_nearer(Ratio { num: i64::MAX, den: 1 }, None));
    assert!(is_nearer(Ratio { num: i64::MAX - 1, den: i64::MAX }, Some(Ratio { num: 1, den: 1 })));
    assert_eq!(floor_div_wide(-7, 2), -4);
    assert_eq!(floor_div_wide(7, 2), 3);
}

#[test]
fn sprites_are_sorted_back_to_front() {
    let mut sprites = Sprites::new();
    let row = 8 * F + F / 2;
    sprites.add_sprite(WorldPos::new(5 * F + F / 2, row), (0, MagicColor::White), scale(MONSTER_SCALE, MONSTER_SCALE));
    sprites.add_sprite(WorldPos::new(-F - F / 2, row), (0, MagicColor::Black), scale(MONSTER_SCALE, MONSTER_SCALE));
    sprites.add_sprite(WorldPos::new(3 * F + F / 2, row), (1, MagicColor::White), scale(BULLET_SCALE, BULLET_SCALE));
    // behind the viewer, but in front across the seam
    sprites.add_sprite(WorldPos::new(10 * F + F / 2, row), (2, MagicColor::Black), scale(BULLET_SCALE, BULLET_SCALE));
    // too far away
    sprites.add_sprite(WorldPos::new(-8 * F - F / 2, row), (3, MagicColor::Black), scale(BULLET_SCALE, BULLET_SCALE));
    // as far away as the first
    sprites.add_sprite(WorldPos::new(5 * F + F / 2, row), (4, MagicColor::Black), scale(BULLET_SCALE, BULLET_SCALE));
    assert_eq!(sprites.sp_draw_order.len(), 6);
    assert_eq!(sprites.sp_draw_order[0], (u64::MAX, 0));
    let camera = Camera {
        pos: eye(),
        dir: WorldPos::new(-F, 0),
        plane: WorldPos::new(0, PLANE),
        world_width: 16 * F,
    };
    sprites.sort_sprites(&camera, 16 * F);
    let f2 = (F * F) as u64;
    assert_eq!(
        sprites.sp_draw_order,
        vec![(196 * f2, 3), (100 * f2, 1), (25 * f2, 2), (9 * f2, 0), (9 * f2, 5)]
    );
    // looking the other way, what is to the left is seen across the seam
    let back = Camera { dir: WorldPos::new(F, 0), plane: WorldPos::new(0, -PLANE), ..camera };
    sprites.sort_sprites(&back, 16 * F);
    assert_eq!(
        sprites.sp_draw_order,
        vec![(169 * f2, 0), (169 * f2, 5), (121 * f2, 2), (36 * f2, 1), (4 * f2, 3)]
    );
    sprites.clear_sprites();
    assert!(sprites.sp_positions.is_empty());
    assert!(sprites.sp_draw_order.is_empty());
}

#[test]
fn a_sprite_in_front_of_the_wall_is_drawn_and_one_behind_is_not() {
    let level = corridor_level();
    let mut viewer = FirstPersonViewer::new(64, 48);
    let mut sprites = Sprites::new();
    let row = 8 * F + F / 2;
    // three cells ahead, in front of the end wall at 7.5
    sprites.add_sprite(WorldPos::new(5 * F + F / 2, row), (0, MagicColor::White), scale(MONSTER_SCALE, MONSTER_SCALE));
    // ten cells ahead, behind it
    sprites.add_sprite(WorldPos::new(-F - F / 2, row), (0, MagicColor::Black), scale(MONSTER_SCALE, MONSTER_SCALE));
    let frame = draw_first_person_frame(
        1,
        16 * F,
        &level,
        eye(),
        WorldPos::new(-F, 0),
        WorldPos::new(0, PLANE),
        false,
        half(),
        &mut viewer,
        &mut sprites,
    );
    assert_eq!(frame.slices.len(), 48);
    assert_eq!(frame.sprites.len(), 2);
    let far = &frame.sprites[0];
    let near = &frame.sprites[1];
    assert_eq!((far.index, near.index), (1, 0));
    assert_eq!(near.depth.num as f64 / near.depth.den as f64, 3.0);
    assert_eq!(far.depth.num as f64 / far.depth.den as f64, 10.0);
    // 0.6 * 64 / 3 = 12.8 pixels wide, 0.6 * 48 / 3 = 9.6 pixels high, centred
    assert_eq!(near.width, 838869);
    assert_eq!(near.height, 629152);
    assert_eq!(near.left, 32 * F - 838869 / 2);
    assert_eq!(near.top, 24 * F - 629152 / 2);
    assert_eq!((near.draw_start_x, near.draw_end_x), (25, 38));
    assert_eq!((near.draw_start_y, near.draw_end_y), (19, 28));
    // the corridor's ceiling and floor hide three of its ten columns
    assert_eq!(
        near.visible,
        vec![false, false, true, true, true, true, true, true, true, false]
    );
    for (k, seen) in near.visible.iter().enumerate() {
        let wall = viewer.z_buffer[near.draw_start_y + k].unwrap();
        let wall_depth = wall.num as f64 / wall.den as f64;
        assert_eq!(*seen, 3.0 < wall_depth);
    }
    // the one behind the wall is hidden in every column
    assert_eq!((far.draw_start_y, far.draw_end_y), (22, 25));
    assert_eq!(far.visible, vec![false, false, false, false]);
}

#[test]
fn a_sprite_is_drawn_where_no_wall_was_hit() {
    let level = corridor_level();
    let mut viewer = FirstPersonViewer::new(64, 48);
    let mut sprites = Sprites::new();
    let row = 8 * F + F / 2;
    sprites.add_sprite(WorldPos::new(7 * F, row), (0, MagicColor::White), scale(6554, 6554));
    let frame = draw_first_person_frame(
        1,
        3 * F,
        &level,
        eye(),
        WorldPos::new(-F, 0),
        WorldPos::new(0, PLANE),
        false,
        half(),
        &mut viewer,
        &mut sprites,
    );
    assert_eq!(viewer.z_buffer[24], None);
    assert_eq!(frame.sprites.len(), 1);
    let plan = &frame.sprites[0];
    // 0.1 * 48 / 1.5 = 3.2 pixels high
    assert_eq!((plan.draw_start_y, plan.draw_end_y), (22, 25));
    assert_eq!(plan.visible, vec![true, true, true, true]);
}

#[test]
fn a_sprite_off_the_middle_and_off_the_screen() {
    let viewer = FirstPersonViewer::new(64, 48);
    let mut sprites = Sprites::new();
    // two cells ahead, one cell below the line of sight
    sprites.add_sprite(
        WorldPos::new(6 * F + F / 2, 9 * F + F / 2),
        (0, MagicColor::White),
        SpriteScale { width: F, height: F, offset: F / 2, shield: 0 },
    );
    // right in front of the camera plane: huge
    sprites.add_sprite(WorldPos::new(8 * F + F / 2 - 1, 8 * F + F / 2), (0, MagicColor::White), scale(F, F));
    let plans = sprites.draw_sprites(
        16 * F,
        &viewer,
        eye(),
        WorldPos::new(-F, 0),
        WorldPos::new(0, PLANE),
        16 * F,
    );
    assert_eq!(plans.len(), 2);
    let side = &plans[0];
    assert_eq!(side.index, 0);
    assert_eq!(side.depth.num as f64 / side.depth.den as f64, 2.0);
    // 64 / 2 and 48 / 2 pixels
    assert_eq!((side.width, side.height), (32 * F, 24 * F));
    // centred at 1.5 * 32 across
    assert_eq!(side.left, 48 * F - 16 * F);
    assert_eq!((side.draw_start_x, side.draw_end_x), (32, 63));
    // centred at 24 * (1 + 1 / (1.15 * 2)) along the column
    let centre = 24.0 * (1.0 + 1.0 / (1.15 * 2.0));
    let top = side.top as f64 / F as f64;
    assert!((top - (centre - 12.0)).abs() < 0.01);
    assert_eq!((side.draw_start_y, side.draw_end_y), (22, 46));
    assert_eq!(side.visible.len(), 25);
    assert!(side.visible.iter().all(|v| *v));
    let huge = &plans[1];
    assert_eq!(huge.index, 1);
    assert_eq!((huge.draw_start_x, huge.draw_end_x), (0, 63));
    assert_eq!((huge.draw_start_y, huge.draw_end_y), (0, 47));
    assert_eq!(huge.visible.len(), 48);
}

#[test]
fn bullets_have_the_image_of_their_colour() {
    assert_eq!(mana_color_sprite_id(MagicColor::White), 1);
    assert_eq!(mana_color_sprite_id(MagicColor::Black), 2);
}

#[test]
fn entities_become_billboards() {
    let mut level = corridor_level();
    level.mob_list = vec![(3, 8)];
    level.win_room = (4, 0);
    level.flavor_sprites = Some(vec![
        (2 * F, 8 * F + 100, 0),
        (3 * F, 8 * F + 200, 1),
        (4 * F, 8 * F + 300, 2),
        (5 * F, 8 * F + 400, 5),
    ]);
    let mut game = Game::new(level, 750_000, 750_000, 639, 1_000_000).unwrap();
    let mut hurt = game.mobs.get(0).unwrap();
    hurt.hp = 34;
    game.mobs.replace(0, hurt);
    let bullet = game.shoot(WorldPos::new(-F, 0));
    let bullet_pos = game.mobs.get(bullet).unwrap().get_pos();
    let table = vec![scale(13107, 13107), SpriteScale { width: -1, height: 5, offset: 0, shield: 0 }];
    let mut sprites = Sprites::new();
    sprites.add_sprite(WorldPos::new(0, 0), (9, MagicColor::White), scale(1, 1));
    rebuild_sprites(&game, &mut sprites, 12, 15, &table);
    assert_eq!(
        sprites.sp_positions,
        vec![
            WorldPos::new(3 * F + F / 2, 8 * F + F / 2),
            bullet_pos,
            WorldPos::new(4 * F + F / 2, F / 2 + WIN_ROOM_DROP),
            WorldPos::new(2 * F, 8 * F + 100),
            WorldPos::new(3 * F, 8 * F + 200),
            WorldPos::new(4 * F, 8 * F + 300),
        ]
    );
    assert_eq!(
        sprites.sp_type,
        vec![
            (0, MagicColor::White),
            (1, MagicColor::White),
            (3, MagicColor::Black),
            (12, MagicColor::White),
            (13, MagicColor::White),
            (14, MagicColor::White),
        ]
    );
    assert_eq!(
        sprites.sp_size,
        vec![
            // a monster with 34 of 100 hit points has that much of its shield
            SpriteScale { width: MONSTER_SCALE, height: MONSTER_SCALE, offset: 0, shield: 34 * F / 100 },
            scale(BULLET_SCALE, BULLET_SCALE),
            scale(WIN_ROOM_SCALE, WIN_ROOM_SCALE),
            scale(13107, 13107),
            scale(FLAVOR_SCALE, FLAVOR_SCALE),
            scale(FLAVOR_SCALE, FLAVOR_SCALE),
        ]
    );
}

#[test]
fn range_checks_guard_the_arithmetic() {
    let level = corridor_level();
    let dir = WorldPos::new(-F, 0);
    let plane = WorldPos::new(0, PLANE);
    assert!(gridcaster::raycaster::ray_fits(eye(), dir, 16 * F));
    assert!(!gridcaster::raycaster::ray_fits(eye(), WorldPos::new(0, 0), 16 * F));
    assert!(!gridcaster::raycaster::ray_fits(WorldPos::new(-1, 0), dir, 16 * F));
    assert!(!gridcaster::raycaster::ray_fits(eye(), dir, -1));
    assert!(!gridcaster::raycaster::ray_fits(eye(), dir, 0x4000_0001));
    assert!(gridcaster::fpv::view_fits(eye(), dir, plane, 16 * F, half()));
    assert!(!gridcaster::fpv::view_fits(eye(), dir, plane, 16 * F, Ratio { num: 1, den: 0 }));
    assert!(!gridcaster::fpv::view_fits(eye(), WorldPos::new(0x1000_0001, 0), plane, 16 * F, half()));
    assert!(gridcaster::frame::frame_fits(1, 16 * F, &level, eye(), dir, plane, half(), (64, 48)));
    assert!(gridcaster::frame::frame_fits(-1, 16 * F, &level, eye(), dir, plane, half(), (64, 48)));
    assert!(!gridcaster::frame::frame_fits(0, 16 * F, &level, eye(), dir, plane, half(), (64, 48)));
    assert!(!gridcaster::frame::frame_fits(1, 16 * F, &level, eye(), dir, plane, half(), (0, 48)));
    let wide = Level::new(None, 8193, 1);
    assert!(!gridcaster::frame::frame_fits(1, 16 * F, &wide, eye(), dir, plane, half(), (64, 48)));
}

#[test]
fn floor_and_ceiling_tables_of_the_turned_view() {
    let mut level = Level::new(None, 16, 12);
    for x in [8, 9, 11] {
        level.grid.set_cell_at_grid_coords_int(at(x, 6), GridCellType::Wall);
    }
    for x in [8, 10, 7] {
        level.grid.set_cell_at_grid_coords_int(at(x, 4), GridCellType::Wall);
    }
    let (floor, ceiling) = floor_ceiling_tables(&level, at(8, 5), 1, 4);
    assert_eq!(floor, vec![None, None, None, None, Some(7), Some(7), None, Some(7), None]);
    assert_eq!(ceiling, vec![None, None, None, None, Some(8), None, Some(8), None, None]);
    let (floor, ceiling) = floor_ceiling_tables(&level, at(8, 5), -1, 4);
    assert_eq!(floor, vec![None, None, None, None, Some(7), None, None, None, None]);
    assert_eq!(ceiling, vec![None, None, None, Some(8), Some(8), None, None, None, None]);
    // the columns wrap around; the rows above and below the grid have no walls
    level.grid.set_cell_at_grid_coords_int(at(0, 11), GridCellType::Wall);
    level.grid.set_cell_at_grid_coords_int(at(1, 1), GridCellType::Wall);
    level.grid.set_cell_at_grid_coords_int(at(15, 0), GridCellType::Wall);
    let (floor, ceiling) = floor_ceiling_tables(&level, at(15, 11), 1, 2);
    assert_eq!(floor, vec![None; 5]);
    assert_eq!(ceiling, vec![None; 5]);
    let (floor, ceiling) = floor_ceiling_tables(&level, at(15, 0), 1, 3);
    assert_eq!(floor, vec![None, None, None, None, None, Some(7), None]);
    assert_eq!(ceiling, vec![None; 7]);
}
