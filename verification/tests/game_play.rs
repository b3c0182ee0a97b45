use gridcaster::animation::{animate_monster, Shot};
use gridcaster::combat::{Collision, CollisionType};
use gridcaster::coords::{GridCoord, WorldPos, SUBCELLS};
use gridcaster::game::Game;
use gridcaster::grid2d::GridCellType;
use gridcaster::level::Level;
use gridcaster::mob::{
    Flight, MagicColor, MobId, MobType, Mobs, MonsterState, BULLET_LIFETIME,
    MONSTER_MOVE_COOLDOWN,
};
use gridcaster::player_movement::PlayerPosition;
use gridcaster::player_state::{
    HorizontalPlayerState, IdleOutcome, Intent, PlayerMode, PlayerState, TickContext,
    FALL_DURATION, MOVE_DURATION, TURN_DURATION,
};
use gridcaster::raycaster::{cast_ray, HitSide, Ratio};
use gridcaster::sprites::Sprites;

const F: i64 = SUBCELLS;
const LOOK_MAX: i64 = 750_000;

fn at(x: i32, y: i32) -> GridCoord {
    GridCoord::new(x, y)
}

fn tick(frame_time: u64) -> TickContext {
    TickContext { frame_time, look_up_held: false, look_down_held: false }
}

fn wall(level: &mut Level, x: i32, y: i32) {
    level.grid.set_cell_at_grid_coords_int(at(x, y), GridCellType::Wall);
}

/// A 16 by 64 level with walls all around and one corridor in row 8.
fn corridor_level() -> Level {
    let mut level = Level::new(None, 16, 64);
    for y in 0..64 {
        for x in 0..16 {
            let border = x == 0 || x == 15 || y == 0 || y == 63;
            if border || y != 8 {
                wall(&mut level, x, y);
            }
        }
    }
    level
}

/// A level of the given height with a shaft in column 2, open from `top`
/// down to the row above the bottom wall, and a ledge to stand on beside
/// its top.
fn shaft_level(height: usize, top: i32) -> Level {
    let mut level = Level::new(None, 8, height);
    for y in 0..height as i32 {
        for x in 0..8 {
            let in_shaft = x == 2 && y >= top && y < height as i32 - 1;
            let on_ledge = y == top && (x == 3 || x == 4);
            if !in_shaft && !on_ledge {
                wall(&mut level, x, y);
            }
        }
    }
    // make the shaft too wide to brace in
    for y in top..height as i32 - 1 {
        level.grid.set_cell_at_grid_coords_int(at(1, y), GridCellType::Empty);
    }
    level
}

fn new_game(level: Level) -> Game {
    Game::new(level, LOOK_MAX, LOOK_MAX, 639, 1_000_000).unwrap()
}

/// The part of a frame after the player's tick; returns the billboards.
fn rest_of_frame(game: &mut Game, frame_time: u64) -> Sprites {
    let mut sprites = Sprites::new();
    game.update_world(frame_time, &mut sprites, 12, 12, &Vec::new());
    sprites
}

fn markers(game: &Game) -> usize {
    game.mob_grid.get_cells().iter().filter(|c| **c == MobId::Player).count()
}

fn check_occupancy(game: &Game) {
    assert_eq!(markers(game), 1);
    assert_eq!(
        game.mob_grid.get_cell_at_grid_coords_int(game.player_pos.get_pos()),
        Some(&MobId::Player)
    );
    let mut named: Vec<usize> = Vec::new();
    for cell in game.mob_grid.get_cells() {
        if let MobId::Mob(id) = cell {
            assert!(!named.contains(id));
            named.push(*id);
            let mob = game.mobs.get(*id).unwrap();
            assert!(matches!(mob.mob_type, MobType::Monster(_)));
            assert!(game.mobs.mob_list.contains(id));
        }
    }
    for id in &game.mobs.mob_list {
        let mob = game.mobs.get(*id).unwrap();
        if let MobType::Monster(_) = mob.mob_type {
            assert_eq!(
                game.mob_grid.get_cell_at_grid_coords_int(mob.get_pos().cell()),
                Some(&MobId::Mob(*id))
            );
        }
    }
}

#[test]
fn a_new_game_starts_idle_at_the_start_cell() {
    let mut level = corridor_level();
    level.mob_list = vec![(3, 8), (12, 8), (8, 8), (12, 8), (5, 70), (21, 8)];
    let game = new_game(level);
    assert_eq!(game.player_pos.get_pos(), at(8, 8));
    assert_eq!(game.player_state.mode, PlayerMode::Idle);
    assert_eq!(game.player_facing, 1);
    assert_eq!(game.mana_color, MagicColor::White);
    assert_eq!(game.player_hp, 639);
    assert_eq!(game.player_world_coord, WorldPos::new(8 * F + F / 2, 8 * F + F / 2));
    // one monster per free spawn cell on the grid; (21, 8) wraps to (5, 8)
    assert_eq!(game.mobs.mob_list, vec![0, 1, 2]);
    let cells: Vec<GridCoord> =
        game.mobs.mob_list.iter().map(|id| game.mobs.get(*id).unwrap().get_pos().cell()).collect();
    assert_eq!(cells, vec![at(3, 8), at(12, 8), at(5, 8)]);
    assert!(game.mobs.mob_list.iter().all(|id| game.mobs.get(*id).unwrap().get_color() == MagicColor::White));
    check_occupancy(&game);
    assert!(!game.has_won());
    assert!(!game.is_dead());
}

#[test]
fn a_game_needs_a_playable_level() {
    let mut off_grid = Level::new(None, 8, 8);
    assert!(Game::new(Level::new(None, 8, 8), LOOK_MAX, LOOK_MAX, 639, 1).is_none()); // start (8, 8) is outside
    off_grid.player_start = (7, 7);
    assert!(Game::new(off_grid, LOOK_MAX, LOOK_MAX, 639, 1).is_some());
    assert!(Game::new(corridor_level(), LOOK_MAX, LOOK_MAX, -1, 1).is_none());
    assert!(Game::new(corridor_level(), -1, LOOK_MAX, 639, 1).is_none());
    assert!(Game::new(corridor_level(), LOOK_MAX, 2_000_000_000, 639, 1).is_none());
    assert!(Game::new(Level::new(None, 8193, 16), LOOK_MAX, LOOK_MAX, 639, 1).is_none());
    assert!(Game::new(Level::new(None, 16, 8193), LOOK_MAX, LOOK_MAX, 639, 1).is_none());
    assert!(Game::new(Level::new(None, 8192, 16), LOOK_MAX, LOOK_MAX, 639, 1).is_some());
    assert!(Game::new(corridor_level(), LOOK_MAX, LOOK_MAX, 0, 1).is_some());
}

#[test]
fn centre_ray_of_the_end_to_end_scenario() {
    let level = corridor_level();
    let game = new_game(level);
    let (perp, kind, side, cell) =
        cast_ray(&game.level.grid, &game.player_world_coord, &WorldPos::new(F, 0), 16 * F);
    assert_eq!((kind, side, cell), (GridCellType::Wall, HitSide::Vertical, at(15, 8)));
    assert_eq!(perp, Ratio { num: 6 * F + F / 2, den: F });
    assert!((perp.num as f64 / perp.den as f64 - 6.5).abs() < 1e-12);
    let (perp, kind, _, cell) =
        cast_ray(&game.level.grid, &game.player_world_coord, &WorldPos::new(-F, 0), 16 * F);
    assert_eq!((kind, cell), (GridCellType::Wall, at(0, 8)));
    assert_eq!(perp, Ratio { num: 7 * F + F / 2, den: F });
}

#[test]
fn moving_forward_goes_idle_moving_idle() {
    let mut game = new_game(corridor_level());
    let frame: u64 = 16_667;
    let outcome = game.update_player(tick(frame), Some(Intent::WalkForward));
    assert_eq!(outcome, IdleOutcome { mode: PlayerMode::Moving, fired: false });
    assert_eq!(game.player_state.mode, PlayerMode::Moving);
    assert_eq!(game.player_state.new_player_pos, Some((7, 8)));
    assert_eq!(game.player_state.lerp, 0);
    assert_eq!(game.player_pos.get_pos(), at(8, 8));
    let mut ticks = 0;
    let mut last_lerp = 0;
    while game.player_state.mode == PlayerMode::Moving {
        game.update_player(tick(frame), None);
        ticks += 1;
        assert!(game.player_state.lerp >= last_lerp);
        assert!(game.player_state.lerp <= MOVE_DURATION);
        last_lerp = game.player_state.lerp;
        assert!(ticks <= 15);
        check_occupancy(&game);
    }
    // 250 ms at 16.667 ms per tick: done with the fifteenth tick
    assert_eq!(ticks, 15);
    assert_eq!(game.player_state.mode, PlayerMode::Idle);
    assert_eq!(game.player_pos.get_pos(), at(7, 8));
    assert_eq!(game.player_state.new_player_pos, None);
    assert_eq!(game.player_world_coord, WorldPos::new(7 * F + F / 2, 8 * F + F / 2));
}

#[test]
fn the_way_is_interpolated() {
    let mut game = new_game(corridor_level());
    game.update_player(tick(0), Some(Intent::WalkBackward));
    assert_eq!(game.player_state.new_player_pos, Some((9, 8)));
    game.update_player(tick(62_500), None);
    assert_eq!(game.player_world_coord, WorldPos::new(8 * F + F / 2 + F / 4, 8 * F + F / 2));
    game.update_player(tick(62_500), None);
    assert_eq!(game.player_world_coord, WorldPos::new(9 * F, 8 * F + F / 2));
    assert_eq!(game.player_pos.get_pos(), at(8, 8));
    game.update_player(tick(1_000_000), None);
    assert_eq!(game.player_pos.get_pos(), at(9, 8));
    assert_eq!(game.player_state.lerp, MOVE_DURATION);
    assert_eq!(game.player_state.mode, PlayerMode::Idle);
}

#[test]
fn a_blocked_move_stays_idle() {
    let mut level = corridor_level();
    level.mob_list = vec![(7, 8)];
    let mut game = new_game(level);
    let outcome = game.update_player(tick(16_667), Some(Intent::WalkForward));
    assert_eq!(outcome.mode, PlayerMode::Idle);
    assert_eq!(game.player_state.new_player_pos, None);
    let outcome = game.update_player(tick(16_667), Some(Intent::ClimbUp));
    assert_eq!(outcome.mode, PlayerMode::Idle);
    let outcome = game.update_player(tick(16_667), Some(Intent::ClimbDown));
    assert_eq!(outcome.mode, PlayerMode::Idle);
    let outcome = game.update_player(tick(16_667), Some(Intent::Other));
    assert_eq!(outcome.mode, PlayerMode::Idle);
    assert_eq!(game.player_pos.get_pos(), at(8, 8));
    check_occupancy(&game);
}

#[test]
fn a_walk_key_levels_the_view_first() {
    let mut game = new_game(corridor_level());
    let up = TickContext { frame_time: 100_000, look_up_held: true, look_down_held: false };
    game.update_player(up, None);
    assert_eq!(game.player_state.look_rotation, 100_000);
    let outcome = game.update_player(tick(16_667), Some(Intent::WalkForward));
    assert_eq!(outcome.mode, PlayerMode::Idle);
    assert_eq!(game.player_state.look_rotation, 0);
    let outcome = game.update_player(tick(16_667), Some(Intent::WalkForward));
    assert_eq!(outcome.mode, PlayerMode::Moving);
}

#[test]
fn the_view_is_clamped_to_its_limits() {
    let mut state = PlayerState::new(750_000, 300_000);
    let up = TickContext { frame_time: 400_000, look_up_held: true, look_down_held: false };
    let down = TickContext { frame_time: 400_000, look_up_held: false, look_down_held: true };
    state.player_look(up);
    assert_eq!(state.look_rotation, 400_000);
    state.player_look(up);
    assert_eq!(state.look_rotation, 750_000);
    state.player_look(down);
    state.player_look(down);
    assert_eq!(state.look_rotation, -50_000);
    state.player_look(down);
    assert_eq!(state.look_rotation, -300_000);
    state.player_look(tick(400_000));
    assert_eq!(state.look_rotation, -300_000);
    let both = TickContext { frame_time: u64::MAX, look_up_held: true, look_down_held: true };
    state.player_look(both);
    assert_eq!(state.look_rotation, 750_000);
}

#[test]
fn shooting_needs_a_cold_weapon() {
    let mut game = new_game(corridor_level());
    let outcome = game.update_player(tick(16_667), Some(Intent::Attack));
    assert_eq!(outcome, IdleOutcome { mode: PlayerMode::Idle, fired: true });
    assert_eq!(game.player_state.fire_cooldown, 1_000_000);
    let id = game.shoot(WorldPos::new(-F, 0));
    let bullet = game.mobs.get(id).unwrap();
    assert_eq!(bullet.get_pos(), WorldPos::new(8 * F + F / 2 - 67359, 8 * F + F / 2));
    assert_eq!(bullet.get_color(), MagicColor::White);
    assert_eq!(bullet.mob_type, MobType::Bullet);
    rest_of_frame(&mut game, 400_000);
    assert_eq!(game.player_state.fire_cooldown, 600_000);
    let outcome = game.update_player(tick(16_667), Some(Intent::Attack));
    assert!(!outcome.fired);
    rest_of_frame(&mut game, 600_000);
    assert_eq!(game.player_state.fire_cooldown, 0);
    let outcome = game.update_player(tick(16_667), Some(Intent::Attack));
    assert!(outcome.fired);
}

#[test]
fn the_swap_key_swaps_the_colour() {
    let mut game = new_game(corridor_level());
    game.update_player(tick(16_667), Some(Intent::SwapColor));
    assert_eq!(game.mana_color, MagicColor::Black);
    game.update_player(tick(16_667), Some(Intent::SwapColor));
    assert_eq!(game.mana_color, MagicColor::White);
    // on the way too, but not with the tick of arrival
    game.update_player(tick(16_667), Some(Intent::WalkForward));
    game.update_player(tick(16_667), Some(Intent::SwapColor));
    assert_eq!(game.mana_color, MagicColor::Black);
    assert_eq!(game.player_state.mode, PlayerMode::Moving);
    game.update_player(tick(250_000), Some(Intent::SwapColor));
    assert_eq!(game.mana_color, MagicColor::Black);
    assert_eq!(game.player_state.mode, PlayerMode::Idle);
}

#[test]
fn a_turn_about_flips_the_facing() {
    let mut game = new_game(corridor_level());
    let outcome = game.update_player(tick(16_667), Some(Intent::TurnRight));
    assert_eq!(outcome.mode, PlayerMode::Turning(1));
    assert_eq!(game.turn, HorizontalPlayerState { turn_direction: 1, lerp: 0 });
    assert_eq!(game.player_facing, 1);
    game.update_player(tick(100_000), None);
    assert_eq!(game.turn.lerp, 100_000);
    game.update_player(tick(100_000), None);
    game.update_player(tick(100_000), None);
    assert_eq!(game.player_state.mode, PlayerMode::Turning(1));
    assert_eq!(game.turn.lerp, 300_000);
    game.update_player(tick(100_000), None);
    assert_eq!(game.turn.lerp, TURN_DURATION);
    assert_eq!(game.player_state.mode, PlayerMode::Idle);
    assert_eq!(game.player_facing, -1);
    // facing the other way, forward is towards growing x
    game.update_player(tick(16_667), Some(Intent::WalkForward));
    assert_eq!(game.player_state.new_player_pos, Some((9, 8)));
    let mut other = new_game(corridor_level());
    let outcome = other.update_player(tick(16_667), Some(Intent::TurnLeft));
    assert_eq!(outcome.mode, PlayerMode::Turning(-1));
    assert_eq!(other.turn.turn_direction, -1);
}

#[test]
fn a_turn_alone_runs_to_completion() {
    let mut turn = HorizontalPlayerState::begin(-1);
    assert!(!turn.player_do_180(349_999));
    assert_eq!(turn.lerp, 349_999);
    assert!(turn.player_do_180(1));
    assert_eq!(turn.lerp, 350_000);
    assert!(turn.player_do_180(u64::MAX));
    assert_eq!(turn.turn_direction, -1);
}

#[test]
fn falling_down_a_shaft_cell_by_cell() {
    // shaft cells in rows 2 to 8, floor in row 9: seven cells
    let n = 7;
    let mut level = shaft_level(10, 2);
    level.player_start = (3, 2);
    let mut game = new_game(level);
    // step off the ledge into the top of the shaft
    game.update_player(tick(16_667), Some(Intent::WalkForward));
    assert_eq!(game.player_state.mode, PlayerMode::Moving);
    game.update_player(tick(250_000), None);
    assert_eq!(game.player_pos.get_pos(), at(2, 2));
    assert_eq!(game.player_state.mode, PlayerMode::Idle);
    let outcome = game.update_player(tick(16_667), Some(Intent::WalkBackward));
    assert_eq!(outcome.mode, PlayerMode::Falling);
    let mut rows: Vec<i32> = Vec::new();
    let mut falls = 0;
    let mut ticks = 0;
    while game.player_state.mode == PlayerMode::Falling {
        let row_before = game.player_pos.get_pos().y;
        let had_target = game.player_state.new_player_pos.is_some();
        game.update_player(tick(50_000), None);
        ticks += 1;
        assert!(ticks < 100);
        let row = game.player_pos.get_pos().y;
        assert!(row == row_before || row == row_before + 1);
        if row != row_before {
            rows.push(row);
        }
        if !had_target && game.player_state.mode == PlayerMode::Falling {
            assert_eq!(game.player_state.new_player_pos, Some((2, row_before + 1)));
            falls += 1;
        }
        check_occupancy(&game);
    }
    assert_eq!(falls, n - 1);
    assert_eq!(rows, vec![3, 4, 5, 6, 7, 8]);
    assert_eq!(game.player_state.mode, PlayerMode::Idle);
    assert_eq!(game.player_pos.get_pos(), at(2, 8));
    // each fall: one tick to set out, three ticks of 50 ms for 125 ms; and a last tick to land
    assert_eq!(ticks, 4 * (n - 1) + 1);
    assert_eq!(FALL_DURATION, 125_000);
}

#[test]
fn a_monster_below_stops_a_fall() {
    let mut level = shaft_level(10, 2);
    level.player_start = (2, 2);
    level.mob_list = vec![(2, 5)];
    let mut game = new_game(level);
    let outcome = game.update_player(tick(16_667), None);
    assert_eq!(outcome.mode, PlayerMode::Falling);
    for _ in 0..40 {
        game.update_player(tick(125_000), None);
    }
    assert_eq!(game.player_pos.get_pos(), at(2, 4));
    assert_eq!(game.player_state.mode, PlayerMode::Idle);
    check_occupancy(&game);
}

#[test]
fn a_corpse_below_does_not_hold_the_player() {
    let mut level = shaft_level(10, 2);
    level.player_start = (2, 2);
    level.mob_list = vec![(2, 3)];
    let mut game = new_game(level);
    // standing on a living monster the player is idle
    let outcome = game.update_player(tick(16_667), None);
    assert_eq!(outcome.mode, PlayerMode::Idle);
    let mut corpse = game.mobs.get(0).unwrap();
    corpse.is_alive = false;
    game.mobs.replace(0, corpse);
    // on a corpse the player starts to fall, but cannot get into its cell
    let outcome = game.update_player(tick(16_667), None);
    assert_eq!(outcome.mode, PlayerMode::Falling);
    game.update_player(tick(16_667), None);
    assert_eq!(game.player_state.new_player_pos, Some((2, 3)));
    game.update_player(tick(125_000), None);
    assert_eq!(game.player_pos.get_pos(), at(2, 2));
    assert_eq!(game.player_state.new_player_pos, None);
    check_occupancy(&game);
    // once the corpse is swept the fall goes on
    rest_of_frame(&mut game, 16_667);
    assert!(game.mobs.mob_list.is_empty());
    for _ in 0..40 {
        game.update_player(tick(125_000), None);
    }
    assert_eq!(game.player_pos.get_pos(), at(2, 8));
    assert_eq!(game.player_state.mode, PlayerMode::Idle);
}

#[test]
fn winning_and_dying() {
    let mut level = corridor_level();
    level.win_room = (7, 8);
    let mut game = new_game(level);
    assert!(!game.has_won());
    game.update_player(tick(16_667), Some(Intent::WalkForward));
    game.update_player(tick(250_000), None);
    assert!(game.has_won());
    assert!(!game.is_dead());
    game.player_hp = 0;
    assert!(game.is_dead());
}

#[test]
fn monsters_move_only_into_free_rooms() {
    let level = corridor_level();
    let mut grid = gridcaster::grid2d::Grid2D::new(16, 64);
    let mut mobs = Mobs::new();
    let player = PlayerPosition::new((8, 8), &mut grid);
    assert!(mobs.new_monster(at(7, 8), &mut grid, MagicColor::Black));
    assert!(mobs.new_monster(at(5, 8), &mut grid, MagicColor::Black));
    let target = WorldPos::new(8 * F + F / 2, 8 * F + F / 2);
    let mut seen_cells: Vec<GridCoord> = Vec::new();
    let mut last = at(7, 8);
    for _ in 0..200 {
        // each call lets the cooldowns run out, so monster 0 moves or attacks
        let shot = animate_monster(
            &mut mobs,
            0,
            MONSTER_MOVE_COOLDOWN,
            &level,
            &mut grid,
            &player,
            target,
            MagicColor::White,
        );
        let mob = mobs.get(0).unwrap();
        let cell = mob.get_pos().cell();
        assert!(cell == at(7, 8) || cell == at(6, 8));
        assert!((cell.x - last.x).abs() <= 1 && cell.y == last.y);
        last = cell;
        if !seen_cells.contains(&cell) {
            seen_cells.push(cell);
        }
        assert_eq!(grid.get_cell_at_grid_coords_int(cell), Some(&MobId::Mob(0)));
        assert_eq!(grid.get_cells().iter().filter(|c| **c == MobId::Mob(0)).count(), 1);
        assert_eq!(grid.get_cells().iter().filter(|c| **c == MobId::Mob(1)).count(), 1);
        assert_eq!(grid.get_cells().iter().filter(|c| **c == MobId::Player).count(), 1);
        assert_eq!(mobs.get(1).unwrap().get_pos().cell(), at(5, 8));
        if let Some(s) = shot {
            assert_eq!(s.pos, mob.get_pos());
            assert_eq!(s.dir, WorldPos::new(F, 0));
            assert_eq!(s.color, mob.get_color());
        }
    }
    // over two hundred coin flips the monster has both stayed and moved
    assert_eq!(seen_cells.len(), 2);
}

#[test]
fn a_monster_with_the_players_colour_changes_it_and_shoots() {
    let level = corridor_level();
    let mut grid = gridcaster::grid2d::Grid2D::new(16, 64);
    let mut mobs = Mobs::new();
    let player = PlayerPosition::new((8, 8), &mut grid);
    // walled in between the player's cell and another monster: it cannot move
    assert!(mobs.new_monster(at(7, 8), &mut grid, MagicColor::White));
    assert!(mobs.new_monster(at(6, 8), &mut grid, MagicColor::White));
    let target = WorldPos::new(8 * F + F / 2, 8 * F + F / 2);
    let mut shots = 0;
    for _ in 0..100 {
        let before = mobs.get(0).unwrap().get_color();
        let shot = animate_monster(
            &mut mobs,
            0,
            MONSTER_MOVE_COOLDOWN,
            &level,
            &mut grid,
            &player,
            target,
            before,
        );
        let after = mobs.get(0).unwrap();
        assert_eq!(after.get_pos().cell(), at(7, 8));
        match shot {
            Some(s) => {
                shots += 1;
                // it attacked: it changed colour first and shot in the new one
                assert_eq!(after.get_color(), before.get_opposite());
                assert_eq!(s.color, after.get_color());
                assert_eq!(s.dir, WorldPos::new(F, 0));
            }
            None => assert_eq!(after.get_color(), before),
        }
    }
    assert!(shots > 10 && shots < 90);
}

#[test]
fn frames_keep_the_occupancy_invariant() {
    let mut level = corridor_level();
    level.mob_list = vec![(2, 8), (4, 8), (11, 8), (13, 8)];
    let mut game = new_game(level);
    let keys = [
        Some(Intent::WalkForward),
        None,
        Some(Intent::Attack),
        Some(Intent::WalkBackward),
        Some(Intent::SwapColor),
        Some(Intent::ClimbUp),
        None,
        Some(Intent::WalkBackward),
        Some(Intent::Attack),
        Some(Intent::ClimbDown),
    ];
    let mut bullets_seen = 0;
    for frame in 0..600 {
        let outcome = game.update_player(tick(100_000), keys[frame % keys.len()]);
        if outcome.fired {
            let dir = if game.player_facing == 1 { -F } else { F };
            game.shoot(WorldPos::new(dir, 0));
        }
        rest_of_frame(&mut game, 100_000);
        check_occupancy(&game);
        assert!(game.collisions.is_empty());
        assert!(game.player_hp >= 0 && game.player_hp <= 639);
        assert_eq!(game.player_pos.get_pos().y, 8);
        bullets_seen += game
            .mobs
            .mob_list
            .iter()
            .filter(|id| game.mobs.get(**id).unwrap().mob_type == MobType::Bullet)
            .count();
        for id in &game.mobs.mob_list {
            let mob = game.mobs.get(*id).unwrap();
            if let MobType::Monster(_) = mob.mob_type {
                assert_eq!(mob.get_pos().cell().y, 8);
                assert!(mob.hp >= 0 && mob.hp <= 100);
            }
        }
    }
    assert!(bullets_seen > 0);
}

#[test]
fn a_round_of_ticks_reaches_every_entity() {
    let mut level = corridor_level();
    level.mob_list = vec![(2, 8), (13, 8)];
    let mut game = new_game(level);
    let bullet = game.shoot(WorldPos::new(-F, 0));
    assert_eq!(game.mobs.mob_list, vec![0, 1, bullet]);
    let start = WorldPos::new(8 * F + F / 2 - 67359, 8 * F + F / 2);
    let flight = Flight {
        start,
        end: WorldPos::new(start.x - 10 * F, start.y),
        elapsed: 0,
        duration: BULLET_LIFETIME,
    };
    assert_eq!(game.mobs.get(bullet).unwrap().moving, Some(flight));
    let grid_before = game.mob_grid.get_cells().clone();

    let shots = game.animate_mobs(100_000);

    // no monster can act yet: each has only cooled down
    assert!(shots.is_empty());
    for id in 0..2 {
        let monster = game.mobs.get(id).unwrap();
        assert_eq!(
            monster.mob_type,
            MobType::Monster(MonsterState {
                last_move_time: 5_900_000,
                last_attack_time: 5_900_000,
                last_color_change_time: 3_900_000,
            })
        );
        assert!(monster.is_alive);
    }
    assert_eq!(game.mobs.get(0).unwrap().get_pos().cell(), at(2, 8));
    assert_eq!(game.mobs.get(1).unwrap().get_pos().cell(), at(13, 8));
    assert_eq!(game.mob_grid.get_cells(), &grid_before);
    // the bullet has flown for a tenth of a second, a fifth of a cell
    let flown = game.mobs.get(bullet).unwrap();
    assert!(flown.is_alive);
    assert_eq!(flown.moving, Some(Flight { elapsed: 100_000, ..flight }));
    assert_eq!(flown.get_pos(), flight.position_at(100_000));
    assert_eq!(flown.get_pos(), WorldPos::new(start.x - 13108, start.y));
    assert!(game.collisions.is_empty());
    assert_eq!(game.mobs.mob_list, vec![0, 1, bullet]);
    check_occupancy(&game);
}

#[test]
fn a_bullet_that_reaches_a_monster_collides_in_its_tick() {
    let mut level = corridor_level();
    level.mob_list = vec![(6, 8)];
    let mut game = new_game(level);
    let bullet = game.shoot(WorldPos::new(-F, 0));
    // three tenths of a second take the bullet out of cell 7 into cell 6
    let shots = game.animate_mobs(300_000);
    assert!(shots.is_empty());
    let spent = game.mobs.get(bullet).unwrap();
    assert!(!spent.is_alive);
    assert_eq!(spent.get_pos().cell(), at(6, 8));
    assert_eq!(
        game.collisions,
        vec![Collision { collision_type: CollisionType::Bullet(MobId::Mob(0), MagicColor::White) }]
    );
    // the damage waits for the collisions to be resolved
    assert_eq!(game.mobs.get(0).unwrap().hp, 100);
    assert!(game.mobs.get(0).unwrap().is_alive);
    // a dead bullet on no flight stays where it is
    let again = game.animate_mobs(300_000);
    assert!(again.is_empty());
    let spent = game.mobs.get(bullet).unwrap();
    assert!(!spent.is_alive);
    assert_eq!(spent.get_pos().cell(), at(6, 8));
}

#[test]
fn a_round_of_ticks_collects_the_monsters_shots() {
    let mut level = corridor_level();
    level.mob_list = vec![(6, 8), (10, 8)];
    let mut game = new_game(level);
    let mut taken = 0;
    for _ in 0..40 {
        let shots = game.animate_mobs(MONSTER_MOVE_COOLDOWN);
        assert!(shots.len() <= 2);
        let mut k = 0;
        for id in 0..2 {
            let monster = game.mobs.get(id).unwrap();
            // a monster that shot is the next shooter, in the order of the roster
            if k < shots.len() && shots[k].pos == monster.get_pos() {
                let towards_player = if monster.get_pos().x < 8 * F { F } else { -F };
                assert_eq!(shots[k].dir, WorldPos::new(towards_player, 0));
                assert_eq!(shots[k].color, monster.get_color());
                k += 1;
            }
            assert_eq!(monster.hp, 100);
        }
        assert_eq!(k, shots.len());
        taken += shots.len();
        assert_eq!(game.mobs.mob_list, vec![0, 1]);
        check_occupancy(&game);
    }
    assert!(taken > 0);
}

#[test]
fn a_frame_sweeps_ticks_arms_and_does_the_damage() {
    let mut level = corridor_level();
    level.mob_list = vec![(6, 8), (12, 8)];
    let mut game = new_game(level);
    game.mana_color = MagicColor::Black;
    let mut dead = game.mobs.get(1).unwrap();
    dead.is_alive = false;
    game.mobs.replace(1, dead);
    let bullet = game.shoot(WorldPos::new(-F, 0));
    assert_eq!(bullet, 2);

    let sprites = rest_of_frame(&mut game, 300_000);

    // the dead monster was swept before the billboards were made
    assert_eq!(game.mobs.mob_list, vec![0, bullet]);
    assert!(game.mobs.get(1).is_none());
    assert_eq!(game.mob_grid.get_cell_at_grid_coords_int(at(12, 8)), Some(&MobId::NoMob));
    // the living monster, the bullet as it was before its tick, and the win room
    assert_eq!(sprites.sp_positions.len(), 3);
    assert_eq!(sprites.sp_positions[0], WorldPos::new(6 * F + F / 2, 8 * F + F / 2));
    assert_eq!(sprites.sp_positions[1], WorldPos::new(8 * F + F / 2 - 67359, 8 * F + F / 2));
    // the bullet of the other colour reached the monster and took its toll
    let hit = game.mobs.get(0).unwrap();
    assert_eq!(hit.hp, 100 - 33);
    assert!(hit.is_alive);
    assert!(!game.mobs.get(bullet).unwrap().is_alive);
    assert!(game.collisions.is_empty());
    assert_eq!(game.player_hp, 639);
    check_occupancy(&game);

    // the next frame sweeps the spent bullet
    let sprites = rest_of_frame(&mut game, 1_000);
    assert_eq!(game.mobs.mob_list, vec![0]);
    assert_eq!(sprites.sp_positions.len(), 2);
    assert_eq!(game.mobs.get(0).unwrap().hp, 67);
}

#[test]
fn shots_become_bullets_in_their_order() {
    let mut level = corridor_level();
    level.mob_list = vec![(6, 8), (12, 8)];
    let mut game = new_game(level);
    // free the slot of the first monster
    let mut dead = game.mobs.get(0).unwrap();
    dead.is_alive = false;
    game.mobs.replace(0, dead);
    game.sweep();
    assert_eq!(game.mobs.mob_list, vec![1]);
    let from = WorldPos::new(12 * F + F / 2, 8 * F + F / 2);
    let shots = vec![
        Shot { pos: from, dir: WorldPos::new(-F, 0), color: MagicColor::Black },
        Shot { pos: from, dir: WorldPos::new(F, 0), color: MagicColor::White },
    ];
    game.spawn_shots(&shots);
    // the first bullet takes the free slot, the second a new one
    assert_eq!(game.mobs.mob_list, vec![1, 0, 2]);
    let first = game.mobs.get(0).unwrap();
    assert_eq!(first.mob_type, MobType::Bullet);
    assert_eq!(first.get_color(), MagicColor::Black);
    assert_eq!(first.get_pos(), WorldPos::new(from.x - 67359, from.y));
    assert_eq!(
        first.moving,
        Some(Flight {
            start: WorldPos::new(from.x - 67359, from.y),
            end: WorldPos::new(from.x - 67359 - 10 * F, from.y),
            elapsed: 0,
            duration: BULLET_LIFETIME,
        })
    );
    let second = game.mobs.get(2).unwrap();
    assert_eq!(second.get_color(), MagicColor::White);
    assert_eq!(second.get_pos(), WorldPos::new(from.x + 67359, from.y));
    assert!(first.is_alive && second.is_alive);
    assert_eq!((first.hp, second.hp), (1, 1));
}

#[test]
fn collisions_do_their_damage_in_their_order() {
    let mut level = corridor_level();
    level.mob_list = vec![(6, 8)];
    let mut game = new_game(level);
    game.player_hp = 150;
    let hit = |target: MobId, color: MagicColor| Collision {
        collision_type: CollisionType::Bullet(target, color),
    };
    game.collisions = vec![
        hit(MobId::Player, MagicColor::Black),     // 150 - 100
        hit(MobId::Player, MagicColor::White),     // 50 + 25
        hit(MobId::Mob(0), MagicColor::Black),     // 100 - 33
        hit(MobId::Mob(0), MagicColor::Black),     // 67 - 33
        hit(MobId::Mob(0), MagicColor::White),     // 34 + 33
        hit(MobId::Mob(7), MagicColor::Black),     // nobody there
        hit(MobId::NoMob, MagicColor::Black),
    ];
    game.resolve_collisions();
    assert_eq!(game.player_hp, 75);
    let monster = game.mobs.get(0).unwrap();
    assert_eq!(monster.hp, 67);
    assert!(monster.is_alive);
    assert!(game.collisions.is_empty());
    assert_eq!(game.mobs.mob_list, vec![0]);

    // the order counts: a kill is not undone by a later heal
    game.collisions = vec![
        hit(MobId::Mob(0), MagicColor::Black),
        hit(MobId::Mob(0), MagicColor::Black),
        hit(MobId::Mob(0), MagicColor::Black),
        hit(MobId::Mob(0), MagicColor::White),
    ];
    game.resolve_collisions();
    let monster = game.mobs.get(0).unwrap();
    assert_eq!(monster.hp, 33);
    assert!(!monster.is_alive);
}
