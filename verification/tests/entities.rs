use gridcaster::animation::{
    choose_action, cool_monster, free_rooms, is_free_room, move_bullets, relocate_monster,
};
use gridcaster::combat::{
    same_color, Collision, CollisionType, DamageIndicator, MONSTER_TO_PLAYER_DAMAGE,
    PLAYER_TO_MONSTER_DAMAGE,
};
use gridcaster::coords::{GridCoord, WorldPos, SUBCELLS};
use gridcaster::grid2d::{Grid2D, GridCellType};
use gridcaster::level::Level;
use gridcaster::mob::{
    mob_at_cell, Flight, MagicColor, MobData, MobId, MobType, Mobs, MonsterState, BULLET_LIFETIME,
    BULLET_SPEED, MONSTER_ATTACK_COOLDOWN, MONSTER_COLOR_CHANGE_COOLDOWN, MONSTER_HP,
    MONSTER_MOVE_COOLDOWN, MONSTER_SPEED,
};
use gridcaster::player_movement::PlayerPosition;

const F: i64 = SUBCELLS;

fn at(x: i32, y: i32) -> GridCoord {
    GridCoord::new(x, y)
}

fn open_level(width: usize, height: usize) -> Level {
    Level::new(None, width, height)
}

fn with_wall(mut level: Level, x: i32, y: i32) -> Level {
    level.grid.set_cell_at_grid_coords_int(at(x, y), GridCellType::Wall);
    level
}

fn grid_for(level: &Level) -> Grid2D<MobId> {
    let (w, h) = level.grid.get_size();
    Grid2D::new(w, h)
}

fn monster_state_of(mob: &MobData) -> MonsterState {
    match mob.mob_type {
        MobType::Monster(state) => state,
        MobType::Bullet => panic!("not a monster"),
    }
}

#[test]
fn colours_are_opposites() {
    assert_eq!(MagicColor::White.get_opposite(), MagicColor::Black);
    assert_eq!(MagicColor::Black.get_opposite(), MagicColor::White);
    assert!(same_color(MagicColor::White, MagicColor::White));
    assert!(same_color(MagicColor::Black, MagicColor::Black));
    assert!(!same_color(MagicColor::Black, MagicColor::White));
    assert!(!same_color(MagicColor::White, MagicColor::Black));
}

#[test]
fn fresh_monster_state_has_full_cooldowns() {
    let state = MonsterState::new();
    assert_eq!(state.last_move_time, 6_000_000);
    assert_eq!(state.last_attack_time, 6_000_000);
    assert_eq!(state.last_color_change_time, 4_000_000);
    assert!(!state.can_move());
    assert!(!state.can_attack());
    assert!(!state.can_change_color());
}

#[test]
fn cooldowns_count_down_to_zero() {
    let mut state = MonsterState::new();
    state.update(1_500_000);
    assert_eq!(state.last_move_time, 4_500_000);
    assert_eq!(state.last_attack_time, 4_500_000);
    assert_eq!(state.last_color_change_time, 2_500_000);
    state.update(2_500_000);
    assert_eq!(state.last_move_time, 2_000_000);
    assert_eq!(state.last_color_change_time, 0);
    assert!(state.can_change_color());
    assert!(!state.can_move());
    state.update(10_000_000);
    assert_eq!(state.last_move_time, 0);
    assert_eq!(state.last_attack_time, 0);
    assert!(state.can_move());
    assert!(state.can_attack());
    state.update(u64::MAX);
    assert_eq!(state.last_move_time, 0);
}

#[test]
fn cooldowns_start_over() {
    let mut state =
        MonsterState { last_move_time: 0, last_attack_time: 0, last_color_change_time: 0 };
    state.start_attack_cooldown();
    assert_eq!(state.last_attack_time, MONSTER_ATTACK_COOLDOWN);
    assert_eq!(state.last_move_time, 0);
    state.start_color_change_cooldown();
    assert_eq!(state.last_color_change_time, MONSTER_COLOR_CHANGE_COOLDOWN);
    state.start_move_cooldown(100);
    assert_eq!(state.last_move_time, MONSTER_MOVE_COOLDOWN);
    state.start_move_cooldown(50);
    assert_eq!(state.last_move_time, 3_000_000);
    state.start_move_cooldown(0);
    assert_eq!(state.last_move_time, 0);
}

#[test]
fn new_monster_takes_a_free_cell() {
    let level = open_level(8, 4);
    let mut grid = grid_for(&level);
    let mut mobs = Mobs::new();
    assert!(mobs.new_monster(at(2, 1), &mut grid, MagicColor::Black));
    assert_eq!(mobs.mob_list, vec![0]);
    let mob = mobs.get(0).unwrap();
    assert!(mob.is_alive);
    assert_eq!(mob.hp, MONSTER_HP);
    assert_eq!(mob.hp, 100);
    assert_eq!(mob.moving, None);
    assert_eq!(mob.move_speed, MONSTER_SPEED);
    assert_eq!(mob.get_pos(), WorldPos::new(2 * F + F / 2, F + F / 2));
    assert_eq!(mob.get_color(), MagicColor::Black);
    assert_eq!(monster_state_of(&mob), MonsterState::new());
    assert_eq!(mob_at_cell(at(2, 1), &grid), MobId::Mob(0));
    assert_eq!(grid.get_cells().iter().filter(|c| **c != MobId::NoMob).count(), 1);
}

#[test]
fn new_monster_refuses_an_occupied_cell() {
    let level = open_level(8, 4);
    let mut grid = grid_for(&level);
    let mut mobs = Mobs::new();
    let _player = PlayerPosition::new((4, 1), &mut grid);
    assert!(mobs.new_monster(at(2, 1), &mut grid, MagicColor::Black));
    let before: Vec<MobId> = grid.get_cells().clone();
    assert!(!mobs.new_monster(at(2, 1), &mut grid, MagicColor::White));
    assert!(!mobs.new_monster(at(4, 1), &mut grid, MagicColor::White));
    assert!(!mobs.new_monster(at(2, 4), &mut grid, MagicColor::White));
    assert!(!mobs.new_monster(at(2, -1), &mut grid, MagicColor::White));
    assert_eq!(mobs.mob_list, vec![0]);
    assert_eq!(mobs.slots.len(), 1);
    assert_eq!(*grid.get_cells(), before);
}

#[test]
fn nobody_stands_outside_the_grid() {
    let level = open_level(8, 4);
    let mut grid = grid_for(&level);
    let mut mobs = Mobs::new();
    assert!(mobs.new_monster(at(7, 3), &mut grid, MagicColor::Black));
    assert_eq!(mob_at_cell(at(7, 3), &grid), MobId::Mob(0));
    assert_eq!(mob_at_cell(at(-1, 3), &grid), MobId::Mob(0));
    assert_eq!(mob_at_cell(at(7, 4), &grid), MobId::NoMob);
    assert_eq!(mob_at_cell(at(7, -1), &grid), MobId::NoMob);
    assert_eq!(mob_at_cell(at(0, 0), &grid), MobId::NoMob);
}

#[test]
fn occupants_are_walls_to_rays() {
    assert_eq!(GridCellType::from(MobId::NoMob), GridCellType::Empty);
    assert_eq!(GridCellType::from(MobId::Mob(3)), GridCellType::Wall);
    assert_eq!(GridCellType::from(MobId::Player), GridCellType::Wall);
    assert_eq!(MobId::default(), MobId::NoMob);
}

#[test]
fn new_bullet_starts_outside_the_shooters_cell() {
    let mut mobs = Mobs::new();
    let from = WorldPos::new(8 * F + F / 2, 8 * F + F / 2);
    let id = mobs.new_bullet(from, WorldPos::new(-F, 0), MagicColor::White);
    assert_eq!(id, 0);
    assert_eq!(mobs.mob_list, vec![0]);
    let bullet = mobs.get(id).unwrap();
    let start = WorldPos::new(8 * F + F / 2 - 67359, 8 * F + F / 2);
    assert_eq!(bullet.get_pos(), start);
    assert_eq!(bullet.get_pos().cell(), GridCoord::new(7, 8));
    assert_eq!(
        bullet.moving,
        Some(Flight {
            start,
            end: WorldPos::new(start.x - 10 * F, start.y),
            elapsed: 0,
            duration: BULLET_LIFETIME
        })
    );
    assert_eq!(bullet.hp, 1);
    assert!(bullet.is_alive);
    assert_eq!(bullet.move_speed, BULLET_SPEED);
    assert_eq!(bullet.mob_type, MobType::Bullet);
    assert_eq!(bullet.get_color(), MagicColor::White);
}

#[test]
fn new_bullet_rounds_its_start_down() {
    let mut mobs = Mobs::new();
    let id = mobs.new_bullet(WorldPos::new(1000, 1000), WorldPos::new(3, -3), MagicColor::Black);
    let bullet = mobs.get(id).unwrap();
    // 3 * 67359 / 65536 = 3.08.., -3 * 67359 / 65536 = -3.08..
    assert_eq!(bullet.get_pos(), WorldPos::new(1003, 996));
    assert_eq!(bullet.moving.unwrap().end, WorldPos::new(1033, 966));
}

#[test]
fn slots_are_reused_after_a_sweep() {
    let level = open_level(8, 4);
    let mut grid = grid_for(&level);
    let mut mobs = Mobs::new();
    assert!(mobs.new_monster(at(1, 1), &mut grid, MagicColor::White));
    assert!(mobs.new_monster(at(2, 1), &mut grid, MagicColor::White));
    assert!(mobs.new_monster(at(3, 1), &mut grid, MagicColor::White));
    let mut second = mobs.get(1).unwrap();
    second.is_alive = false;
    mobs.replace(1, second);
    mobs.delete_dead_mobs(&mut grid);
    assert_eq!(mobs.mob_list, vec![0, 2]);
    assert!(mobs.get(1).is_none());
    assert_eq!(mob_at_cell(at(2, 1), &grid), MobId::NoMob);
    assert_eq!(mob_at_cell(at(1, 1), &grid), MobId::Mob(0));
    assert_eq!(mob_at_cell(at(3, 1), &grid), MobId::Mob(2));
    let id = mobs.new_bullet(WorldPos::new(F, F), WorldPos::new(F, 0), MagicColor::White);
    assert_eq!(id, 1);
    assert_eq!(mobs.mob_list, vec![0, 2, 1]);
    let next = mobs.new_bullet(WorldPos::new(F, F), WorldPos::new(F, 0), MagicColor::White);
    assert_eq!(next, 3);
}

#[test]
fn sweep_keeps_the_living_in_order() {
    let level = open_level(8, 4);
    let mut grid = grid_for(&level);
    let mut mobs = Mobs::new();
    for x in 0..6 {
        assert!(mobs.new_monster(at(x, 2), &mut grid, MagicColor::White));
    }
    let bullet = mobs.new_bullet(WorldPos::new(F, F), WorldPos::new(F, 0), MagicColor::Black);
    for id in [0usize, 3, 4, bullet] {
        let mut mob = mobs.get(id).unwrap();
        mob.is_alive = false;
        mobs.replace(id, mob);
    }
    mobs.delete_dead_mobs(&mut grid);
    assert_eq!(mobs.mob_list, vec![1, 2, 5]);
    for x in 0..6 {
        let expected = if x == 1 || x == 2 || x == 5 { MobId::Mob(x as usize) } else { MobId::NoMob };
        assert_eq!(mob_at_cell(at(x, 2), &grid), expected);
    }
    assert!(mobs.mob_list.iter().all(|id| mobs.get(*id).unwrap().is_alive));
    mobs.delete_dead_mobs(&mut grid);
    assert_eq!(mobs.mob_list, vec![1, 2, 5]);
}

#[test]
fn opposite_colour_hurts_a_monster() {
    let level = open_level(8, 4);
    let mut grid = grid_for(&level);
    let mut mobs = Mobs::new();
    assert!(mobs.new_monster(at(1, 1), &mut grid, MagicColor::White));
    let mut hp: i32 = 639;
    let hit = Collision::new_with_bullet(MobId::Mob(0), MagicColor::Black);
    assert_eq!(hit.collision_type, CollisionType::Bullet(MobId::Mob(0), MagicColor::Black));
    assert_eq!(hit.damage_target(&mut mobs, &mut hp, 639, MagicColor::White), DamageIndicator::Other);
    assert_eq!(mobs.get(0).unwrap().hp, 67);
    assert!(mobs.get(0).unwrap().is_alive);
    hit.damage_target(&mut mobs, &mut hp, 639, MagicColor::White);
    assert_eq!(mobs.get(0).unwrap().hp, 34);
    hit.damage_target(&mut mobs, &mut hp, 639, MagicColor::White);
    assert_eq!(mobs.get(0).unwrap().hp, 1);
    assert!(mobs.get(0).unwrap().is_alive);
    hit.damage_target(&mut mobs, &mut hp, 639, MagicColor::White);
    assert_eq!(mobs.get(0).unwrap().hp, 0);
    assert!(!mobs.get(0).unwrap().is_alive);
    assert_eq!(hp, 639);
    // gone after the next sweep
    assert_eq!(mobs.mob_list, vec![0]);
    mobs.delete_dead_mobs(&mut grid);
    assert!(mobs.mob_list.is_empty());
    assert!(mobs.get(0).is_none());
    assert_eq!(mob_at_cell(at(1, 1), &grid), MobId::NoMob);
}

#[test]
fn same_colour_heals_a_monster_up_to_the_cap() {
    let level = open_level(8, 4);
    let mut grid = grid_for(&level);
    let mut mobs = Mobs::new();
    assert!(mobs.new_monster(at(1, 1), &mut grid, MagicColor::White));
    let mut hp: i32 = 10;
    let hurt = Collision::new_with_bullet(MobId::Mob(0), MagicColor::Black);
    let heal = Collision::new_with_bullet(MobId::Mob(0), MagicColor::White);
    hurt.damage_target(&mut mobs, &mut hp, 639, MagicColor::Black);
    hurt.damage_target(&mut mobs, &mut hp, 639, MagicColor::Black);
    assert_eq!(mobs.get(0).unwrap().hp, 34);
    heal.damage_target(&mut mobs, &mut hp, 639, MagicColor::Black);
    assert_eq!(mobs.get(0).unwrap().hp, 67);
    heal.damage_target(&mut mobs, &mut hp, 639, MagicColor::Black);
    assert_eq!(mobs.get(0).unwrap().hp, 100);
    heal.damage_target(&mut mobs, &mut hp, 639, MagicColor::Black);
    assert_eq!(mobs.get(0).unwrap().hp, MONSTER_HP);
    assert!(mobs.get(0).unwrap().is_alive);
    assert_eq!(hp, 10);
    assert_eq!(PLAYER_TO_MONSTER_DAMAGE, 33);
}

#[test]
fn a_heal_does_not_raise_the_dead() {
    let level = open_level(8, 4);
    let mut grid = grid_for(&level);
    let mut mobs = Mobs::new();
    assert!(mobs.new_monster(at(1, 1), &mut grid, MagicColor::White));
    let mut corpse = mobs.get(0).unwrap();
    corpse.hp = 0;
    corpse.is_alive = false;
    mobs.replace(0, corpse);
    let mut hp: i32 = 10;
    Collision::new_with_bullet(MobId::Mob(0), MagicColor::White).damage_target(
        &mut mobs,
        &mut hp,
        639,
        MagicColor::Black,
    );
    assert_eq!(mobs.get(0).unwrap().hp, 33);
    assert!(!mobs.get(0).unwrap().is_alive);
}

#[test]
fn bullets_hurt_and_heal_the_player() {
    let mut mobs = Mobs::new();
    let mut hp: i32 = 639;
    let white = Collision::new_with_bullet(MobId::Player, MagicColor::White);
    assert_eq!(
        white.damage_target(&mut mobs, &mut hp, 639, MagicColor::Black),
        DamageIndicator::PlayerHit
    );
    assert_eq!(hp, 539);
    assert_eq!(
        white.damage_target(&mut mobs, &mut hp, 639, MagicColor::White),
        DamageIndicator::PlayerHeal
    );
    assert_eq!(hp, 564);
    for _ in 0..4 {
        white.damage_target(&mut mobs, &mut hp, 639, MagicColor::White);
    }
    assert_eq!(hp, 639);
    for _ in 0..6 {
        white.damage_target(&mut mobs, &mut hp, 639, MagicColor::Black);
    }
    assert_eq!(hp, 39);
    white.damage_target(&mut mobs, &mut hp, 639, MagicColor::Black);
    assert_eq!(hp, 0);
    assert_eq!(MONSTER_TO_PLAYER_DAMAGE, 100);
}

#[test]
fn a_hit_on_nobody_does_nothing() {
    let level = open_level(8, 4);
    let mut grid = grid_for(&level);
    let mut mobs = Mobs::new();
    assert!(mobs.new_monster(at(1, 1), &mut grid, MagicColor::White));
    let mut hp: i32 = 300;
    assert_eq!(
        Collision::new_with_bullet(MobId::NoMob, MagicColor::Black).damage_target(
            &mut mobs,
            &mut hp,
            639,
            MagicColor::White
        ),
        DamageIndicator::Other
    );
    assert_eq!(
        Collision::new_with_bullet(MobId::Mob(17), MagicColor::Black).damage_target(
            &mut mobs,
            &mut hp,
            639,
            MagicColor::White
        ),
        DamageIndicator::Other
    );
    assert_eq!(hp, 300);
    assert_eq!(mobs.get(0).unwrap().hp, 100);
}

#[test]
fn flights_interpolate_linearly() {
    let flight = Flight {
        start: WorldPos::new(1000, -2000),
        end: WorldPos::new(2000, -4001),
        elapsed: 0,
        duration: 4,
    };
    assert_eq!(flight.position_at(0), WorldPos::new(1000, -2000));
    assert_eq!(flight.position_at(1), WorldPos::new(1250, -2501));
    assert_eq!(flight.position_at(2), WorldPos::new(1500, -3001));
    assert_eq!(flight.position_at(4), WorldPos::new(2000, -4001));
}

#[test]
fn a_bullet_flies_and_expires() {
    let level = open_level(32, 4);
    let grid = grid_for(&level);
    let mut mobs = Mobs::new();
    let id = mobs.new_bullet(WorldPos::new(2 * F + F / 2, F + F / 2), WorldPos::new(F, 0), MagicColor::White);
    let mut bullet = mobs.get(id).unwrap();
    let start = bullet.get_pos();
    let mut collisions: Vec<Collision> = Vec::new();
    move_bullets(&mut bullet, 1_000_000, &level, &grid, &mobs, &mut collisions);
    assert!(bullet.is_alive);
    assert_eq!(bullet.get_pos(), WorldPos::new(start.x + 2 * F, start.y));
    assert_eq!(bullet.moving.unwrap().elapsed, 1_000_000);
    move_bullets(&mut bullet, 3_999_999, &level, &grid, &mobs, &mut collisions);
    assert!(bullet.is_alive);
    assert_eq!(bullet.moving.unwrap().elapsed, 4_999_999);
    move_bullets(&mut bullet, 1, &level, &grid, &mobs, &mut collisions);
    assert!(!bullet.is_alive);
    assert_eq!(bullet.moving, None);
    assert!(collisions.is_empty());
    // without a flight a bullet just dies
    let mut stray = mobs.get(id).unwrap();
    stray.moving = None;
    move_bullets(&mut stray, 10, &level, &grid, &mobs, &mut collisions);
    assert!(!stray.is_alive);
    assert!(collisions.is_empty());
}

#[test]
fn a_bullet_wraps_around_the_seam() {
    let level = open_level(8, 4);
    let grid = grid_for(&level);
    let mut mobs = Mobs::new();
    let id = mobs.new_bullet(WorldPos::new(F / 2, F + F / 2), WorldPos::new(-F, 0), MagicColor::White);
    let mut bullet = mobs.get(id).unwrap();
    assert_eq!(bullet.get_pos().x, F / 2 - 67359);
    let mut collisions: Vec<Collision> = Vec::new();
    move_bullets(&mut bullet, 500_000, &level, &grid, &mobs, &mut collisions);
    assert!(bullet.is_alive);
    assert_eq!(bullet.get_pos(), WorldPos::new(8 * F + F / 2 - 67359 - F, F + F / 2));
}

#[test]
fn a_bullet_stops_at_a_wall() {
    let level = with_wall(open_level(32, 4), 6, 1);
    let grid = grid_for(&level);
    let mut mobs = Mobs::new();
    let id = mobs.new_bullet(WorldPos::new(2 * F + F / 2, F + F / 2), WorldPos::new(F, 0), MagicColor::White);
    let mut bullet = mobs.get(id).unwrap();
    let mut collisions: Vec<Collision> = Vec::new();
    move_bullets(&mut bullet, 1_000_000, &level, &grid, &mobs, &mut collisions);
    assert!(bullet.is_alive);
    assert_eq!(bullet.get_pos().cell(), at(5, 1));
    move_bullets(&mut bullet, 250_000, &level, &grid, &mobs, &mut collisions);
    assert!(!bullet.is_alive);
    assert_eq!(bullet.moving, None);
    assert!(collisions.is_empty());
}

#[test]
fn a_bullet_hits_whoever_is_in_its_cell() {
    let level = open_level(32, 4);
    let mut grid = grid_for(&level);
    let mut mobs = Mobs::new();
    assert!(mobs.new_monster(at(6, 1), &mut grid, MagicColor::Black));
    let _player = PlayerPosition::new((9, 2), &mut grid);
    let id = mobs.new_bullet(WorldPos::new(2 * F + F / 2, F + F / 2), WorldPos::new(F, 0), MagicColor::White);
    let mut bullet = mobs.get(id).unwrap();
    let mut collisions: Vec<Collision> = Vec::new();
    move_bullets(&mut bullet, 1_250_000, &level, &grid, &mobs, &mut collisions);
    assert!(!bullet.is_alive);
    assert_eq!(collisions, vec![Collision::new_with_bullet(MobId::Mob(0), MagicColor::White)]);
    let at_player = mobs.new_bullet(
        WorldPos::new(9 * F + F / 2, F / 2),
        WorldPos::new(0, F),
        MagicColor::Black,
    );
    let mut second = mobs.get(at_player).unwrap();
    move_bullets(&mut second, 250_000, &level, &grid, &mobs, &mut collisions);
    assert!(!second.is_alive);
    assert_eq!(collisions.len(), 2);
    assert_eq!(collisions[1], Collision::new_with_bullet(MobId::Player, MagicColor::Black));
}

#[test]
fn a_bullet_flies_through_a_corpse() {
    let level = open_level(32, 4);
    let mut grid = grid_for(&level);
    let mut mobs = Mobs::new();
    assert!(mobs.new_monster(at(6, 1), &mut grid, MagicColor::Black));
    let mut corpse = mobs.get(0).unwrap();
    corpse.is_alive = false;
    mobs.replace(0, corpse);
    assert!(!mobs.is_living_at(at(6, 1), &grid));
    let id = mobs.new_bullet(WorldPos::new(2 * F + F / 2, F + F / 2), WorldPos::new(F, 0), MagicColor::White);
    let mut bullet = mobs.get(id).unwrap();
    let mut collisions: Vec<Collision> = Vec::new();
    move_bullets(&mut bullet, 1_250_000, &level, &grid, &mobs, &mut collisions);
    assert_eq!(bullet.get_pos().cell(), at(6, 1));
    assert!(bullet.is_alive);
    assert!(collisions.is_empty());
}

#[test]
fn living_entities_are_told_from_the_dead() {
    let level = open_level(8, 4);
    let mut grid = grid_for(&level);
    let mut mobs = Mobs::new();
    let _player = PlayerPosition::new((4, 1), &mut grid);
    assert!(mobs.new_monster(at(2, 1), &mut grid, MagicColor::Black));
    assert!(mobs.is_living_at(at(2, 1), &grid));
    assert!(mobs.is_living_at(at(10, 1), &grid));
    assert!(!mobs.is_living_at(at(4, 1), &grid));
    assert!(!mobs.is_living_at(at(3, 1), &grid));
    assert!(!mobs.is_living_at(at(2, 4), &grid));
    let mut corpse = mobs.get(0).unwrap();
    corpse.is_alive = false;
    mobs.replace(0, corpse);
    assert!(!mobs.is_living_at(at(2, 1), &grid));
}

#[test]
fn a_coin_decides_between_moving_and_attacking() {
    assert_eq!(choose_action(true, true, true), (true, false));
    assert_eq!(choose_action(true, true, false), (false, true));
    assert_eq!(choose_action(true, false, false), (true, false));
    assert_eq!(choose_action(true, false, true), (true, false));
    assert_eq!(choose_action(false, true, true), (false, true));
    assert_eq!(choose_action(false, false, true), (false, false));
}

#[test]
fn free_rooms_are_listed_left_right_below_above() {
    let level = with_wall(open_level(8, 4), 3, 1);
    let mut grid = grid_for(&level);
    let mut mobs = Mobs::new();
    assert_eq!(free_rooms(at(5, 1), &level, &grid), vec![at(4, 1), at(6, 1), at(5, 2), at(5, 0)]);
    assert_eq!(free_rooms(at(4, 1), &level, &grid), vec![at(5, 1), at(4, 2), at(4, 0)]);
    assert_eq!(free_rooms(at(0, 0), &level, &grid), vec![at(-1, 0), at(1, 0), at(0, 1)]);
    assert_eq!(free_rooms(at(0, 3), &level, &grid), vec![at(-1, 3), at(1, 3), at(0, 2)]);
    assert!(mobs.new_monster(at(5, 2), &mut grid, MagicColor::White));
    let _player = PlayerPosition::new((6, 1), &mut grid);
    // neither a monster's cell nor the player's is free
    assert_eq!(free_rooms(at(5, 1), &level, &grid), vec![at(4, 1), at(5, 0)]);
    assert!(!is_free_room(at(6, 1), &level, &grid));
    assert!(!is_free_room(at(5, 2), &level, &grid));
    assert!(!is_free_room(at(3, 1), &level, &grid));
    assert!(is_free_room(at(4, 1), &level, &grid));
}

#[test]
fn relocating_a_monster_moves_its_mark() {
    let level = open_level(8, 4);
    let mut grid = grid_for(&level);
    let mut mobs = Mobs::new();
    let player = PlayerPosition::new((7, 3), &mut grid);
    assert!(mobs.new_monster(at(0, 1), &mut grid, MagicColor::White));
    relocate_monster(&mut mobs, 0, at(-1, 1), &level, &mut grid, &player);
    let mob = mobs.get(0).unwrap();
    assert_eq!(mob.get_pos(), WorldPos::new(7 * F + F / 2, F + F / 2));
    assert_eq!(mob_at_cell(at(7, 1), &grid), MobId::Mob(0));
    assert_eq!(mob_at_cell(at(0, 1), &grid), MobId::NoMob);
    assert_eq!(grid.get_cells().iter().filter(|c| **c == MobId::Mob(0)).count(), 1);
    assert_eq!(grid.get_cells().iter().filter(|c| **c == MobId::Player).count(), 1);
    // two and a half cells from the corner of the player's cell: in a hurry
    assert_eq!(monster_state_of(&mob).last_move_time, MONSTER_MOVE_COOLDOWN / 2);
    relocate_monster(&mut mobs, 0, at(3, 0), &level, &mut grid, &player);
    // more than four cells away: not in a hurry
    assert_eq!(monster_state_of(&mobs.get(0).unwrap()).last_move_time, MONSTER_MOVE_COOLDOWN);
    assert_eq!(mob_at_cell(at(3, 0), &grid), MobId::Mob(0));
    assert_eq!(mob_at_cell(at(7, 1), &grid), MobId::NoMob);
    // two and a half cells across, half a cell up: in a hurry again
    relocate_monster(&mut mobs, 0, at(4, 2), &level, &mut grid, &player);
    assert_eq!(mobs.get(0).unwrap().get_pos(), WorldPos::new(4 * F + F / 2, 2 * F + F / 2));
    assert_eq!(monster_state_of(&mobs.get(0).unwrap()).last_move_time, MONSTER_MOVE_COOLDOWN / 2);
}

#[test]
fn cooling_a_monster_reports_what_it_may_do() {
    let level = open_level(8, 4);
    let mut grid = grid_for(&level);
    let mut mobs = Mobs::new();
    assert!(mobs.new_monster(at(0, 1), &mut grid, MagicColor::White));
    let flags = cool_monster(&mut mobs, 0, 4_000_000);
    assert!(flags.can_change_color);
    assert!(!flags.can_move);
    assert!(!flags.can_attack);
    let state = monster_state_of(&mobs.get(0).unwrap());
    assert_eq!(state.last_move_time, 2_000_000);
    assert_eq!(state.last_attack_time, 2_000_000);
    assert_eq!(state.last_color_change_time, 0);
    let flags = cool_monster(&mut mobs, 0, 2_000_000);
    assert!(flags.can_change_color && flags.can_move && flags.can_attack);
}
