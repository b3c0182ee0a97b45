use gridcaster::coords::GridCoord;
use gridcaster::grid2d::{Grid2D, GridCellType};
use gridcaster::level::Level;
use gridcaster::mob::{MagicColor, MobId, Mobs};
use gridcaster::player_movement::{
    can_climb_down, can_climb_up, can_stem, can_straddle_drop, has_ceiling, has_floor,
    is_room_occupiable, is_supported_position, is_wall, try_move, MoveDirection, PlayerPosition,
};

/// Builds a level from rows of text: '#' is a wall, anything else is open.
fn level_from(rows: &[&str]) -> Level {
    let height = rows.len();
    let width = rows[0].len();
    let mut level = Level::new(None, width, height);
    for (y, row) in rows.iter().enumerate() {
        for (x, c) in row.chars().enumerate() {
            if c == '#' {
                level
                    .grid
                    .set_cell_at_grid_coords_int(GridCoord::new(x as i32, y as i32), GridCellType::Wall);
            }
        }
    }
    level
}

fn empty_mob_grid(level: &Level) -> Grid2D<MobId> {
    let (w, h) = level.grid.get_size();
    Grid2D::new(w, h)
}

fn count_markers(grid: &Grid2D<MobId>) -> usize {
    grid.get_cells().iter().filter(|c| **c == MobId::Player).count()
}

fn at(x: i32, y: i32) -> GridCoord {
    GridCoord::new(x, y)
}

const SHAFT: [&str; 6] = [
    "#.....#",
    "#.#.#.#",
    "#.#.#.#",
    "#...#.#",
    "#.###.#",
    "#######",
];

#[test]
fn floors_and_ceilings() {
    let level = level_from(&SHAFT);
    assert_eq!(has_floor(at(1, 4), &level), Some(at(1, 5)));
    assert_eq!(has_floor(at(1, 3), &level), None);
    assert_eq!(has_floor(at(2, 3), &level), Some(at(2, 4)));
    // the bottom of the grid counts as a floor
    assert_eq!(has_floor(at(3, 5), &level), Some(at(3, 6)));
    assert_eq!(has_floor(at(3, 17), &level), Some(at(3, 18)));
    assert!(!has_ceiling(at(1, 2), &level));
    assert!(has_ceiling(at(2, 3), &level));
    // the top of the grid counts as a ceiling
    assert!(has_ceiling(at(1, 0), &level));
    assert!(!has_ceiling(at(1, 1), &level));
}

#[test]
fn walls_and_the_outside_are_solid() {
    let level = level_from(&SHAFT);
    assert!(is_wall(at(0, 0), &level));
    assert!(!is_wall(at(1, 0), &level));
    assert!(is_wall(at(7, 0), &level)); // wraps to column 0
    assert!(!is_wall(at(8, 0), &level));
    assert!(is_wall(at(1, -1), &level));
    assert!(is_wall(at(1, 6), &level));
}

#[test]
fn stemming_needs_walls_on_both_sides() {
    let level = level_from(&SHAFT);
    assert!(can_stem(at(1, 1), &level));
    assert!(can_stem(at(3, 2), &level));
    assert!(!can_stem(at(1, 3), &level));
    assert!(!can_stem(at(2, 0), &level));
    assert!(!can_stem(at(1, 0), &level));
    // column 5 braces against the wall across the seam
    assert!(can_stem(at(5, 3), &level));
}

#[test]
fn straddling_a_drop() {
    let level = level_from(&SHAFT);
    assert_eq!(can_straddle_drop(at(1, 4), &level), None);
    assert_eq!(can_straddle_drop(at(1, 0), &level), Some(true));
    assert_eq!(can_straddle_drop(at(1, 2), &level), Some(false));
    assert_eq!(can_straddle_drop(at(3, 2), &level), Some(false));
}

#[test]
fn supported_positions() {
    let level = level_from(&SHAFT);
    assert!(is_supported_position(at(1, 4), &level)); // floor
    assert!(is_supported_position(at(2, 0), &level)); // floor
    assert!(is_supported_position(at(1, 1), &level)); // braced
    assert!(is_supported_position(at(1, 0), &level)); // straddles a drop it can brace in
    assert!(is_supported_position(at(1, 3), &level)); // straddles the braced cell below
    assert!(is_supported_position(at(1, 2), &level)); // braced itself
    assert!(is_supported_position(at(3, 3), &level)); // floor
    let hall = level_from(&["#...#", "#...#", "#####"]);
    assert!(!is_supported_position(at(2, 0), &hall));
    assert!(!is_supported_position(at(1, 0), &hall));
    assert!(is_supported_position(at(2, 1), &hall));
}

#[test]
fn climbing_up_and_down() {
    let level = level_from(&SHAFT);
    assert!(can_climb_up(at(1, 2), &level));
    assert!(can_climb_up(at(1, 1), &level)); // up is supported by straddling
    assert!(!can_climb_up(at(1, 0), &level)); // ceiling
    assert!(!can_climb_up(at(2, 3), &level)); // wall above
    assert!(can_climb_up(at(1, 4), &level)); // (1, 3) straddles the drop
    let hall = level_from(&["#...#", "#...#", "#####"]);
    assert!(!can_climb_up(at(2, 1), &hall)); // nothing holds in (2, 0)
    assert!(can_climb_down(at(1, 0), &level));
    assert!(can_climb_down(at(1, 1), &level));
    assert!(!can_climb_down(at(1, 2), &level)); // cannot brace in (1, 3)
    assert!(!can_climb_down(at(1, 4), &level)); // floor
}

#[test]
fn occupiable_rooms() {
    let level = level_from(&SHAFT);
    let mut grid = empty_mob_grid(&level);
    let mut mobs = Mobs::new();
    assert!(mobs.new_monster(at(3, 0), &mut grid, MagicColor::White));
    let _player = PlayerPosition::new((1, 0), &mut grid);
    assert!(is_room_occupiable(at(2, 0), &grid));
    assert!(is_room_occupiable(at(1, 0), &grid));
    assert!(!is_room_occupiable(at(3, 0), &grid));
    assert!(!is_room_occupiable(at(2, -1), &grid));
    assert!(!is_room_occupiable(at(2, 6), &grid));
    assert!(is_room_occupiable(at(8, 0), &grid));
    assert!(!is_room_occupiable(at(10, 0), &grid));
}

#[test]
fn walking_depends_on_facing() {
    let level = level_from(&SHAFT);
    let grid = empty_mob_grid(&level);
    assert_eq!(
        try_move(at(2, 0), MoveDirection::WalkForward, 1, &level, &grid),
        Some(at(1, 0))
    );
    assert_eq!(
        try_move(at(2, 0), MoveDirection::WalkBackward, 1, &level, &grid),
        Some(at(3, 0))
    );
    assert_eq!(
        try_move(at(2, 0), MoveDirection::WalkForward, -1, &level, &grid),
        Some(at(3, 0))
    );
    assert_eq!(
        try_move(at(2, 0), MoveDirection::WalkBackward, -1, &level, &grid),
        Some(at(1, 0))
    );
    // walls stop a walk
    assert_eq!(try_move(at(1, 0), MoveDirection::WalkForward, 1, &level, &grid), None);
    assert_eq!(try_move(at(5, 0), MoveDirection::WalkBackward, 1, &level, &grid), None);
}

#[test]
fn walking_is_stopped_by_monsters() {
    let level = level_from(&SHAFT);
    let mut grid = empty_mob_grid(&level);
    let mut mobs = Mobs::new();
    assert!(mobs.new_monster(at(3, 0), &mut grid, MagicColor::Black));
    assert_eq!(try_move(at(2, 0), MoveDirection::WalkBackward, 1, &level, &grid), None);
    assert_eq!(
        try_move(at(2, 0), MoveDirection::WalkForward, 1, &level, &grid),
        Some(at(1, 0))
    );
}

#[test]
fn climbing_moves() {
    let level = level_from(&SHAFT);
    let mut grid = empty_mob_grid(&level);
    assert_eq!(try_move(at(1, 2), MoveDirection::ClimbUp, 1, &level, &grid), Some(at(1, 1)));
    assert_eq!(try_move(at(1, 0), MoveDirection::ClimbUp, 1, &level, &grid), None);
    assert_eq!(try_move(at(1, 4), MoveDirection::ClimbUp, 1, &level, &grid), Some(at(1, 3)));
    assert_eq!(try_move(at(2, 3), MoveDirection::ClimbUp, 1, &level, &grid), None);
    assert_eq!(try_move(at(1, 0), MoveDirection::ClimbDown, 1, &level, &grid), Some(at(1, 1)));
    // without a floor a climb down always succeeds, bracing or not
    assert_eq!(try_move(at(1, 2), MoveDirection::ClimbDown, 1, &level, &grid), Some(at(1, 3)));
    assert_eq!(try_move(at(1, 4), MoveDirection::ClimbDown, 1, &level, &grid), None);
    let mut mobs = Mobs::new();
    assert!(mobs.new_monster(at(1, 1), &mut grid, MagicColor::White));
    assert_eq!(try_move(at(1, 2), MoveDirection::ClimbUp, 1, &level, &grid), None);
    assert_eq!(try_move(at(1, 0), MoveDirection::ClimbDown, 1, &level, &grid), None);
}

#[test]
fn try_move_changes_nothing() {
    let level = level_from(&SHAFT);
    let mut grid = empty_mob_grid(&level);
    let _player = PlayerPosition::new((2, 0), &mut grid);
    let before: Vec<MobId> = grid.get_cells().clone();
    let walls: Vec<GridCellType> = level.grid.get_cells().clone();
    let _ = try_move(at(2, 0), MoveDirection::WalkForward, 1, &level, &grid);
    let _ = try_move(at(2, 0), MoveDirection::ClimbDown, 1, &level, &grid);
    assert_eq!(*grid.get_cells(), before);
    assert_eq!(*level.grid.get_cells(), walls);
}

#[test]
fn player_position_places_the_marker() {
    let level = level_from(&SHAFT);
    let mut grid = empty_mob_grid(&level);
    let player = PlayerPosition::new((2, 0), &mut grid);
    assert_eq!(player.get_pos(), at(2, 0));
    assert_eq!(player.get_pos_ituple(), (2, 0));
    assert_eq!(count_markers(&grid), 1);
    assert_eq!(grid.get_cell_at_grid_coords_int(at(2, 0)), Some(&MobId::Player));
}

#[test]
fn set_pos_moves_marker_and_position_together() {
    let level = level_from(&SHAFT);
    let mut grid = empty_mob_grid(&level);
    let mut player = PlayerPosition::new((2, 0), &mut grid);
    assert_eq!(player.set_pos(at(3, 0), &mut grid), Ok(()));
    assert_eq!(player.get_pos(), at(3, 0));
    assert_eq!(count_markers(&grid), 1);
    assert_eq!(grid.get_cell_at_grid_coords_int(at(3, 0)), Some(&MobId::Player));
    assert_eq!(grid.get_cell_at_grid_coords_int(at(2, 0)), Some(&MobId::NoMob));
    // staying put is a move too
    assert_eq!(player.set_pos(at(3, 0), &mut grid), Ok(()));
    assert_eq!(count_markers(&grid), 1);
}

#[test]
fn set_pos_fails_on_an_occupied_cell() {
    let level = level_from(&SHAFT);
    let mut grid = empty_mob_grid(&level);
    let mut mobs = Mobs::new();
    assert!(mobs.new_monster(at(3, 0), &mut grid, MagicColor::White));
    let mut player = PlayerPosition::new((2, 0), &mut grid);
    let before: Vec<MobId> = grid.get_cells().clone();
    assert_eq!(player.try_set_pos(at(3, 0), &grid), Err(MobId::Mob(0)));
    assert_eq!(player.set_pos(at(3, 0), &mut grid), Err(MobId::Mob(0)));
    assert_eq!(player.get_pos(), at(2, 0));
    assert_eq!(*grid.get_cells(), before);
    assert_eq!(count_markers(&grid), 1);
}

#[test]
fn set_pos_fails_outside_the_grid() {
    let level = level_from(&SHAFT);
    let mut grid = empty_mob_grid(&level);
    let mut player = PlayerPosition::new((2, 0), &mut grid);
    assert_eq!(player.try_set_pos(at(2, -1), &grid), Err(MobId::NoMob));
    assert_eq!(player.set_pos(at(2, 6), &mut grid), Err(MobId::NoMob));
    assert_eq!(player.get_pos(), at(2, 0));
    assert_eq!(count_markers(&grid), 1);
}

#[test]
fn marker_stays_unique_over_many_moves() {
    let level = level_from(&SHAFT);
    let mut grid = empty_mob_grid(&level);
    let mut mobs = Mobs::new();
    assert!(mobs.new_monster(at(5, 0), &mut grid, MagicColor::White));
    let mut player = PlayerPosition::new((1, 0), &mut grid);
    let moves = [
        MoveDirection::WalkBackward,
        MoveDirection::WalkBackward,
        MoveDirection::WalkBackward,
        MoveDirection::WalkBackward,
        MoveDirection::WalkForward,
        MoveDirection::ClimbDown,
        MoveDirection::ClimbDown,
        MoveDirection::ClimbDown,
        MoveDirection::ClimbDown,
        MoveDirection::ClimbUp,
        MoveDirection::WalkForward,
    ];
    for dir in moves {
        if let Some(target) = try_move(player.get_pos(), dir, 1, &level, &grid) {
            assert_eq!(player.set_pos(target, &mut grid), Ok(()));
        }
        assert_eq!(count_markers(&grid), 1);
        assert_eq!(grid.get_cell_at_grid_coords_int(player.get_pos()), Some(&MobId::Player));
        let monsters = grid.get_cells().iter().filter(|c| **c == MobId::Mob(0)).count();
        assert_eq!(monsters, 1);
    }
    assert_eq!(player.get_pos(), at(3, 2));
}
