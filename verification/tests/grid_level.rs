use gridcaster::coords::{floor_div, isqrt, normalize, wrap_i64, GridCoord, WorldPos, SUBCELLS};
use gridcaster::grid2d::{Grid2D, GridCellType, RayGridCell};
use gridcaster::physics::{wrap_double_norm, wrap_double_range};
use gridcaster::level::{
    apply_boundary_conditions_i32, apply_boundary_conditions_world, ucoords_to_icoords,
    world_space_centered_coord, Level, PlayerMap,
};

fn numbered_grid(width: usize, height: usize) -> Grid2D<u32> {
    let mut cells: Vec<u32> = Vec::new();
    for i in 0..(width * height) {
        cells.push(i as u32);
    }
    Grid2D::from_cells(width, height, cells).unwrap()
}

#[test]
fn new_grid_is_empty_everywhere() {
    let grid: Grid2D<GridCellType> = Grid2D::new(4, 3);
    assert_eq!(grid.get_size(), (4, 3));
    assert_eq!(grid.get_cells().len(), 12);
    for y in 0..3 {
        for x in 0..4 {
            assert_eq!(
                grid.get_cell_at_grid_coords_int(GridCoord::new(x, y)),
                Some(&GridCellType::Empty)
            );
        }
    }
}

#[test]
fn default_cells_are_empty() {
    assert_eq!(GridCellType::default(), GridCellType::Empty);
    assert_eq!(RayGridCell::default().cell_type, GridCellType::Empty);
}

#[test]
fn grid_is_row_major() {
    let grid = numbered_grid(5, 4);
    assert_eq!(grid.get_cell_at_grid_coords_int(GridCoord::new(0, 0)), Some(&0));
    assert_eq!(grid.get_cell_at_grid_coords_int(GridCoord::new(4, 0)), Some(&4));
    assert_eq!(grid.get_cell_at_grid_coords_int(GridCoord::new(0, 1)), Some(&5));
    assert_eq!(grid.get_cell_at_grid_coords_int(GridCoord::new(3, 2)), Some(&13));
    assert_eq!(grid.get_cell_at_grid_coords_int(GridCoord::new(4, 3)), Some(&19));
}

#[test]
fn grid_wraps_horizontally() {
    let grid = numbered_grid(5, 4);
    for y in 0..4 {
        for x in -23..23 {
            let here = grid.get_cell_at_grid_coords_int(GridCoord::new(x, y));
            assert_eq!(here, grid.get_cell_at_grid_coords_int(GridCoord::new(x + 5, y)));
            assert_eq!(here, grid.get_cell_at_grid_coords_int(GridCoord::new(x - 5, y)));
            assert!(here.is_some());
        }
    }
    assert_eq!(grid.get_cell_at_grid_coords_int(GridCoord::new(-1, 0)), Some(&4));
    assert_eq!(grid.get_cell_at_grid_coords_int(GridCoord::new(-5, 2)), Some(&10));
    assert_eq!(grid.get_cell_at_grid_coords_int(GridCoord::new(-6, 2)), Some(&14));
    assert_eq!(grid.get_cell_at_grid_coords_int(GridCoord::new(5, 1)), Some(&5));
    assert_eq!(grid.get_cell_at_grid_coords_int(GridCoord::new(i32::MIN, 0)), Some(&2));
    assert_eq!(grid.get_cell_at_grid_coords_int(GridCoord::new(i32::MAX, 0)), Some(&2));
}

#[test]
fn grid_clamps_rows() {
    let grid = numbered_grid(5, 4);
    // above the first row a read gives the first row, below the last the last
    assert_eq!(grid.get_cell_at_grid_coords_int(GridCoord::new(0, -1)), Some(&0));
    assert_eq!(grid.get_cell_at_grid_coords_int(GridCoord::new(0, 4)), Some(&15));
    assert_eq!(grid.get_cell_at_grid_coords_int(GridCoord::new(2, i32::MIN)), Some(&2));
    assert_eq!(grid.get_cell_at_grid_coords_int(GridCoord::new(2, i32::MAX)), Some(&17));
    for x in -7..7 {
        for y in 4..9 {
            assert_eq!(
                grid.get_cell_at_grid_coords_int(GridCoord::new(x, y)),
                grid.get_cell_at_grid_coords_int(GridCoord::new(x, 3))
            );
            assert_eq!(
                grid.get_cell_at_grid_coords_int(GridCoord::new(x, -y)),
                grid.get_cell_at_grid_coords_int(GridCoord::new(x, 0))
            );
        }
    }
}

#[test]
fn a_wall_in_the_first_row_is_read_from_above() {
    let mut grid: Grid2D<GridCellType> = Grid2D::new(4, 2);
    grid.zero();
    grid.set_cell_at_grid_coords_int(GridCoord::new(2, 0), GridCellType::Wall);
    assert_eq!(grid.get_cell_at_grid_coords_int(GridCoord::new(2, -1)), Some(&GridCellType::Wall));
    assert_eq!(grid.get_cell_at_grid_coords_int(GridCoord::new(2, 1)), Some(&GridCellType::Empty));
    assert_eq!(grid.get_cell_at_grid_coords_int(GridCoord::new(2, 2)), Some(&GridCellType::Empty));
    assert_eq!(grid.get_cell_at_grid_coords_int(GridCoord::new(1, -1)), Some(&GridCellType::Empty));
}

#[test]
fn grid_has_nothing_outside_its_rows() {
    let grid = numbered_grid(5, 4);
    assert!(grid.has_row(0) && grid.has_row(3));
    assert!(!grid.has_row(-1) && !grid.has_row(4) && !grid.has_row(i32::MIN) && !grid.has_row(i32::MAX));
    assert_eq!(grid.get_in_rows(GridCoord::new(0, -1)), None);
    assert_eq!(grid.get_in_rows(GridCoord::new(0, 4)), None);
    assert_eq!(grid.get_in_rows(GridCoord::new(2, i32::MIN)), None);
    assert_eq!(grid.get_in_rows(GridCoord::new(2, i32::MAX)), None);
    assert_eq!(grid.get_in_rows(GridCoord::new(-1, 3)), Some(&19));
    assert_eq!(grid.get_in_rows(GridCoord::new(6, 0)), Some(&1));
}

#[test]
fn lookup_after_boundary_conditions_clamps_rows() {
    let grid = numbered_grid(5, 4);
    let size = grid.get_size();
    let above = apply_boundary_conditions_i32(GridCoord::new(7, -3), size);
    assert_eq!(above, GridCoord::new(2, 0));
    assert_eq!(grid.get_cell_at_grid_coords_int(above), Some(&2));
    let below = apply_boundary_conditions_i32(GridCoord::new(-1, 9), size);
    assert_eq!(below, GridCoord::new(4, 3));
    assert_eq!(grid.get_cell_at_grid_coords_int(below), Some(&19));
    let inside = apply_boundary_conditions_i32(GridCoord::new(3, 2), size);
    assert_eq!(inside, GridCoord::new(3, 2));
}

#[test]
fn boundary_conditions_wrap_a_full_turn_to_zero() {
    assert_eq!(apply_boundary_conditions_i32(GridCoord::new(-16, 5), (16, 64)), GridCoord::new(0, 5));
    assert_eq!(apply_boundary_conditions_i32(GridCoord::new(16, 5), (16, 64)), GridCoord::new(0, 5));
    assert_eq!(apply_boundary_conditions_i32(GridCoord::new(-1, 64), (16, 64)), GridCoord::new(15, 63));
    assert_eq!(apply_boundary_conditions_i32(GridCoord::new(-17, -1), (16, 64)), GridCoord::new(15, 0));
}

#[test]
fn world_boundary_conditions_wrap_and_clamp() {
    let f = SUBCELLS;
    let size = (16usize, 64usize);
    assert_eq!(
        apply_boundary_conditions_world(WorldPos::new(-f / 2, 3 * f), size),
        WorldPos::new(16 * f - f / 2, 3 * f)
    );
    assert_eq!(
        apply_boundary_conditions_world(WorldPos::new(16 * f, 3 * f), size),
        WorldPos::new(0, 3 * f)
    );
    assert_eq!(
        apply_boundary_conditions_world(WorldPos::new(35 * f + 7, -1), size),
        WorldPos::new(3 * f + 7, 0)
    );
    assert_eq!(
        apply_boundary_conditions_world(WorldPos::new(5, 70 * f), size),
        WorldPos::new(5, 64 * f)
    );
    assert_eq!(
        apply_boundary_conditions_world(WorldPos::new(5, 64 * f), size),
        WorldPos::new(5, 64 * f)
    );
}

#[test]
fn set_cell_writes_the_wrapped_cell() {
    let mut grid = numbered_grid(5, 4);
    assert_eq!(grid.set_cell_at_grid_coords_int(GridCoord::new(-1, 1), 77), Some(()));
    assert_eq!(grid.get_cell_at_grid_coords_int(GridCoord::new(4, 1)), Some(&77));
    assert_eq!(grid.get_cells()[9], 77);
    assert_eq!(grid.set_cell_at_grid_coords_int(GridCoord::new(7, 3), 88), Some(()));
    assert_eq!(grid.get_cells()[17], 88);
    assert_eq!(grid.set_in_rows(GridCoord::new(0, 4), 99), None);
    assert_eq!(grid.set_in_rows(GridCoord::new(0, -1), 99), None);
    assert_eq!(grid.set_in_rows(GridCoord::new(-2, 2), 66), Some(()));
    let changed: Vec<usize> = (0..20).filter(|&i| grid.get_cells()[i] != i as u32).collect();
    assert_eq!(changed, vec![9, 13, 17]);
}

#[test]
fn set_cell_writes_where_a_read_reads() {
    let mut grid = numbered_grid(5, 4);
    assert_eq!(grid.set_cell_at_grid_coords_int(GridCoord::new(1, 4), 99), Some(()));
    assert_eq!(grid.get_cell_at_grid_coords_int(GridCoord::new(1, 4)), Some(&99));
    assert_eq!(grid.get_cells()[16], 99);
    assert_eq!(grid.set_cell_at_grid_coords_int(GridCoord::new(-1, -7), 55), Some(()));
    assert_eq!(grid.get_cell_at_grid_coords_int(GridCoord::new(-1, -7)), Some(&55));
    assert_eq!(grid.get_cells()[4], 55);
    let changed: Vec<usize> = (0..20).filter(|&i| grid.get_cells()[i] != i as u32).collect();
    assert_eq!(changed, vec![4, 16]);
}

#[test]
fn zero_resets_every_cell() {
    let mut grid: Grid2D<GridCellType> = Grid2D::new(3, 2);
    grid.set_cell_at_grid_coords_int(GridCoord::new(1, 1), GridCellType::Wall);
    assert_eq!(grid.get_cells()[4], GridCellType::Wall);
    grid.zero();
    assert_eq!(grid.get_size(), (3, 2));
    assert!(grid.get_cells().iter().all(|c| *c == GridCellType::Empty));
    assert_eq!(grid.get_cells().len(), 6);
}

#[test]
fn from_cells_checks_the_dimensions() {
    assert!(Grid2D::from_cells(2, 2, vec![1u8, 2, 3, 4]).is_some());
    assert!(Grid2D::from_cells(2, 2, vec![1u8, 2, 3]).is_none());
    assert!(Grid2D::from_cells(0, 2, Vec::<u8>::new()).is_none());
    assert!(Grid2D::from_cells(2, 0, Vec::<u8>::new()).is_none());
    assert!(Grid2D::from_cells(usize::MAX, 2, vec![1u8]).is_none());
}

#[test]
fn unsigned_coordinates_convert() {
    assert_eq!(ucoords_to_icoords((8, 8)), (8, 8));
    assert_eq!(ucoords_to_icoords((0, 63)), (0, 63));
    assert_eq!(ucoords_to_icoords((2147483647, 1)), (2147483647, 1));
}

#[test]
fn centred_coordinates_are_cell_centres() {
    let f = SUBCELLS;
    assert_eq!(world_space_centered_coord((8, 8), 0, 0), WorldPos::new(8 * f + f / 2, 8 * f + f / 2));
    assert_eq!(
        world_space_centered_coord((4, 0), 0, 6554),
        WorldPos::new(4 * f + f / 2, f / 2 + 6554)
    );
    assert_eq!(WorldPos::center_of(GridCoord::new(-1, 2)), WorldPos::new(-f / 2, 2 * f + f / 2));
    assert_eq!(WorldPos::center_of(GridCoord::new(3, 7)).cell(), GridCoord::new(3, 7));
    assert_eq!(WorldPos::new(-1, 0).cell(), GridCoord::new(-1, 0));
    assert_eq!(WorldPos::new(f - 1, f).cell(), GridCoord::new(0, 1));
}

#[test]
fn new_level_has_the_documented_defaults() {
    let level = Level::new(Some("level.json"), 16, 64);
    assert_eq!(level.player_start, (8, 8));
    assert_eq!(level.win_room, (4, 0));
    assert_eq!(level.grid.get_size(), (16, 64));
    assert!(level.grid.get_cells().iter().all(|c| *c == GridCellType::Empty));
    assert!(level.mob_list.is_empty());
    assert!(level.flavor_sprites.is_none());
    assert_eq!(level.filename, Some("level.json".to_string()));
    let unnamed = Level::new(None, 33, 1);
    assert_eq!(unnamed.filename, None);
    assert_eq!(unnamed.win_room, (8, 0));
}

#[test]
fn player_map_marks_visited_cells() {
    let mut map = PlayerMap::new((4, 3));
    assert!(map.get_grid().get_cells().iter().all(|c| *c == GridCellType::Empty));
    map.add_marker(GridCoord::new(1, 2));
    map.add_marker(GridCoord::new(-1, 0));
    map.add_marker(GridCoord::new(0, 3));
    let marked: Vec<usize> = (0..12)
        .filter(|&i| map.get_grid().get_cells()[i] == GridCellType::Wall)
        .collect();
    assert_eq!(marked, vec![3, 9]);
}

#[test]
fn floored_division_and_remainder() {
    assert_eq!(floor_div(7, 2), 3);
    assert_eq!(floor_div(-7, 2), -4);
    assert_eq!(floor_div(-8, 2), -4);
    assert_eq!(floor_div(0, 5), 0);
    assert_eq!(floor_div(i64::MIN, 1), i64::MIN);
    assert_eq!(wrap_i64(7, 5), 2);
    assert_eq!(wrap_i64(-7, 5), 3);
    assert_eq!(wrap_i64(-5, 5), 0);
    assert_eq!(wrap_i64(i64::MIN, 7), (i64::MIN).rem_euclid(7));
    assert_eq!(wrap_i64(i64::MAX, 7), (i64::MAX).rem_euclid(7));
}

#[test]
fn wrapping_a_fraction_into_one_cell() {
    let f = SUBCELLS;
    assert_eq!(wrap_i64(0, f), 0);
    assert_eq!(wrap_i64(f, f), 0);
    assert_eq!(wrap_i64(6 * f + f / 2, f), f / 2);
    assert_eq!(wrap_i64(-(6 * f + 26214), f), f - 26214);
}

#[test]
fn integer_square_roots() {
    assert_eq!(isqrt(0), 0);
    assert_eq!(isqrt(1), 1);
    assert_eq!(isqrt(3), 1);
    assert_eq!(isqrt(4), 2);
    assert_eq!(isqrt(99), 9);
    assert_eq!(isqrt(100), 10);
    assert_eq!(isqrt(0x3fff_ffff_ffff_ffff), 2147483647);
    for s in 0..2000u64 {
        let r = isqrt(s);
        assert!(r * r <= s && s < (r + 1) * (r + 1));
    }
}

#[test]
fn normalized_vectors_have_unit_length() {
    let f = SUBCELLS;
    assert_eq!(normalize(WorldPos::new(5, 0)), WorldPos::new(f, 0));
    assert_eq!(normalize(WorldPos::new(0, -123456)), WorldPos::new(0, -f));
    assert_eq!(normalize(WorldPos::new(3 * f, 4 * f)), WorldPos::new(39321, 52428));
    assert_eq!(normalize(WorldPos::new(-3 * f, 4 * f)), WorldPos::new(-39322, 52428));
    let diagonal = normalize(WorldPos::new(1000, 1000));
    assert_eq!(diagonal.x, diagonal.y);
    let len2 = (diagonal.x * diagonal.x * 2) as f64;
    assert!((len2.sqrt() - f as f64).abs() < 100.0);
}

fn units(v: f64) -> i64 {
    (v * SUBCELLS as f64).round() as i64
}

#[test]
fn test_wrap_double() {
    assert_eq!(wrap_double_norm(units(0.0)), units(0.0));
    assert_eq!(wrap_double_norm(units(1.0)), units(0.0));
    assert_eq!(wrap_double_norm(units(6.5)), units(0.5));
    assert_eq!(wrap_double_norm(units(-6.4)), units(0.6));
}

#[test]
fn wrapping_into_a_range() {
    assert_eq!(wrap_double_range(17, 5), 2);
    assert_eq!(wrap_double_range(0, 5), 0);
    assert_eq!(wrap_double_range(5, 5), 0);
    assert_eq!(wrap_double_range(-2, 5), 3);
    assert_eq!(wrap_double_range(-7, 5), 3);
    // a negative multiple of the range ends up at the end of the range
    assert_eq!(wrap_double_range(-5, 5), 5);
    assert_eq!(wrap_double_range(-10, 5), 5);
    assert_eq!(wrap_double_norm(-SUBCELLS), SUBCELLS);
    assert_eq!(wrap_double_range(i64::MIN, 7), 7 - (i64::MIN as i128).unsigned_abs().rem_euclid(7) as i64);
    assert_eq!(wrap_double_range(i64::MAX, 7), i64::MAX % 7);
    assert_eq!(wrap_double_range(i64::MIN, i64::MAX), i64::MAX - 1);
}
