//! What entities do in a frame: bullets fly and hit, monsters cool down,
//! move, change colour and shoot.

use rand::Rng;
use vstd::prelude::*;
use crate::combat::{same_color, Collision, CollisionType};
use crate::coords::{
    lemma_scaled_bound, normalize, unit_toward, GridCoord, WorldPos, SUBCELLS,
};
use crate::grid2d::Grid2D;
use crate::level::{apply_boundary_conditions_world, boundary_point, Level};
use crate::mob::{
    cooled, mob_at_cell, SPAWN_LIMIT, Flight, MagicColor, MobData, MobId, MobType, Mobs, MonsterState,
    MONSTER_ATTACK_COOLDOWN, MONSTER_COLOR_CHANGE_COOLDOWN, MONSTER_MOVE_COOLDOWN,
};
use crate::player_movement::{is_wall, PlayerPosition};
use crate::raycaster::RAY_LIMIT;
use crate::sight::{
    center, corner, dist2, lemma_square_bound, line_of_sight_across, SIGHT_WORLD_HEIGHT,
    SIGHT_WORLD_WIDTH,
};
use crate::player_state::progress_after;

verus! {

/// What a tick does to a bullet, and the collision that it causes, if any.
///
/// A bullet that is on no flight dies. Else the flight goes on for the time
/// of the tick, and the bullet is looked for at the point where that leaves
/// it, as the boundary conditions of the world place it. If the player or
/// a living entity stands in the cell there, the bullet hits: it dies, and
/// the collision is reported. If the cell is solid or the flight is over, the bullet dies
/// too, and its flight ends. Else it moves to the point.
pub open spec fn bullet_tick(
    bullet: MobData,
    frame_time: u64,
    level: &Level,
    mob_grid: &Grid2D<MobId>,
    mobs: &Mobs,
) -> (MobData, Option<Collision>) {
    match bullet.moving {
        None => (MobData { is_alive: false, ..bullet }, None),
        Some(flight) => {
            let elapsed = progress_after(flight.elapsed, frame_time, flight.duration);
            let new_pos = boundary_point(
                flight.point_at(elapsed),
                (level.grid.width() as usize, level.grid.height() as usize),
            );
            let cell = new_pos.cell_spec();
            let occupant = match mob_grid.lookup(cell.x as int, cell.y as int) {
                Some(occupant) => occupant,
                None => MobId::NoMob,
            };
            let hit = occupant == MobId::Player || mobs.living_at(mob_grid, cell);
            let collision = if hit {
                Some(Collision { collision_type: CollisionType::Bullet(occupant, bullet.color) })
            } else {
                None
            };
            if elapsed == flight.duration || level.solid_at(cell.x as int, cell.y as int) {
                (MobData { is_alive: false, moving: None, ..bullet }, collision)
            } else {
                (
                    MobData {
                        is_alive: bullet.is_alive && !hit,
                        moving: Some(Flight { elapsed, ..flight }),
                        pos: new_pos,
                        ..bullet
                    },
                    collision,
                )
            }
        },
    }
}

/// One tick of a bullet. See `bullet_tick`; the collision, if there is one,
/// is added to `collisions`.
pub fn move_bullets(
    bullet: &mut MobData,
    last_frame_time: u64,
    world: &Level,
    mob_grid: &Grid2D<MobId>,
    mobs: &Mobs,
    collisions: &mut Vec<Collision>,
)
    requires
        old(bullet).wf(),
        world.grid.wf(),
        mob_grid.wf(),
    ensures
        *final(bullet) == bullet_tick(*old(bullet), last_frame_time, world, mob_grid, mobs).0,
        final(collisions)@ == (match bullet_tick(
            *old(bullet),
            last_frame_time,
            world,
            mob_grid,
            mobs,
        ).1 {
            Some(c) => old(collisions)@.push(c),
            None => old(collisions)@,
        }),
        final(bullet).wf(),
        final(bullet).mob_type == old(bullet).mob_type,
{
    match bullet.moving {
        None => {
            bullet.is_alive = false;
        },
        Some(flight) => {
            let room: u64 = flight.duration - flight.elapsed;
            let elapsed: u64 = if last_frame_time >= room {
                flight.duration
            } else {
                flight.elapsed + last_frame_time
            };
            let new_pos = apply_boundary_conditions_world(
                flight.position_at(elapsed),
                world.grid.get_size(),
            );
            let cell = new_pos.cell();
            let mob_hit_by_bullet = mob_at_cell(cell, mob_grid);
            let hit: bool = match mob_hit_by_bullet {
                MobId::NoMob => false,
                MobId::Mob(_) => mobs.is_living_at(cell, mob_grid),
                MobId::Player => true,
            };
            if hit {
                bullet.is_alive = false;
                collisions.push(Collision::new_with_bullet(mob_hit_by_bullet, bullet.get_color()));
            }
            let hit_wall: bool = is_wall(cell, world);
            if elapsed >= flight.duration || hit_wall {
                bullet.is_alive = false;
                bullet.moving = None;
            } else {
                bullet.moving = Some(Flight { elapsed, ..flight });
                bullet.pos = new_pos;
            }
        },
    }
}

/// A fair coin. This is `rand::random::<bool>()`, which draws from the
/// generator of the thread; nothing is claimed of the outcome.
#[verifier::external_body]
fn coin_flip() -> (heads: bool) {
    rand::random()
}

/// An index below `len`, drawn with `gen_range(0..len)` of `rand::Rng` from
/// `rand::thread_rng()`. The call panics on an empty range, which the
/// precondition excludes; the claim is that the index is in the range, as
/// the documentation of `gen_range` says.
#[verifier::external_body]
fn pick_index(len: usize) -> (i: usize)
    requires
        len > 0,
    ensures
        i < len,
{
    rand::thread_rng().gen_range(0..len)
}

/// What a monster may do in a tick.
#[derive(Clone, Copy, PartialEq, Eq, Structural, Debug)]
pub struct MonsterFlags {
    pub can_attack: bool,
    pub can_change_color: bool,
    pub can_move: bool,
}

/// A bullet that a monster wants to shoot: from where, which way (a vector
/// of length `SUBCELLS`), and of what colour.
#[derive(Clone, Copy, PartialEq, Eq, Structural, Debug)]
pub struct Shot {
    pub pos: WorldPos,
    pub dir: WorldPos,
    pub color: MagicColor,
}

/// A monster that could both move and attack does one of the two, as the
/// coin says: heads it moves, tails it attacks. Returns whether it moves
/// and whether it attacks.
pub fn choose_action(can_move: bool, can_attack: bool, coin: bool) -> (r: (bool, bool))
    ensures
        r == (if can_move && can_attack {
            (coin, !coin)
        } else {
            (can_move, can_attack)
        }),
        !(r.0 && r.1),
{
    if can_move && can_attack {
        (coin, !coin)
    } else {
        (can_move, can_attack)
    }
}

/// A monster can move into the cell at `pos`: the cell is on the grid, not
/// solid and nobody stands in it.
pub open spec fn room_free(pos: GridCoord, level: &Level, mob_grid: &Grid2D<MobId>) -> bool {
    mob_grid.lookup(pos.x as int, pos.y as int) == Some(MobId::NoMob) && !level.solid_at(
        pos.x as int,
        pos.y as int,
    )
}

/// The cell, if a monster can move into it.
pub open spec fn room_if_free(pos: GridCoord, level: &Level, mob_grid: &Grid2D<MobId>) -> Seq<GridCoord> {
    if room_free(pos, level, mob_grid) {
        seq![pos]
    } else {
        Seq::empty()
    }
}

/// The rooms that a monster in the cell at `pos` can move to: those of the
/// four neighbours, left, right, below and above in this order, that are
/// free.
pub open spec fn rooms_around(pos: GridCoord, level: &Level, mob_grid: &Grid2D<MobId>) -> Seq<GridCoord> {
    room_if_free(pos.shifted(-1, 0), level, mob_grid) + room_if_free(
        pos.shifted(1, 0),
        level,
        mob_grid,
    ) + room_if_free(pos.shifted(0, 1), level, mob_grid) + room_if_free(
        pos.shifted(0, -1),
        level,
        mob_grid,
    )
}

/// The rooms that a monster in the cell at `pos` can move to.
pub fn free_rooms(pos: GridCoord, level: &Level, mob_grid: &Grid2D<MobId>) -> (rooms: Vec<GridCoord>)
    requires
        level.grid.wf(),
        mob_grid.wf(),
        pos.has_neighbors(),
    ensures
        rooms@ == rooms_around(pos, level, mob_grid),
        forall|i: int| 0 <= i < rooms@.len() ==> room_free(#[trigger] rooms@[i], level, mob_grid),
        rooms@.len() <= 4,
{
    let mut rooms: Vec<GridCoord> = Vec::new();
    let left = pos.offset(-1, 0);
    if is_free_room(left, level, mob_grid) {
        rooms.push(left);
    }
    let right = pos.offset(1, 0);
    if is_free_room(right, level, mob_grid) {
        rooms.push(right);
    }
    let below = pos.offset(0, 1);
    if is_free_room(below, level, mob_grid) {
        rooms.push(below);
    }
    let above = pos.offset(0, -1);
    if is_free_room(above, level, mob_grid) {
        rooms.push(above);
    }
    proof {
        assert(rooms@ =~= rooms_around(pos, level, mob_grid));
    }
    rooms
}

/// Whether a monster can move into the cell at `pos`.
pub fn is_free_room(pos: GridCoord, level: &Level, mob_grid: &Grid2D<MobId>) -> (free: bool)
    requires
        level.grid.wf(),
        mob_grid.wf(),
    ensures
        free <==> room_free(pos, level, mob_grid),
{
    let nobody: bool = match mob_grid.get_in_rows(pos) {
        Some(m) => match m {
            MobId::NoMob => true,
            _ => false,
        },
        None => false,
    };
    nobody && !is_wall(pos, level)
}

/// How near the player a monster must be to hurry, in sub-cell units:
/// three cells.
pub const AGGRESSION_RADIUS: i64 = 3 * 65536;

/// The centre of a cell ends up in the same cell after wrapping: in the
/// column that the cell wraps to.
pub proof fn lemma_center_wraps(c: int, w: int)
    requires
        w > 0,
    ensures
        ((c * SUBCELLS + SUBCELLS / 2) % (w * SUBCELLS)) / (SUBCELLS as int) == c % w,
        (c * SUBCELLS + SUBCELLS / 2) % (w * SUBCELLS) == (c % w) * SUBCELLS + SUBCELLS / 2,
{
    let f = SUBCELLS as int;
    let q = c / w;
    let r = c % w;
    vstd::arithmetic::div_mod::lemma_fundamental_div_mod(c, w);
    assert(c * f + f / 2 == q * (w * f) + (r * f + f / 2)) by (nonlinear_arith)
        requires
            c == w * q + r,
    ;
    assert(0 <= r * f + f / 2 < w * f) by (nonlinear_arith)
        requires
            0 <= r < w,
            f == 65536,
    ;
    vstd::arithmetic::div_mod::lemma_fundamental_div_mod_converse(
        c * f + f / 2,
        w * f,
        q,
        r * f + f / 2,
    );
    vstd::arithmetic::div_mod::lemma_fundamental_div_mod_converse(r * f + f / 2, f, r, f / 2);
}

/// A monster is in a hurry where it stands: not more than
/// `AGGRESSION_RADIUS` from the corner of the player's cell.
pub open spec fn hurried(pos: WorldPos, player_cell: GridCoord) -> bool {
    dist2(pos, corner(player_cell)) <= AGGRESSION_RADIUS * AGGRESSION_RADIUS
}

/// A monster after it has moved to the room at `room`: it stands in the
/// centre of that room, as the boundary conditions of the world place it,
/// and its move cooldown has started, at half its length if it is in a
/// hurry.
pub open spec fn relocated(
    mob: MobData,
    room: GridCoord,
    world_size: (usize, usize),
    player_cell: GridCoord,
) -> MobData {
    let pos = boundary_point(center(room), world_size);
    MobData {
        pos,
        mob_type: match mob.mob_type {
            MobType::Monster(state) => MobType::Monster(
                MonsterState {
                    last_move_time: if hurried(pos, player_cell) {
                        MONSTER_MOVE_COOLDOWN / 2
                    } else {
                        MONSTER_MOVE_COOLDOWN
                    },
                    ..state
                },
            ),
            MobType::Bullet => MobType::Bullet,
        },
        ..mob
    }
}

/// The monsters stand in the world: in `0 .. width` by `0 ..= height`
/// cells.
pub open spec fn monsters_in_world(mobs: &Mobs, mob_grid: &Grid2D<MobId>) -> bool {
    forall|id: int| #[trigger]
        mobs.holds(id) && mobs.mob(id).is_monster() ==> 0 <= mobs.mob(id).pos.x < mob_grid.width()
            * SUBCELLS && 0 <= mobs.mob(id).pos.y <= mob_grid.height() * SUBCELLS
}

/// Moves the monster in slot `id` to the free room at `room`, all at once:
/// the monster stands in the new room, the occupancy grid names it there
/// and no longer in the old one, and its move cooldown has started.
pub fn relocate_monster(
    mobs: &mut Mobs,
    id: usize,
    room: GridCoord,
    level: &Level,
    mob_grid: &mut Grid2D<MobId>,
    player_pos: &PlayerPosition,
)
    requires
        old(mobs).wf(),
        level.grid.wf(),
        old(mob_grid).wf(),
        old(mob_grid).width() == level.grid.width(),
        old(mob_grid).height() == level.grid.height(),
        old(mobs).holds(id as int),
        old(mobs).mob(id as int).is_monster(),
        old(mobs).agrees_with(old(mob_grid)),
        room_free(room, level, old(mob_grid)),
    ensures
        final(mobs).wf(),
        final(mob_grid).wf(),
        final(mob_grid).width() == old(mob_grid).width(),
        final(mob_grid).height() == old(mob_grid).height(),
        final(mobs).mob_list@ == old(mobs).mob_list@,
        final(mobs).slots@ == old(mobs).slots@.update(
            id as int,
            Some(
                relocated(
                    old(mobs).mob(id as int),
                    room,
                    (level.grid.width() as usize, level.grid.height() as usize),
                    player_pos.position(),
                ),
            ),
        ),
        final(mob_grid).cells() == old(mob_grid).cells().update(
            old(mob_grid).index_of(room.x as int, room.y as int),
            MobId::Mob(id),
        ).update(
            old(mob_grid).index_of(
                old(mobs).mob(id as int).cell().x as int,
                old(mobs).mob(id as int).cell().y as int,
            ),
            MobId::NoMob,
        ),
        final(mobs).agrees_with(final(mob_grid)),
        final(mobs).mob(id as int).cell() == boundary_cell_of(room, old(mob_grid)),
        player_pos.marked_on(old(mob_grid)) ==> player_pos.marked_on(final(mob_grid)),
        monsters_in_world(old(mobs), old(mob_grid)) ==> monsters_in_world(
            final(mobs),
            final(mob_grid),
        ),
{
    let size = level.grid.get_size();
    let f: i64 = SUBCELLS;
    let mut m: MobData = mobs.get(id).unwrap();
    let old_cell = m.pos.cell();
    let ghost old_mob = m;
    proof {
        lemma_center_wraps(room.x as int, size.0 as int);
        mob_grid.lemma_index_in_bounds(room.x as int, room.y as int);
        mob_grid.lemma_index_in_bounds(old_cell.x as int, old_cell.y as int);
    }
    m.set_pos_centered(WorldPos { x: (room.x as i64) * f, y: (room.y as i64) * f }, size);
    let _ = mob_grid.set_in_rows(room, MobId::Mob(id));
    let _ = mob_grid.set_in_rows(old_cell, MobId::NoMob);
    let corner_of_player = player_pos.get_pos();
    let dx: i64 = m.pos.x - (corner_of_player.x as i64) * f;
    let dy: i64 = m.pos.y - (corner_of_player.y as i64) * f;
    proof {
        lemma_square_bound(dx as int, 0x1_0000_0000_0000);
        lemma_square_bound(dy as int, 0x1_0000_0000_0000);
    }
    let near: bool = (dx as i128) * (dx as i128) + (dy as i128) * (dy as i128) <= (AGGRESSION_RADIUS
        as i128) * (AGGRESSION_RADIUS as i128);
    match m.mob_type {
        MobType::Monster(mut state) => {
            state.start_move_cooldown(
                if near {
                    50
                } else {
                    100
                },
            );
            m.mob_type = MobType::Monster(state);
        },
        MobType::Bullet => {},
    }
    proof {
        assert(m == relocated(old_mob, room, size, player_pos.position()));
        let c = m.cell();
        assert(c.y == room.y);
        assert(c.x == (room.x as int) % (size.0 as int));
        vstd::arithmetic::div_mod::lemma_mod_twice(room.x as int, size.0 as int);
    }
    mobs.replace(id, m);
    proof {
        let spot = old(mob_grid).index_of(room.x as int, room.y as int);
        let left = old(mob_grid).index_of(old_cell.x as int, old_cell.y as int);
        assert(old(mob_grid).cells()[left] == MobId::Mob(id));
        assert(old(mob_grid).cells()[spot] == MobId::NoMob);
        assert(mob_grid.index_of(m.cell().x as int, m.cell().y as int) == spot);
        assert forall|j: int| #[trigger]
            mobs.holds(j) && mobs.mob(j).is_monster() implies mob_grid.lookup(
            mobs.mob(j).cell().x as int,
            mobs.mob(j).cell().y as int,
        ) == Some(MobId::Mob(j as usize)) by {
            if j != id {
                assert(old(mobs).holds(j));
                let cj = old(mobs).mob(j).cell();
                old(mob_grid).lemma_index_in_bounds(cj.x as int, cj.y as int);
                assert(old(mob_grid).cells()[old(mob_grid).index_of(cj.x as int, cj.y as int)]
                    == MobId::Mob(j as usize));
            }
        }
        assert forall|i: int| 0 <= i < mob_grid.cells().len() implies (
        #[trigger] mob_grid.cells()[i] matches MobId::Mob(j) ==> mobs.holds(j as int) && mobs.mob(
            j as int,
        ).is_monster() && mob_grid.in_rows(mobs.mob(j as int).cell().y as int)
            && mob_grid.index_of(
            mobs.mob(j as int).cell().x as int,
            mobs.mob(j as int).cell().y as int,
        ) == i) by {
            if i != spot && i != left {
                assert(mob_grid.cells()[i] == old(mob_grid).cells()[i]);
                if let MobId::Mob(j) = mob_grid.cells()[i] {
                    assert(old(mobs).holds(j as int));
                    assert(j != id);
                }
            }
        }
        if player_pos.marked_on(old(mob_grid)) {
            assert forall|i: int| 0 <= i < mob_grid.cells().len() implies (
            #[trigger] mob_grid.cells()[i] == MobId::Player <==> i == mob_grid.index_of(
                player_pos.position().x as int,
                player_pos.position().y as int,
            )) by {
                assert(old(mob_grid).cells()[i] == MobId::Player <==> i == old(mob_grid).index_of(
                    player_pos.position().x as int,
                    player_pos.position().y as int,
                ));
            }
        }
        if monsters_in_world(old(mobs), old(mob_grid)) {
            assert forall|j: int| #[trigger]
                mobs.holds(j) && mobs.mob(j).is_monster() implies 0 <= mobs.mob(j).pos.x
                < mob_grid.width() * SUBCELLS && 0 <= mobs.mob(j).pos.y <= mob_grid.height()
                * SUBCELLS by {
                if j != id {
                    assert(old(mobs).holds(j));
                }
            }
        }
    }
}

/// The cell that `pos` addresses on the grid, by the boundary conditions.
pub open spec fn boundary_cell_of(pos: GridCoord, mob_grid: &Grid2D<MobId>) -> GridCoord {
    crate::level::boundary_cell(pos, (mob_grid.width() as usize, mob_grid.height() as usize))
}

/// The cooldowns of a monster after `frame_time` microseconds.
pub open spec fn cooled_state(state: MonsterState, frame_time: u64) -> MonsterState {
    MonsterState {
        last_move_time: cooled(state.last_move_time, frame_time, MONSTER_MOVE_COOLDOWN),
        last_attack_time: cooled(state.last_attack_time, frame_time, MONSTER_ATTACK_COOLDOWN),
        last_color_change_time: cooled(
            state.last_color_change_time,
            frame_time,
            MONSTER_COLOR_CHANGE_COOLDOWN,
        ),
    }
}

/// What a monster with these cooldowns may do.
pub open spec fn flags_of(state: MonsterState) -> MonsterFlags {
    MonsterFlags {
        can_attack: state.last_attack_time == 0,
        can_change_color: state.last_color_change_time == 0,
        can_move: state.last_move_time == 0,
    }
}

/// Lets the time of a tick pass for the monster in slot `id` and says what
/// the monster may do now.
pub fn cool_monster(mobs: &mut Mobs, id: usize, frame_time: u64) -> (flags: MonsterFlags)
    requires
        old(mobs).wf(),
        old(mobs).holds(id as int),
        old(mobs).mob(id as int).mob_type is Monster,
    ensures
        final(mobs).wf(),
        final(mobs).mob_list@ == old(mobs).mob_list@,
        final(mobs).slots@ == old(mobs).slots@.update(
            id as int,
            Some(
                MobData {
                    mob_type: MobType::Monster(
                        cooled_state(old(mobs).mob(id as int).mob_type->Monster_0, frame_time),
                    ),
                    ..old(mobs).mob(id as int)
                },
            ),
        ),
        flags == flags_of(cooled_state(old(mobs).mob(id as int).mob_type->Monster_0, frame_time)),
{
    let mut m: MobData = mobs.get(id).unwrap();
    let mut flags = MonsterFlags { can_attack: false, can_change_color: false, can_move: false };
    match m.mob_type {
        MobType::Monster(mut monster) => {
            monster.update(frame_time);
            flags = MonsterFlags {
                can_attack: monster.can_attack(),
                can_change_color: monster.can_change_color(),
                can_move: monster.can_move(),
            };
            m.mob_type = MobType::Monster(monster);
        },
        MobType::Bullet => {},
    }
    mobs.replace(id, m);
    flags
}

/// The world is small enough for sight across its seam to be decided.
pub open spec fn sight_decidable(mob_grid: &Grid2D<MobId>) -> bool {
    mob_grid.width() <= SIGHT_WORLD_WIDTH && mob_grid.height() <= SIGHT_WORLD_HEIGHT
}

/// The way in which a monster at `pos` shoots at a target, if it shoots.
///
/// The monster shoots if it sees the target through the walls of the level
/// and through the occupancy grid, if what ends its line of sight in the
/// occupancy grid is the player, and if the two lines of sight point the
/// same way, that is, if the products of their vectors, component by
/// component, add up to more than zero. It then shoots along its line of
/// sight in the occupancy grid. A monster does not shoot at a target in
/// the very point where it stands.
pub open spec fn aim(
    pos: WorldPos,
    target: WorldPos,
    level: &Level,
    mob_grid: &Grid2D<MobId>,
) -> Option<WorldPos> {
    let at = boundary_point(target, (mob_grid.width() as usize, mob_grid.height() as usize));
    if at == pos {
        None
    } else {
        match (
            line_of_sight_across(pos, at, &level.grid),
            line_of_sight_across(pos, at, mob_grid),
        ) {
            (Some(through_walls), Some(through_mobs)) => {
                if mob_grid.lookup(through_mobs.0.x as int, through_mobs.0.y as int) == Some(
                    MobId::Player,
                ) && through_mobs.1.x * through_walls.1.x + through_mobs.1.y * through_walls.1.y
                    > 0 {
                    Some(through_mobs.1)
                } else {
                    None
                }
            },
            _ => None,
        }
    }
}

/// Decides whether a monster shoots at `target`, and which way. See `aim`.
pub fn monster_aim(mob: &MobData, target: WorldPos, level: &Level, mob_grid: &Grid2D<MobId>) -> (way:
    Option<WorldPos>)
    requires
        level.grid.wf(),
        mob_grid.wf(),
        mob_grid.width() == level.grid.width(),
        mob_grid.height() == level.grid.height(),
        sight_decidable(mob_grid),
        0 <= mob.pos.x < mob_grid.width() * SUBCELLS,
        0 <= mob.pos.y <= mob_grid.height() * SUBCELLS,
    ensures
        way == aim(mob.pos, target, level, mob_grid),
        way matches Some(v) ==> {
            &&& -RAY_LIMIT <= v.x <= RAY_LIMIT
            &&& -RAY_LIMIT <= v.y <= RAY_LIMIT
            &&& (v.x != 0 || v.y != 0)
        },
{
    let at = apply_boundary_conditions_world(target, mob_grid.get_size());
    if at.x == mob.pos.x && at.y == mob.pos.y {
        return None;
    }
    match mob.has_line_of_sight_with_bc(target, &level.grid) {
        None => None,
        Some(through_walls) => {
            match mob.has_line_of_sight_with_bc(target, mob_grid) {
                None => None,
                Some(through_mobs) => {
                    let is_player: bool = match mob_grid.get_in_rows(through_mobs.0) {
                        Some(hit) => match hit {
                            MobId::Player => true,
                            _ => false,
                        },
                        None => false,
                    };
                    let dir = through_mobs.1;
                    let dir_wall = through_walls.1;
                    proof {
                        lemma_scaled_bound(
                            dir.x as int,
                            dir_wall.x as int,
                            RAY_LIMIT as int,
                            RAY_LIMIT as int,
                        );
                        lemma_scaled_bound(
                            dir.y as int,
                            dir_wall.y as int,
                            RAY_LIMIT as int,
                            RAY_LIMIT as int,
                        );
                    }
                    if is_player && dir.x * dir_wall.x + dir.y * dir_wall.y > 0 {
                        Some(dir)
                    } else {
                        None
                    }
                },
            }
        },
    }
}

/// What the hostile part of a tick does to a monster, and the shot that it
/// takes, if any.
///
/// A monster that may change colour and may attack, and has the colour of
/// the player's magic, takes the other colour and starts its colour
/// cooldown. A monster that may attack and has an aim shoots along it, in
/// its colour, and starts its attack cooldown.
pub open spec fn hostility(
    mob: MobData,
    can_attack: bool,
    can_change_color: bool,
    target: WorldPos,
    mana_color: MagicColor,
    level: &Level,
    mob_grid: &Grid2D<MobId>,
) -> (MobData, Option<Shot>) {
    match mob.mob_type {
        MobType::Bullet => (mob, None),
        MobType::Monster(state) => {
            let changes = can_change_color && can_attack && mana_color == mob.color;
            let color = if changes {
                mob.color.opposite()
            } else {
                mob.color
            };
            let way = if can_attack {
                aim(mob.pos, target, level, mob_grid)
            } else {
                None
            };
            let state = MonsterState {
                last_color_change_time: if changes {
                    MONSTER_COLOR_CHANGE_COOLDOWN
                } else {
                    state.last_color_change_time
                },
                last_attack_time: if way is Some {
                    MONSTER_ATTACK_COOLDOWN
                } else {
                    state.last_attack_time
                },
                ..state
            };
            (
                MobData { color, mob_type: MobType::Monster(state), ..mob },
                match way {
                    Some(v) => Some(Shot { pos: mob.pos, dir: unit_toward(v), color }),
                    None => None,
                },
            )
        },
    }
}

/// The hostile part of the tick of the monster in slot `id`. See
/// `hostility`.
pub fn monster_hostility(
    mobs: &mut Mobs,
    id: usize,
    can_attack: bool,
    can_change_color: bool,
    target: WorldPos,
    mana_color: MagicColor,
    level: &Level,
    mob_grid: &Grid2D<MobId>,
) -> (shot: Option<Shot>)
    requires
        old(mobs).wf(),
        old(mobs).holds(id as int),
        level.grid.wf(),
        mob_grid.wf(),
        mob_grid.width() == level.grid.width(),
        mob_grid.height() == level.grid.height(),
        sight_decidable(mob_grid),
        monsters_in_world(old(mobs), mob_grid),
    ensures
        final(mobs).wf(),
        final(mobs).mob_list@ == old(mobs).mob_list@,
        final(mobs).slots@ == old(mobs).slots@.update(
            id as int,
            Some(
                hostility(
                    old(mobs).mob(id as int),
                    can_attack,
                    can_change_color,
                    target,
                    mana_color,
                    level,
                    mob_grid,
                ).0,
            ),
        ),
        shot == hostility(
            old(mobs).mob(id as int),
            can_attack,
            can_change_color,
            target,
            mana_color,
            level,
            mob_grid,
        ).1,
        shot matches Some(s) ==> {
            &&& -SUBCELLS <= s.dir.x <= SUBCELLS
            &&& -SUBCELLS <= s.dir.y <= SUBCELLS
            &&& s.pos == old(mobs).mob(id as int).pos
        },
{
    let mut m: MobData = mobs.get(id).unwrap();
    let mut shot: Option<Shot> = None;
    match m.mob_type {
        MobType::Monster(mut state) => {
            if can_change_color && same_color(mana_color, m.get_color()) && can_attack {
                let new_color = m.get_color().get_opposite();
                m.set_color(new_color);
                state.start_color_change_cooldown();
            }
            if can_attack {
                match monster_aim(&m, target, level, mob_grid) {
                    Some(dir) => {
                        shot = Some(Shot { pos: m.get_pos(), dir: normalize(dir), color: m.get_color() });
                        state.start_attack_cooldown();
                    },
                    None => {},
                }
            }
            m.mob_type = MobType::Monster(state);
        },
        MobType::Bullet => {},
    }
    mobs.replace(id, m);
    shot
}

/// The tick of the monster in slot `id` took the arena and the occupancy
/// grid from `before` to `after` and gave `shot`, with `coin` for the coin
/// and `pick` for the room that was drawn.
///
/// The cooldowns of the monster count down by the time of the tick. What
/// the monster may do now follows from them; if it may both move and
/// attack, the coin decides which it does, and else the coin does not
/// count. A monster that moves and has free rooms around it moves to the
/// one that was drawn, as `relocated` says, and the occupancy grid names it
/// there and no longer in its old cell; else nothing moves and the draw
/// does not count. Then comes the hostile part of the tick, as `hostility`
/// says of the monster where it now stands. Nobody else changes.
#[verifier::opaque]
pub open spec fn is_monster_turn(
    before: &Mobs,
    before_grid: &Grid2D<MobId>,
    after: &Mobs,
    after_grid: &Grid2D<MobId>,
    shot: Option<Shot>,
    id: int,
    frame_time: u64,
    level: &Level,
    player_cell: GridCoord,
    target: WorldPos,
    mana_color: MagicColor,
    coin: bool,
    pick: int,
) -> bool {
    let mob = before.mob(id);
    let cooled = cooled_state(mob.mob_type->Monster_0, frame_time);
    let flags = flags_of(cooled);
    let torn = flags.can_move && flags.can_attack;
    let can_move = if torn {
        coin
    } else {
        flags.can_move
    };
    let can_attack = if torn {
        !coin
    } else {
        flags.can_attack
    };
    let rested = MobData { mob_type: MobType::Monster(cooled), ..mob };
    let rooms = rooms_around(mob.cell(), level, before_grid);
    let moves = can_move && rooms.len() > 0;
    let placed = if moves {
        relocated(
            rested,
            rooms[pick],
            (level.grid.width() as usize, level.grid.height() as usize),
            player_cell,
        )
    } else {
        rested
    };
    let turn = hostility(
        placed,
        can_attack,
        flags.can_change_color,
        target,
        mana_color,
        level,
        after_grid,
    );
    &&& moves ==> 0 <= pick < rooms.len()
    &&& after_grid.width() == before_grid.width()
    &&& after_grid.height() == before_grid.height()
    &&& after_grid.cells() == (if moves {
        before_grid.cells().update(
            before_grid.index_of(rooms[pick].x as int, rooms[pick].y as int),
            MobId::Mob(id as usize),
        ).update(before_grid.index_of(mob.cell().x as int, mob.cell().y as int), MobId::NoMob)
    } else {
        before_grid.cells()
    })
    &&& after.mob_list@ == before.mob_list@
    &&& after.slots@ == before.slots@.update(id, Some(turn.0))
    &&& shot == turn.1
}

/// One tick of the monster in slot `id`: its cooldowns count down; if it
/// may both move and attack, a coin decides which; if it moves, it moves
/// to one of the free rooms around it, drawn at random, if there is one;
/// then comes the hostile part of the tick. See `cool_monster`,
/// `choose_action`, `free_rooms`, `relocate_monster` and
/// `monster_hostility` for each step.
///
/// The tick is what `is_monster_turn` says, for some coin and some draw;
/// where the monster may not both move and attack, and has no free room to
/// move to or may not move, neither counts and the tick is determined.
/// Whatever the coin and the draw: the monster stays a monster, in its cell
/// or in one that was a free room around it; nobody else changes; and the
/// occupancy grid stays in agreement with the arena and keeps the player's
/// marker.
pub fn animate_monster(
    mobs: &mut Mobs,
    id: usize,
    frame_time: u64,
    level: &Level,
    mob_grid: &mut Grid2D<MobId>,
    player_pos: &PlayerPosition,
    target: WorldPos,
    mana_color: MagicColor,
) -> (shot: Option<Shot>)
    requires
        old(mobs).wf(),
        old(mobs).holds(id as int),
        old(mobs).mob(id as int).is_monster(),
        level.grid.wf(),
        old(mob_grid).wf(),
        old(mob_grid).width() == level.grid.width(),
        old(mob_grid).height() == level.grid.height(),
        sight_decidable(old(mob_grid)),
        old(mobs).agrees_with(old(mob_grid)),
        monsters_in_world(old(mobs), old(mob_grid)),
    ensures
        exists|coin: bool, pick: int| #[trigger]
            is_monster_turn(
                old(mobs),
                old(mob_grid),
                final(mobs),
                final(mob_grid),
                shot,
                id as int,
                frame_time,
                level,
                player_pos.position(),
                target,
                mana_color,
                coin,
                pick,
            ),
        final(mobs).wf(),
        final(mob_grid).wf(),
        final(mob_grid).width() == old(mob_grid).width(),
        final(mob_grid).height() == old(mob_grid).height(),
        final(mobs).mob_list@ == old(mobs).mob_list@,
        final(mobs).slots@.len() == old(mobs).slots@.len(),
        forall|j: int|
            0 <= j < old(mobs).slots@.len() && j != id ==> #[trigger] final(mobs).slots@[j] == old(
                mobs,
            ).slots@[j],
        final(mobs).holds(id as int),
        final(mobs).mob(id as int).is_monster(),
        final(mobs).mob(id as int).is_alive == old(mobs).mob(id as int).is_alive,
        final(mobs).mob(id as int).hp == old(mobs).mob(id as int).hp,
        final(mobs).mob(id as int).cell() == old(mobs).mob(id as int).cell() || exists|i: int|
            0 <= i < rooms_around(old(mobs).mob(id as int).cell(), level, old(mob_grid)).len()
                && final(mobs).mob(id as int).cell() == boundary_cell_of(
                #[trigger] rooms_around(old(mobs).mob(id as int).cell(), level, old(mob_grid))[i],
                old(mob_grid),
            ),
        final(mobs).agrees_with(final(mob_grid)),
        monsters_in_world(final(mobs), final(mob_grid)),
        player_pos.marked_on(old(mob_grid)) ==> player_pos.marked_on(final(mob_grid)),
        shot matches Some(s) ==> {
            &&& -SUBCELLS <= s.dir.x <= SUBCELLS
            &&& -SUBCELLS <= s.dir.y <= SUBCELLS
            &&& 0 <= s.pos.x <= SPAWN_LIMIT
            &&& 0 <= s.pos.y <= SPAWN_LIMIT
        },
{
    let ghost start = *mobs;
    let flags = cool_monster(mobs, id, frame_time);
    proof {
        start.lemma_replace_keeps_agreement(mobs, mob_grid, id as int, mobs.mob(id as int));
        assert(monsters_in_world(mobs, mob_grid)) by {
            assert forall|j: int| #[trigger]
                mobs.holds(j) && mobs.mob(j).is_monster() implies 0 <= mobs.mob(j).pos.x
                < mob_grid.width() * SUBCELLS && 0 <= mobs.mob(j).pos.y <= mob_grid.height()
                * SUBCELLS by {
                assert(start.holds(j));
            }
        }
    }
    let coin: bool = if flags.can_move && flags.can_attack {
        coin_flip()
    } else {
        false
    };
    let (can_move, can_attack) = choose_action(flags.can_move, flags.can_attack, coin);
    let ghost cooled = *mobs;
    let ghost mut pick: int = 0;
    if can_move {
        let here = mobs.get(id).unwrap().get_pos().cell();
        proof {
            assert(cooled.holds(id as int));
            assert(mob_grid.lookup(here.x as int, here.y as int) == Some(MobId::Mob(id)));
            vstd::arithmetic::div_mod::lemma_fundamental_div_mod(
                cooled.mob(id as int).pos.x as int,
                SUBCELLS as int,
            );
        }
        let room_choices = free_rooms(here, level, mob_grid);
        if room_choices.len() > 0 {
            let random_room: usize = pick_index(room_choices.len());
            let new_room = room_choices[random_room];
            relocate_monster(mobs, id, new_room, level, mob_grid, player_pos);
            proof {
                pick = random_room as int;
                assert(rooms_around(here, level, old(mob_grid))[random_room as int] == new_room);
            }
        }
    }
    let ghost moved = *mobs;
    let shot = monster_hostility(
        mobs,
        id,
        can_attack,
        flags.can_change_color,
        target,
        mana_color,
        level,
        mob_grid,
    );
    proof {
        moved.lemma_replace_keeps_agreement(mobs, mob_grid, id as int, mobs.mob(id as int));
        assert(monsters_in_world(mobs, mob_grid)) by {
            assert forall|j: int| #[trigger]
                mobs.holds(j) && mobs.mob(j).is_monster() implies 0 <= mobs.mob(j).pos.x
                < mob_grid.width() * SUBCELLS && 0 <= mobs.mob(j).pos.y <= mob_grid.height()
                * SUBCELLS by {
                assert(moved.holds(j));
            }
        }
        assert(moved.holds(id as int));
        lemma_monster_turn(
            old(mobs),
            old(mob_grid),
            &cooled,
            &moved,
            mobs,
            mob_grid,
            shot,
            id as int,
            frame_time,
            level,
            player_pos.position(),
            target,
            mana_color,
            coin,
            pick,
        );
    }
    shot
}

/// The steps of a monster's tick add up to the tick: the arena after the
/// cooldowns have counted down, the arena after the move, if there was one,
/// and the arena after the hostile part, each as the contract of its step
/// says, make a turn as `is_monster_turn` describes it.
proof fn lemma_monster_turn(
    before: &Mobs,
    before_grid: &Grid2D<MobId>,
    cooled: &Mobs,
    moved: &Mobs,
    after: &Mobs,
    after_grid: &Grid2D<MobId>,
    shot: Option<Shot>,
    id: int,
    frame_time: u64,
    level: &Level,
    player_cell: GridCoord,
    target: WorldPos,
    mana_color: MagicColor,
    coin: bool,
    pick: int,
)
    requires
        before.holds(id),
        before.mob(id).mob_type is Monster,
        cooled.mob_list@ == before.mob_list@,
        cooled.slots@ == before.slots@.update(
            id,
            Some(
                MobData {
                    mob_type: MobType::Monster(
                        cooled_state(before.mob(id).mob_type->Monster_0, frame_time),
                    ),
                    ..before.mob(id)
                },
            ),
        ),
        after_grid.width() == before_grid.width(),
        after_grid.height() == before_grid.height(),
        ({
            let flags = flags_of(cooled_state(before.mob(id).mob_type->Monster_0, frame_time));
            let torn = flags.can_move && flags.can_attack;
            let can_move = if torn {
                coin
            } else {
                flags.can_move
            };
            let can_attack = if torn {
                !coin
            } else {
                flags.can_attack
            };
            let rooms = rooms_around(before.mob(id).cell(), level, before_grid);
            let moves = can_move && rooms.len() > 0;
            &&& moves ==> 0 <= pick < rooms.len()
            &&& moved.mob_list@ == cooled.mob_list@
            &&& moved.slots@ == (if moves {
                cooled.slots@.update(
                    id,
                    Some(
                        relocated(
                            cooled.mob(id),
                            rooms[pick],
                            (level.grid.width() as usize, level.grid.height() as usize),
                            player_cell,
                        ),
                    ),
                )
            } else {
                cooled.slots@
            })
            &&& after_grid.cells() == (if moves {
                before_grid.cells().update(
                    before_grid.index_of(rooms[pick].x as int, rooms[pick].y as int),
                    MobId::Mob(id as usize),
                ).update(
                    before_grid.index_of(
                        before.mob(id).cell().x as int,
                        before.mob(id).cell().y as int,
                    ),
                    MobId::NoMob,
                )
            } else {
                before_grid.cells()
            })
            &&& after.mob_list@ == moved.mob_list@
            &&& after.slots@ == moved.slots@.update(
                id,
                Some(
                    hostility(
                        moved.mob(id),
                        can_attack,
                        flags.can_change_color,
                        target,
                        mana_color,
                        level,
                        after_grid,
                    ).0,
                ),
            )
            &&& shot == hostility(
                moved.mob(id),
                can_attack,
                flags.can_change_color,
                target,
                mana_color,
                level,
                after_grid,
            ).1
        }),
    ensures
        is_monster_turn(
            before,
            before_grid,
            after,
            after_grid,
            shot,
            id,
            frame_time,
            level,
            player_cell,
            target,
            mana_color,
            coin,
            pick,
        ),
{
    reveal(is_monster_turn);
    let mob = before.mob(id);
    let rested = MobData {
        mob_type: MobType::Monster(cooled_state(mob.mob_type->Monster_0, frame_time)),
        ..mob
    };
    assert(cooled.mob(id) == rested);
    assert(rested.cell() == mob.cell());
    let flags = flags_of(cooled_state(mob.mob_type->Monster_0, frame_time));
    let torn = flags.can_move && flags.can_attack;
    let can_move = if torn {
        coin
    } else {
        flags.can_move
    };
    let rooms = rooms_around(mob.cell(), level, before_grid);
    let moves = can_move && rooms.len() > 0;
    let placed = if moves {
        relocated(
            rested,
            rooms[pick],
            (level.grid.width() as usize, level.grid.height() as usize),
            player_cell,
        )
    } else {
        rested
    };
    assert(moved.mob(id) == placed);
    assert(after.slots@ =~= before.slots@.update(id, after.slots@[id]));
}

} // verus!
