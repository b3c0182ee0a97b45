//! The game as a whole: the level, the occupancy grid, the entities and the
//! player, and what a frame does to them.

use vstd::prelude::*;
use crate::animation::{
    animate_monster, bullet_tick, is_monster_turn, monsters_in_world, move_bullets,
    sight_decidable, Shot,
};
use crate::combat::{damaged_by, Collision};
use crate::coords::{GridCoord, WorldPos, SUBCELLS};
use crate::frame::{frame_billboards, rebuild_sprites};
use crate::grid2d::Grid2D;
use crate::level::{apply_boundary_conditions_i32, Level};
use crate::mob::{first_free, put, MagicColor, MobData, MobId, MobType, Mobs, SPAWN_LIMIT};
use crate::player_movement::{lemma_marker_survives_write, PlayerPosition};
use crate::player_state::{
    falling_tick, idle_tick, moving_tick, progress_after, HorizontalPlayerState, IdleOutcome,
    Intent, PlayerMode, PlayerState, Step, TickContext, LOOK_LIMIT, TURN_DURATION,
};
use crate::sight::{SIGHT_WORLD_HEIGHT, SIGHT_WORLD_WIDTH};
use crate::sprites::{SpriteScale, Sprites};

verus! {

/// The state of a game.
pub struct Game {
    pub level: Level,
    /// Who stands where.
    pub mob_grid: Grid2D<MobId>,
    pub mobs: Mobs,
    pub player_pos: PlayerPosition,
    pub player_state: PlayerState,
    /// The turn about that the player is making or has made last.
    pub turn: HorizontalPlayerState,
    /// Which way the player faces: 1 or -1.
    pub player_facing: i32,
    /// The colour of the player's magic.
    pub mana_color: MagicColor,
    pub player_hp: i32,
    pub player_max_hp: i32,
    /// The player's place in the world, in sub-cell units.
    pub player_world_coord: WorldPos,
    /// Time between two shots of the player, in microseconds.
    pub fire_cooldown: u64,
    /// The collisions of this frame whose damage is not done yet.
    pub collisions: Vec<Collision>,
}

/// What a tick of the player's state machine comes to: what `Step` holds,
/// whether the player shot, which way the player faces, and the state of
/// the turn about.
pub struct PlayerTick {
    pub step: Step,
    pub fired: bool,
    pub facing: i32,
    pub turn: HorizontalPlayerState,
}

/// The cells in which monsters stand at the start of a game, after the
/// first `k` spawn cells of the level have had their turn, in the order in
/// which the monsters are made. A spawn cell makes a monster if it is on
/// the grid, after wrapping around, and neither the player nor an earlier
/// monster stands in it.
pub open spec fn spawn_cells(level: &Level, k: int) -> Seq<GridCoord>
    decreases k,
{
    if k <= 0 {
        Seq::empty()
    } else {
        let rest = spawn_cells(level, k - 1);
        let entry = level.mob_list@[k - 1];
        let cell = crate::level::boundary_cell(
            GridCoord { x: entry.0, y: entry.1 },
            (level.grid.width() as usize, level.grid.height() as usize),
        );
        let start = GridCoord { x: level.player_start.0 as i32, y: level.player_start.1 as i32 };
        if level.grid.in_rows(entry.1 as int) && cell != start && !rest.contains(cell) {
            rest.push(cell)
        } else {
            rest
        }
    }
}

/// What a round of ticks changes, at one moment of the round: the
/// entities, the occupancy grid, the collisions of the frame so far and the
/// shots that the monsters have taken so far.
pub struct Moment {
    pub mobs: Mobs,
    pub mob_grid: Grid2D<MobId>,
    pub collisions: Seq<Collision>,
    pub shots: Seq<Shot>,
}

/// The tick of the entity in slot `id` leads from `before` to `after`, in
/// a game whose level and player are those of `game`.
///
/// A bullet becomes what `bullet_tick` makes of it, and its collision, if
/// there is one, is added to the collisions. A monster has its turn, as
/// `is_monster_turn` says for some coin and some draw, and its shot, if it
/// takes one, is added to the shots. Nothing else changes.
#[verifier::opaque]
pub open spec fn is_entity_tick(
    game: &Game,
    before: Moment,
    after: Moment,
    id: int,
    frame_time: u64,
) -> bool {
    match before.mobs.mob(id).mob_type {
        MobType::Bullet => {
            let tick = bullet_tick(
                before.mobs.mob(id),
                frame_time,
                &game.level,
                &before.mob_grid,
                &before.mobs,
            );
            &&& after.mobs.slots@ == before.mobs.slots@.update(id, Some(tick.0))
            &&& after.mobs.mob_list@ == before.mobs.mob_list@
            &&& after.mob_grid == before.mob_grid
            &&& after.collisions == (match tick.1 {
                Some(c) => before.collisions.push(c),
                None => before.collisions,
            })
            &&& after.shots == before.shots
        },
        MobType::Monster(_) => {
            &&& after.collisions == before.collisions
            &&& exists|coin: bool, pick: int, shot: Option<Shot>|
                {
                    &&& #[trigger] is_monster_turn(
                        &before.mobs,
                        &before.mob_grid,
                        &after.mobs,
                        &after.mob_grid,
                        shot,
                        id,
                        frame_time,
                        &game.level,
                        game.player_pos.position(),
                        game.player_world_coord,
                        game.mana_color,
                        coin,
                        pick,
                    )
                    &&& after.shots == (match shot {
                        Some(s) => before.shots.push(s),
                        None => before.shots,
                    })
                }
        },
    }
}

/// `moments` are the moments of a round of ticks that leads from the game
/// `start` to the game `end` and gives `shots`: the first is `start` with
/// no shot taken, each of the others comes from the one before it by the
/// tick of the next entity on the roster of `start`, and the last is `end`
/// with `shots`.
pub open spec fn is_round(
    moments: Seq<Moment>,
    start: &Game,
    end: &Game,
    shots: Seq<Shot>,
    frame_time: u64,
) -> bool {
    let roster = start.mobs.mob_list@;
    &&& moments.len() == roster.len() + 1
    &&& moments[0] == start.moment(Seq::empty())
    &&& moments[roster.len() as int] == end.moment(shots)
    &&& forall|k: int|
        #![trigger moments[k]]
        0 <= k < roster.len() ==> is_entity_tick(
            start,
            moments[k],
            moments[k + 1],
            roster[k] as int,
            frame_time,
        )
}

/// `after` is the game `before` after a sweep of the dead: every dead
/// entity has left the roster and its slot, the cell that a dead monster
/// stood in is clear, and nothing else has changed.
pub open spec fn is_swept(before: &Game, after: &Game) -> bool {
    &&& after.same_player_as(before)
    &&& after.player_hp == before.player_hp
    &&& after.collisions@ == before.collisions@
    &&& after.mobs.mob_list@ == before.mobs.mob_list@.filter(before.mobs.alive_pred())
    &&& after.mobs.slots@.len() == before.mobs.slots@.len()
    &&& forall|id: int|
        0 <= id < before.mobs.slots@.len() ==> #[trigger] after.mobs.slots@[id] == (
        if before.mobs.holds(id) && !before.mobs.mob(id).is_alive {
            None
        } else {
            before.mobs.slots@[id]
        })
    &&& after.mob_grid.width() == before.mob_grid.width()
    &&& after.mob_grid.height() == before.mob_grid.height()
    &&& forall|i: int|
        0 <= i < before.mob_grid.cells().len() ==> #[trigger] after.mob_grid.cells()[i] == (
        if before.mobs.has_corpse_at(&before.mob_grid, i) {
            MobId::NoMob
        } else {
            before.mob_grid.cells()[i]
        })
}

/// The arena and the roster after bullets have been made of the first `n`
/// of the shots, one after the other: each bullet is the `fresh_bullet` of
/// its shot and goes into the first free slot and to the end of the roster.
pub open spec fn with_bullets(
    slots: Seq<Option<MobData>>,
    roster: Seq<usize>,
    shots: Seq<Shot>,
    n: int,
) -> (Seq<Option<MobData>>, Seq<usize>)
    decreases n,
{
    if n <= 0 {
        (slots, roster)
    } else {
        let earlier = with_bullets(slots, roster, shots, n - 1);
        let id = first_free(earlier.0);
        let shot = shots[n - 1];
        (
            put(earlier.0, id, Mobs::fresh_bullet(shot.pos, shot.dir, shot.color)),
            earlier.1.push(id as usize),
        )
    }
}

/// What the part of a frame after the player's tick makes of the game
/// `start`: `swept` after the sweep of the dead, then `ticked` after a
/// round of ticks through `moments` that gives `shots`, then `end` after
/// the shots have become bullets, the damage of the collisions of the
/// round is done and the player's weapon has cooled down.
pub open spec fn is_frame(
    start: &Game,
    swept: Game,
    ticked: Game,
    moments: Seq<Moment>,
    shots: Seq<Shot>,
    end: &Game,
    frame_time: u64,
) -> bool {
    let armed = with_bullets(ticked.mobs.slots@, ticked.mobs.mob_list@, shots, shots.len() as int);
    let hurt = damaged_by(
        armed.0,
        start.player_hp,
        ticked.collisions@,
        ticked.collisions@.len() as int,
        start.player_max_hp,
        start.mana_color,
    );
    &&& is_swept(start, &swept)
    &&& is_round(moments, &swept, &ticked, shots, frame_time)
    &&& end.mobs.mob_list@ == armed.1
    &&& end.mobs.slots@ == hurt.0
    &&& end.player_hp == hurt.1
    &&& end.mob_grid == ticked.mob_grid
    &&& end.collisions@.len() == 0
    &&& end.player_state == (PlayerState {
        fire_cooldown: if start.player_state.fire_cooldown <= frame_time {
            0
        } else {
            (start.player_state.fire_cooldown - frame_time) as u64
        },
        ..start.player_state
    })
}

/// What `move_bullets` and the write to the slot make of a bullet is its
/// tick.
proof fn lemma_bullet_ticked(game: &Game, before: Moment, after: Moment, id: int, frame_time: u64)
    requires
        before.mobs.mob(id).mob_type is Bullet,
        after.mobs.slots@ == before.mobs.slots@.update(
            id,
            Some(
                bullet_tick(
                    before.mobs.mob(id),
                    frame_time,
                    &game.level,
                    &before.mob_grid,
                    &before.mobs,
                ).0,
            ),
        ),
        after.mobs.mob_list@ == before.mobs.mob_list@,
        after.mob_grid == before.mob_grid,
        after.collisions == (match bullet_tick(
            before.mobs.mob(id),
            frame_time,
            &game.level,
            &before.mob_grid,
            &before.mobs,
        ).1 {
            Some(c) => before.collisions.push(c),
            None => before.collisions,
        }),
        after.shots == before.shots,
    ensures
        is_entity_tick(game, before, after, id, frame_time),
{
    reveal(is_entity_tick);
}

/// A turn of a monster, with its shot added to the shots, is its tick.
proof fn lemma_monster_ticked(
    game: &Game,
    before: Moment,
    after: Moment,
    id: int,
    frame_time: u64,
    coin: bool,
    pick: int,
    shot: Option<Shot>,
)
    requires
        before.mobs.mob(id).mob_type is Monster,
        after.collisions == before.collisions,
        is_monster_turn(
            &before.mobs,
            &before.mob_grid,
            &after.mobs,
            &after.mob_grid,
            shot,
            id,
            frame_time,
            &game.level,
            game.player_pos.position(),
            game.player_world_coord,
            game.mana_color,
            coin,
            pick,
        ),
        after.shots == (match shot {
            Some(s) => before.shots.push(s),
            None => before.shots,
        }),
    ensures
        is_entity_tick(game, before, after, id, frame_time),
{
    reveal(is_entity_tick);
}

impl Game {
    /// The invariant of the game. The level and the occupancy grid have
    /// the same size, small enough for sight to be decided. The arena, the
    /// roster and the occupancy grid agree: every monster stands in the one
    /// cell that names it, inside the world. The player's marker is in the
    /// player's cell, a cell of the grid, and in no other. The player's
    /// state is in range and the player's target, if any, is close by.
    pub open spec fn wf(&self) -> bool {
        &&& self.level.grid.wf()
        &&& self.mob_grid.wf()
        &&& self.mob_grid.width() == self.level.grid.width()
        &&& self.mob_grid.height() == self.level.grid.height()
        &&& sight_decidable(&self.mob_grid)
        &&& self.mobs.wf()
        &&& self.mobs.agrees_with(&self.mob_grid)
        &&& monsters_in_world(&self.mobs, &self.mob_grid)
        &&& self.player_pos.marked_on(&self.mob_grid)
        &&& 0 <= self.player_pos.position().x < self.mob_grid.width()
        &&& self.player_state.wf()
        &&& self.player_state.on_course(self.player_pos.position())
        &&& (self.player_facing == 1 || self.player_facing == -1)
        &&& 0 <= self.player_hp <= self.player_max_hp
    }

    /// The game at its start can be made of `level`: the level is small
    /// enough for sight to be decided across its seam and for a billboard to
    /// stand anywhere in it, the player starts in a cell of the grid, and
    /// the settings are in range.
    pub open spec fn playable(
        level: &Level,
        look_up_max: i64,
        look_down_max: i64,
        player_max_hp: i32,
    ) -> bool {
        &&& level.grid.width() <= SIGHT_WORLD_WIDTH
        &&& level.grid.height() <= SIGHT_WORLD_HEIGHT
        &&& level.player_start.0 < level.grid.width()
        &&& level.player_start.1 < level.grid.height()
        &&& 0 <= look_up_max <= LOOK_LIMIT
        &&& 0 <= look_down_max <= LOOK_LIMIT
        &&& 0 <= player_max_hp
    }

    /// The game at its start, or nothing if the level is not `playable`.
    ///
    /// The player stands in the start cell of the level, idle, facing 1,
    /// with white magic and full hit points. The entities are fresh white
    /// monsters, one in each of the `spawn_cells` of the level, in slots
    /// and on the roster in the order of those cells.
    pub fn new(
        level: Level,
        look_up_max: i64,
        look_down_max: i64,
        player_max_hp: i32,
        fire_cooldown: u64,
    ) -> (made: Option<Game>)
        requires
            level.grid.wf(),
        ensures
            made is Some <==> Self::playable(&level, look_up_max, look_down_max, player_max_hp),
            made matches Some(game) ==> {
                &&& game.wf()
                &&& game.level == level
                &&& game.player_pos.position() == (GridCoord {
                    x: level.player_start.0 as i32,
                    y: level.player_start.1 as i32,
                })
                &&& game.player_state == (PlayerState {
                    last_key_pressed: None,
                    mode: PlayerMode::Idle,
                    look_rotation: 0,
                    look_up_max,
                    look_down_max,
                    fire_cooldown: 0,
                    new_player_pos: None,
                    lerp: 0,
                })
                &&& game.player_facing == 1
                &&& game.mana_color == MagicColor::White
                &&& game.player_hp == player_max_hp
                &&& game.player_max_hp == player_max_hp
                &&& game.player_world_coord == crate::sight::center(game.player_pos.position())
                &&& game.fire_cooldown == fire_cooldown
                &&& game.collisions@.len() == 0
                &&& game.mobs.mob_list@.len() == spawn_cells(&level, level.mob_list@.len() as int).len()
                &&& game.mobs.slots@.len() == game.mobs.mob_list@.len()
                &&& forall|i: int|
                    0 <= i < game.mobs.mob_list@.len() ==> #[trigger] game.mobs.mob_list@[i] == i
                &&& forall|i: int|
                    0 <= i < game.mobs.slots@.len() ==> #[trigger] game.mobs.slots@[i] == Some(
                        Mobs::fresh_monster(
                            spawn_cells(&level, level.mob_list@.len() as int)[i],
                            MagicColor::White,
                        ),
                    )
            },
    {
        let size = level.grid.get_size();
        if size.0 > SIGHT_WORLD_WIDTH || size.1 > SIGHT_WORLD_HEIGHT || level.player_start.0
            >= size.0 || level.player_start.1 >= size.1 || look_up_max < 0 || look_up_max
            > LOOK_LIMIT || look_down_max < 0 || look_down_max > LOOK_LIMIT || player_max_hp < 0 {
            return None;
        }
        assert(size.0 * size.1 <= 8192 * 8192) by (nonlinear_arith)
            requires
                size.0 <= 8192,
                size.1 <= 8192,
        ;
        let mut mob_grid: Grid2D<MobId> = Grid2D::new(size.0, size.1);
        let ghost blank = mob_grid;
        let player_pos = PlayerPosition::new(level.player_start, &mut mob_grid);
        let mut mobs = Mobs::new();
        proof {
            assert(mobs.agrees_with(&mob_grid)) by {
                blank.lemma_index_in_bounds(
                    player_pos.position().x as int,
                    player_pos.position().y as int,
                );
            }
        }
        let n: usize = level.mob_list.len();
        let mut k: usize = 0;
        let ghost start = player_pos.position();
        while k < n
            invariant
                k <= n,
                n == level.mob_list@.len(),
                level.grid.wf(),
                size.0 == level.grid.width(),
                size.1 == level.grid.height(),
                mob_grid.wf(),
                mob_grid.width() == level.grid.width(),
                mob_grid.height() == level.grid.height(),
                sight_decidable(&mob_grid),
                mobs.wf(),
                mobs.agrees_with(&mob_grid),
                monsters_in_world(&mobs, &mob_grid),
                player_pos.marked_on(&mob_grid),
                start == player_pos.position(),
                start == (GridCoord {
                    x: level.player_start.0 as i32,
                    y: level.player_start.1 as i32,
                }),
                0 <= start.x < size.0,
                mobs.mob_list@.len() == spawn_cells(&level, k as int).len(),
                mobs.slots@.len() == mobs.mob_list@.len(),
                forall|i: int| 0 <= i < mobs.mob_list@.len() ==> #[trigger] mobs.mob_list@[i] == i,
                forall|i: int|
                    0 <= i < mobs.slots@.len() ==> #[trigger] mobs.slots@[i] == Some(
                        Mobs::fresh_monster(spawn_cells(&level, k as int)[i], MagicColor::White),
                    ),
                forall|i: int|
                    0 <= i < spawn_cells(&level, k as int).len() ==> 0 <= (#[trigger] spawn_cells(
                        &level,
                        k as int,
                    )[i]).x < size.0 && 0 <= spawn_cells(&level, k as int)[i].y < size.1,
            decreases n - k,
        {
            let m: (i32, i32) = level.mob_list[k];
            let spawn = GridCoord { x: m.0, y: m.1 };
            let ghost cells = spawn_cells(&level, k as int);
            proof {
                reveal_with_fuel(spawn_cells, 2);
            }
            if m.1 >= 0 && (m.1 as usize) < size.1 {
                let cell = apply_boundary_conditions_i32(spawn, size);
                let ghost before_grid = mob_grid;
                let ghost before_mobs = mobs;
                proof {
                    let spot = mob_grid.index_of(cell.x as int, cell.y as int);
                    mob_grid.lemma_index_in_bounds(cell.x as int, cell.y as int);
                    mob_grid.lemma_index_in_bounds(start.x as int, start.y as int);
                    // somebody stands in the cell just if it is the player's
                    // or that of an earlier monster
                    if cell == start {
                        assert(mob_grid.cells()[spot] == MobId::Player);
                    }
                    if cells.contains(cell) {
                        let i = choose|i: int| 0 <= i < cells.len() && cells[i] == cell;
                        assert(mobs.mob_list@[i] == i);
                        assert(mobs.slots@[i] == Some(
                            Mobs::fresh_monster(cells[i], MagicColor::White),
                        ));
                        assert(mobs.holds(i));
                        crate::mob::lemma_center_cell(cell);
                        assert(mobs.mob(i).cell() == cell);
                    }
                    match mob_grid.cells()[spot] {
                        MobId::NoMob => {},
                        MobId::Player => {
                            mob_grid.lemma_index_injective(
                                cell.x as int,
                                cell.y as int,
                                start.x as int,
                                start.y as int,
                            );
                        },
                        MobId::Mob(id) => {
                            assert(mobs.holds(id as int));
                            let k0 = choose|k0: int|
                                0 <= k0 < mobs.mob_list@.len() && mobs.mob_list@[k0] == id;
                            assert(mobs.mob_list@[k0] == k0);
                            assert(mobs.slots@[id as int] == Some(
                                Mobs::fresh_monster(cells[id as int], MagicColor::White),
                            ));
                            crate::mob::lemma_center_cell(cells[id as int]);
                            assert(mobs.mob(id as int).cell() == cells[id as int]);
                            mob_grid.lemma_index_injective(
                                cell.x as int,
                                cell.y as int,
                                cells[id as int].x as int,
                                cells[id as int].y as int,
                            );
                            assert(cells[id as int] == cell);
                        },
                    }
                    // the next slot is the one behind the last
                    assert(mobs.is_next_slot(mobs.slots@.len() as int)) by {
                        assert forall|j: int| 0 <= j < mobs.slots@.len() implies mobs.holds(j) by {
                            assert(mobs.mob_list@[j] == j);
                        }
                    }
                    mobs.lemma_next_slot_unique(mobs.slots@.len() as int);
                }
                let placed: bool = mobs.new_monster(cell, &mut mob_grid, MagicColor::White);
                proof {
                    let spot = before_grid.index_of(cell.x as int, cell.y as int);
                    let fresh = before_mobs.slots@.len() as int;
                    if placed {
                        lemma_marker_survives_write(
                            &player_pos,
                            &before_grid,
                            &mob_grid,
                            spot,
                            MobId::Mob(fresh as usize),
                        );
                        crate::mob::lemma_center_cell(cell);
                        assert forall|j: int| #[trigger]
                            mobs.holds(j) && mobs.mob(j).is_monster() implies 0 <= mobs.mob(j).pos.x
                            < mob_grid.width() * SUBCELLS && 0 <= mobs.mob(j).pos.y
                            <= mob_grid.height() * SUBCELLS by {
                            if j != fresh {
                                assert(before_mobs.holds(j));
                            }
                        }
                        assert(spawn_cells(&level, k as int + 1) == cells.push(cell));
                        assert(mobs.slots@ == before_mobs.slots@.push(
                            Some(Mobs::fresh_monster(cell, MagicColor::White)),
                        ));
                        assert forall|i: int| 0 <= i < mobs.mob_list@.len() implies #[trigger]
                            mobs.mob_list@[i] == i by {
                            if i < fresh {
                                assert(before_mobs.mob_list@[i] == i);
                            }
                        }
                        assert forall|i: int| 0 <= i < mobs.slots@.len() implies #[trigger]
                            mobs.slots@[i] == Some(
                            Mobs::fresh_monster(cells.push(cell)[i], MagicColor::White),
                        ) by {
                            if i < fresh {
                                assert(mobs.slots@[i] == before_mobs.slots@[i]);
                            }
                        }
                    } else {
                        assert(spawn_cells(&level, k as int + 1) == cells);
                    }
                }
            } else {
                proof {
                    assert(spawn_cells(&level, k as int + 1) == cells);
                }
            }
            k += 1;
        }
        let player_state = PlayerState::new(look_up_max, look_down_max);
        let player_world_coord = WorldPos::center_of(player_pos.get_pos());
        Some(
            Game {
                level,
                mob_grid,
                mobs,
                player_pos,
                player_state,
                turn: HorizontalPlayerState::begin(1),
                player_facing: 1,
                mana_color: MagicColor::White,
                player_hp: player_max_hp,
                player_max_hp,
                player_world_coord,
                fire_cooldown,
                collisions: Vec::new(),
            },
        )
    }

    /// The occupancy invariant. In a game that is well formed the player's
    /// marker is in exactly one cell of the occupancy grid, the player's
    /// own; a cell that names an entity names a monster of the arena; and
    /// no monster is named by two cells.
    pub proof fn lemma_occupancy(&self, i: int, j: int)
        requires
            self.wf(),
            0 <= i < self.mob_grid.cells().len(),
            0 <= j < self.mob_grid.cells().len(),
        ensures
            ({
                let home = self.mob_grid.index_of(
                    self.player_pos.position().x as int,
                    self.player_pos.position().y as int,
                );
                &&& 0 <= home < self.mob_grid.cells().len()
                &&& self.mob_grid.cells()[home] == MobId::Player
                &&& self.mob_grid.cells()[i] == MobId::Player ==> i == home
            }),
            self.mob_grid.cells()[i] matches MobId::Mob(id) ==> self.mobs.holds(id as int)
                && self.mobs.mob(id as int).is_monster() && self.mobs.mob_list@.contains(id),
            self.mob_grid.cells()[i] is Mob && self.mob_grid.cells()[i] == self.mob_grid.cells()[j]
                ==> i == j,
    {
        self.mob_grid.lemma_index_in_bounds(
            self.player_pos.position().x as int,
            self.player_pos.position().y as int,
        );
        if let MobId::Mob(id) = self.mob_grid.cells()[i] {
            assert(self.mobs.holds(id as int));
        }
    }

    /// What a tick of the player's state machine does, by the mode of the
    /// player. The key of the frame is noted first. An idle, a moving and a
    /// falling player do what `idle_tick`, `moving_tick` and `falling_tick`
    /// say; a turn about begins as soon as the idle player starts it. For a
    /// turning player the turn goes on for the time of the tick, and when
    /// it is complete the player faces the other way and is idle.
    pub open spec fn player_tick(&self, ctx: TickContext, intent: Option<Intent>) -> PlayerTick {
        let s = PlayerState { last_key_pressed: intent, ..self.player_state };
        let pos = self.player_pos.position();
        let rest = Step {
            state: s,
            mode: s.mode,
            pos,
            cells: self.mob_grid.cells(),
            coord: self.player_world_coord,
            mana: self.mana_color,
        };
        match self.player_state.mode {
            PlayerMode::Idle => {
                let r = idle_tick(
                    s,
                    ctx,
                    self.player_facing,
                    pos,
                    &self.level,
                    &self.mob_grid,
                    &self.mobs,
                    self.mana_color,
                    self.fire_cooldown,
                );
                PlayerTick {
                    step: Step { state: r.0, mode: r.2.mode, mana: r.1, ..rest },
                    fired: r.2.fired,
                    facing: self.player_facing,
                    turn: match r.2.mode {
                        PlayerMode::Turning(d) => HorizontalPlayerState { turn_direction: d, lerp: 0 },
                        _ => self.turn,
                    },
                }
            },
            PlayerMode::Moving => PlayerTick {
                step: moving_tick(
                    s,
                    ctx,
                    pos,
                    self.player_world_coord,
                    self.mana_color,
                    &self.mob_grid,
                ),
                fired: false,
                facing: self.player_facing,
                turn: self.turn,
            },
            PlayerMode::Falling => PlayerTick {
                step: falling_tick(
                    s,
                    ctx,
                    pos,
                    self.player_world_coord,
                    self.mana_color,
                    &self.level,
                    &self.mob_grid,
                    &self.mobs,
                ),
                fired: false,
                facing: self.player_facing,
                turn: self.turn,
            },
            PlayerMode::Turning(d) => {
                let lerp = progress_after(self.turn.lerp, ctx.frame_time, TURN_DURATION);
                let done = lerp == TURN_DURATION;
                PlayerTick {
                    step: Step {
                        mode: if done {
                            PlayerMode::Idle
                        } else {
                            PlayerMode::Turning(d)
                        },
                        ..rest
                    },
                    fired: false,
                    facing: if done {
                        (-self.player_facing) as i32
                    } else {
                        self.player_facing
                    },
                    turn: HorizontalPlayerState { lerp, ..self.turn },
                }
            },
        }
    }

    /// One tick of the player's state machine. See `player_tick`. The
    /// outcome says in which mode the player is now and whether the player
    /// shot; the bullet is for `shoot` to make.
    pub fn update_player(&mut self, ctx: TickContext, intent: Option<Intent>) -> (outcome: IdleOutcome)
        requires
            old(self).wf(),
        ensures
            final(self).wf(),
            ({
                let tick = old(self).player_tick(ctx, intent);
                &&& final(self).player_state == (PlayerState { mode: tick.step.mode, ..tick.step.state })
                &&& final(self).player_pos.position() == tick.step.pos
                &&& final(self).mob_grid.cells() == tick.step.cells
                &&& final(self).player_world_coord == tick.step.coord
                &&& final(self).mana_color == tick.step.mana
                &&& final(self).player_facing == tick.facing
                &&& final(self).turn == tick.turn
                &&& outcome == (IdleOutcome { mode: tick.step.mode, fired: tick.fired })
            }),
            final(self).level == old(self).level,
            final(self).mobs == old(self).mobs,
            final(self).player_hp == old(self).player_hp,
            final(self).player_max_hp == old(self).player_max_hp,
            final(self).fire_cooldown == old(self).fire_cooldown,
            final(self).collisions == old(self).collisions,
    {
        self.player_state.last_key_pressed = intent;
        let mut fired: bool = false;
        let mode: PlayerMode = match self.player_state.mode {
            PlayerMode::Idle => {
                let outcome = self.player_state.do_idle_state(
                    ctx,
                    self.player_facing,
                    &self.player_pos,
                    &self.level,
                    &self.mob_grid,
                    &self.mobs,
                    &mut self.mana_color,
                    self.fire_cooldown,
                );
                fired = outcome.fired;
                match outcome.mode {
                    PlayerMode::Turning(direction) => {
                        self.turn = HorizontalPlayerState::begin(direction);
                    },
                    _ => {},
                }
                outcome.mode
            },
            PlayerMode::Moving => self.player_state.do_moving_state(
                ctx,
                &mut self.player_pos,
                &mut self.player_world_coord,
                &mut self.mob_grid,
                &mut self.mana_color,
                &self.level,
            ),
            PlayerMode::Falling => self.player_state.do_falling_state(
                ctx,
                &mut self.player_pos,
                &mut self.player_world_coord,
                &mut self.mob_grid,
                &self.mobs,
                &self.level,
            ),
            PlayerMode::Turning(direction) => {
                if self.turn.player_do_180(ctx.frame_time) {
                    self.player_facing = -self.player_facing;
                    PlayerMode::Idle
                } else {
                    PlayerMode::Turning(direction)
                }
            },
        };
        self.player_state.mode = mode;
        IdleOutcome { mode, fired }
    }

    /// The player shoots: a bullet of the colour of the player's magic
    /// starts from the centre of the player's cell in direction `dir`, a
    /// vector of length `SUBCELLS`. Returns the slot of the bullet.
    pub fn shoot(&mut self, dir: WorldPos) -> (id: usize)
        requires
            old(self).wf(),
            -SUBCELLS <= dir.x <= SUBCELLS,
            -SUBCELLS <= dir.y <= SUBCELLS,
        ensures
            final(self).wf(),
            id == old(self).mobs.next_slot(),
            final(self).mobs.slots@ == old(self).mobs.slots_with(
                id as int,
                Mobs::fresh_bullet(
                    crate::sight::center(old(self).player_pos.position()),
                    dir,
                    old(self).mana_color,
                ),
            ),
            final(self).mobs.mob_list@ == old(self).mobs.mob_list@.push(id),
            final(self).level == old(self).level,
            final(self).mob_grid == old(self).mob_grid,
            final(self).player_pos == old(self).player_pos,
            final(self).player_state == old(self).player_state,
            final(self).turn == old(self).turn,
            final(self).player_facing == old(self).player_facing,
            final(self).mana_color == old(self).mana_color,
            final(self).player_hp == old(self).player_hp,
            final(self).player_max_hp == old(self).player_max_hp,
            final(self).player_world_coord == old(self).player_world_coord,
            final(self).fire_cooldown == old(self).fire_cooldown,
            final(self).collisions == old(self).collisions,
    {
        let ppos = WorldPos::center_of(self.player_pos.get_pos());
        let id = self.mobs.new_bullet(ppos, dir, self.mana_color);
        proof {
            let before = old(self).mobs;
            assert forall|j: int| #[trigger]
                self.mobs.holds(j) && self.mobs.mob(j).is_monster() implies 0 <= self.mobs.mob(
                j,
            ).pos.x < self.mob_grid.width() * SUBCELLS && 0 <= self.mobs.mob(j).pos.y
                <= self.mob_grid.height() * SUBCELLS by {
                assert(before.holds(j));
            }
        }
        id
    }

    /// The player stands in the win room.
    pub fn has_won(&self) -> (won: bool)
        ensures
            won <==> self.player_pos.position().x == self.level.win_room.0
                && self.player_pos.position().y == self.level.win_room.1,
    {
        let p = self.player_pos.get_pos();
        p.x >= 0 && p.y >= 0 && p.x as usize == self.level.win_room.0 && p.y as usize
            == self.level.win_room.1
    }

    /// The player has no hit points left.
    pub fn is_dead(&self) -> (dead: bool)
        ensures
            dead <==> self.player_hp <= 0,
    {
        self.player_hp <= 0
    }

    /// The rest of a frame, after the player's tick: the dead are swept;
    /// the billboards of the frame are made of the entities that are left;
    /// every entity on the roster has its tick, bullets as `move_bullets`
    /// and monsters as `animate_monster` says, in the order of the roster;
    /// the monsters' shots become bullets; the damage of the frame's
    /// collisions is done; and the player's weapon cools down.
    ///
    /// The game goes through the steps that `is_frame` names, and the
    /// billboards are those of the game after the sweep. The invariant of
    /// the game holds again afterwards. Nothing but the entities, the
    /// occupancy grid, the player's hit points and the cooldown of the
    /// weapon changes, and the player stays where the player is.
    pub fn update_world(
        &mut self,
        frame_time: u64,
        sprite_manager: &mut Sprites,
        flavor_start: usize,
        image_count: usize,
        flavor_scaling: &Vec<SpriteScale>,
    )
        requires
            old(self).wf(),
        ensures
            exists|swept: Game, ticked: Game, moments: Seq<Moment>, shots: Seq<Shot>|
                {
                    &&& #[trigger] is_frame(
                        old(self),
                        swept,
                        ticked,
                        moments,
                        shots,
                        final(self),
                        frame_time,
                    )
                    &&& final(sprite_manager).entries() == frame_billboards(
                        &swept,
                        flavor_start,
                        image_count,
                        flavor_scaling@,
                    )
                },
            final(sprite_manager).wf(),
            final(self).wf(),
            final(self).level == old(self).level,
            final(self).player_pos == old(self).player_pos,
            final(self).player_state == (PlayerState {
                fire_cooldown: if old(self).player_state.fire_cooldown <= frame_time {
                    0
                } else {
                    (old(self).player_state.fire_cooldown - frame_time) as u64
                },
                ..old(self).player_state
            }),
            final(self).turn == old(self).turn,
            final(self).player_facing == old(self).player_facing,
            final(self).mana_color == old(self).mana_color,
            final(self).player_max_hp == old(self).player_max_hp,
            final(self).player_world_coord == old(self).player_world_coord,
            final(self).fire_cooldown == old(self).fire_cooldown,
            final(self).collisions@.len() == 0,
    {
        self.sweep();
        let ghost swept = *self;
        rebuild_sprites(self, sprite_manager, flavor_start, image_count, flavor_scaling);
        let shots = self.animate_mobs(frame_time);
        let ghost ticked = *self;
        let ghost moments = choose|moments: Seq<Moment>| #[trigger]
            is_round(moments, &swept, &ticked, shots@, frame_time);
        self.spawn_shots(&shots);
        self.resolve_collisions();
        self.player_state.cool_weapon(frame_time);
        proof {
            assert(is_frame(old(self), swept, ticked, moments, shots@, self, frame_time));
        }
    }

    /// What a round of ticks changes, as the game has it, with the shots
    /// taken so far.
    pub open spec fn moment(&self, shots: Seq<Shot>) -> Moment {
        Moment { mobs: self.mobs, mob_grid: self.mob_grid, collisions: self.collisions@, shots }
    }

    /// Everything of the game but the entities, the occupancy grid, the
    /// collisions and the player's hit points is as in `other`.
    pub open spec fn same_player_as(&self, other: &Game) -> bool {
        &&& self.level == other.level
        &&& self.player_pos == other.player_pos
        &&& self.player_state == other.player_state
        &&& self.turn == other.turn
        &&& self.player_facing == other.player_facing
        &&& self.mana_color == other.mana_color
        &&& self.player_max_hp == other.player_max_hp
        &&& self.player_world_coord == other.player_world_coord
        &&& self.fire_cooldown == other.fire_cooldown
    }

    /// Sweeps the dead off the roster, out of their slots and off the
    /// occupancy grid. See `is_swept`.
    pub fn sweep(&mut self)
        requires
            old(self).wf(),
        ensures
            is_swept(old(self), final(self)),
            final(self).wf(),
            final(self).same_player_as(old(self)),
            final(self).player_hp == old(self).player_hp,
            final(self).collisions == old(self).collisions,
            final(self).mobs.mob_list@ == old(self).mobs.mob_list@.filter(
                old(self).mobs.alive_pred(),
            ),
            forall|id: int| #[trigger]
                final(self).mobs.holds(id) ==> final(self).mobs.mob(id).is_alive && old(self).mobs.holds(id) && final(self).mobs.mob(id) == old(self).mobs.mob(id),
    {
        self.mobs.delete_dead_mobs(&mut self.mob_grid);
        proof {
            let before = old(self);
            assert forall|i: int| 0 <= i < self.mob_grid.cells().len() implies (
            #[trigger] self.mob_grid.cells()[i] == MobId::Player <==> i == self.mob_grid.index_of(
                self.player_pos.position().x as int,
                self.player_pos.position().y as int,
            )) by {
                assert(before.mob_grid.cells()[i] == MobId::Player <==> i
                    == before.mob_grid.index_of(
                    before.player_pos.position().x as int,
                    before.player_pos.position().y as int,
                ));
                if before.mobs.has_corpse_at(&before.mob_grid, i) {
                    let d = choose|d: int| #[trigger]
                        before.mobs.is_corpse_on(&before.mob_grid, d) && before.mob_grid.index_of(
                            before.mobs.mob(d).cell().x as int,
                            before.mobs.mob(d).cell().y as int,
                        ) == i;
                    assert(before.mobs.holds(d) && before.mobs.mob(d).is_monster());
                    assert(before.mob_grid.lookup(
                        before.mobs.mob(d).cell().x as int,
                        before.mobs.mob(d).cell().y as int,
                    ) == Some(MobId::Mob(d as usize)));
                }
            }
            assert forall|j: int| #[trigger]
                self.mobs.holds(j) && self.mobs.mob(j).is_monster() implies 0 <= self.mobs.mob(
                j,
            ).pos.x < self.mob_grid.width() * SUBCELLS && 0 <= self.mobs.mob(j).pos.y
                <= self.mob_grid.height() * SUBCELLS by {
                assert(before.mobs.holds(j));
            }
            assert forall|id: int| #[trigger] self.mobs.holds(id) implies self.mobs.mob(
                id,
            ).is_alive && before.mobs.holds(id) && self.mobs.mob(id) == before.mobs.mob(id) by {
                assert(self.mobs.slots@[id] == (if before.mobs.holds(id) && !before.mobs.mob(
                    id,
                ).is_alive {
                    None
                } else {
                    before.mobs.slots@[id]
                }));
            }
        }
    }

    /// Gives every entity on the roster its tick, in the order of the
    /// roster, and returns the shots that the monsters take, in the order
    /// in which they take them.
    ///
    /// The round leads through moments as `is_round` says: each entity has
    /// its tick in the game as the ticks before it have left it. The
    /// invariant of the game holds again afterwards; the roster, the
    /// player, and the life and hit points of every monster are as they
    /// were, and no bullet comes to life.
    pub fn animate_mobs(&mut self, frame_time: u64) -> (shots: Vec<Shot>)
        requires
            old(self).wf(),
        ensures
            exists|moments: Seq<Moment>| #[trigger]
                is_round(moments, old(self), final(self), shots@, frame_time),
            final(self).wf(),
            final(self).same_player_as(old(self)),
            final(self).player_hp == old(self).player_hp,
            final(self).mobs.mob_list@ == old(self).mobs.mob_list@,
            final(self).mobs.slots@.len() == old(self).mobs.slots@.len(),
            forall|id: int| #[trigger] old(self).mobs.holds(id) ==> final(self).mobs.holds(id),
            forall|id: int|
                old(self).mobs.holds(id) ==> (#[trigger] final(self).mobs.mob(id).is_monster()
                    <==> old(self).mobs.mob(id).is_monster()),
            forall|id: int|
                old(self).mobs.holds(id) ==> (#[trigger] final(self).mobs.mob(id).is_alive ==> old(self).mobs.mob(id).is_alive),
            forall|id: int|
                old(self).mobs.holds(id) && old(self).mobs.mob(id).is_monster() ==> (
                #[trigger] final(self).mobs.mob(id)).hp == old(self).mobs.mob(id).hp && final(self).mobs.mob(id).is_alive == old(self).mobs.mob(id).is_alive,
            forall|i: int|
                0 <= i < shots@.len() ==> {
                    &&& -SUBCELLS <= (#[trigger] shots@[i]).dir.x <= SUBCELLS
                    &&& -SUBCELLS <= shots@[i].dir.y <= SUBCELLS
                    &&& 0 <= shots@[i].pos.x <= SPAWN_LIMIT
                    &&& 0 <= shots@[i].pos.y <= SPAWN_LIMIT
                },
    {
        let n: usize = self.mobs.mob_list.len();
        let mut shots: Vec<Shot> = Vec::new();
        let mut k: usize = 0;
        let ghost roster = self.mobs.mob_list@;
        let ghost mut moments: Seq<Moment> = seq![self.moment(Seq::empty())];
        while k < n
            invariant
                k <= n,
                n == roster.len(),
                moments.len() == k + 1,
                moments[0] == old(self).moment(Seq::empty()),
                moments[k as int] == self.moment(shots@),
                forall|i: int|
                    #![trigger moments[i]]
                    0 <= i < k ==> is_entity_tick(
                        old(self),
                        moments[i],
                        moments[i + 1],
                        roster[i] as int,
                        frame_time,
                    ),
                self.wf(),
                self.same_player_as(old(self)),
                self.player_hp == old(self).player_hp,
                self.mobs.mob_list@ == roster,
                roster == old(self).mobs.mob_list@,
                self.mobs.slots@.len() == old(self).mobs.slots@.len(),
                forall|id: int| #[trigger] old(self).mobs.holds(id) ==> self.mobs.holds(id),
                forall|id: int|
                    old(self).mobs.holds(id) ==> (#[trigger] self.mobs.mob(id).is_monster()
                        <==> old(self).mobs.mob(id).is_monster()),
                forall|id: int|
                    old(self).mobs.holds(id) ==> (#[trigger] self.mobs.mob(id).is_alive ==> old(self).mobs.mob(id).is_alive),
                forall|id: int|
                    old(self).mobs.holds(id) && old(self).mobs.mob(id).is_monster() ==> (
                    #[trigger] self.mobs.mob(id)).hp == old(self).mobs.mob(id).hp
                        && self.mobs.mob(id).is_alive == old(self).mobs.mob(id).is_alive,
                forall|i: int|
                    0 <= i < shots@.len() ==> {
                        &&& -SUBCELLS <= (#[trigger] shots@[i]).dir.x <= SUBCELLS
                        &&& -SUBCELLS <= shots@[i].dir.y <= SUBCELLS
                        &&& 0 <= shots@[i].pos.x <= SPAWN_LIMIT
                        &&& 0 <= shots@[i].pos.y <= SPAWN_LIMIT
                    },
            decreases n - k,
        {
            let id: usize = self.mobs.mob_list[k];
            assert(self.mobs.holds(roster[k as int] as int));
            let mob: MobData = self.mobs.get(id).unwrap();
            let ghost before = *self;
            let ghost earlier = moments;
            match mob.mob_type {
                MobType::Monster(_) => {
                    let shot = animate_monster(
                        &mut self.mobs,
                        id,
                        frame_time,
                        &self.level,
                        &mut self.mob_grid,
                        &self.player_pos,
                        self.player_world_coord,
                        self.mana_color,
                    );
                    match shot {
                        Some(s) => {
                            shots.push(s);
                        },
                        None => {},
                    }
                    proof {
                        let (coin, pick) = choose|coin: bool, pick: int| #[trigger]
                            is_monster_turn(
                                &before.mobs,
                                &before.mob_grid,
                                &self.mobs,
                                &self.mob_grid,
                                shot,
                                id as int,
                                frame_time,
                                &self.level,
                                self.player_pos.position(),
                                self.player_world_coord,
                                self.mana_color,
                                coin,
                                pick,
                            );
                        lemma_monster_ticked(
                            old(self),
                            earlier[k as int],
                            self.moment(shots@),
                            id as int,
                            frame_time,
                            coin,
                            pick,
                            shot,
                        );
                        assert forall|j: int| #[trigger] old(self).mobs.holds(j) implies self.mobs.holds(
                            j,
                        ) by {
                            assert(before.mobs.holds(j));
                            if j != id {
                                assert(self.mobs.slots@[j] == before.mobs.slots@[j]);
                            }
                        }
                        assert forall|j: int| old(self).mobs.holds(j) implies (
                        #[trigger] self.mobs.mob(j).is_monster() <==> old(self).mobs.mob(
                            j,
                        ).is_monster()) by {
                            assert(before.mobs.holds(j));
                            assert(before.mobs.mob(j).is_monster() <==> old(self).mobs.mob(
                                j,
                            ).is_monster());
                            if j != id {
                                assert(self.mobs.slots@[j] == before.mobs.slots@[j]);
                            }
                        }
                        assert forall|j: int|
                            old(self).mobs.holds(j) && (#[trigger] self.mobs.mob(j)).is_alive implies old(self).mobs.mob(j).is_alive by {
                            assert(before.mobs.holds(j));
                            assert(before.mobs.mob(j).is_alive ==> old(self).mobs.mob(j).is_alive);
                            if j != id {
                                assert(self.mobs.slots@[j] == before.mobs.slots@[j]);
                            }
                        }
                        assert forall|j: int|
                            old(self).mobs.holds(j) && old(self).mobs.mob(j).is_monster() implies (
                        #[trigger] self.mobs.mob(j)).hp == old(self).mobs.mob(j).hp
                            && self.mobs.mob(j).is_alive == old(self).mobs.mob(j).is_alive by {
                            assert(before.mobs.holds(j));
                            assert(before.mobs.mob(j).is_monster());
                            assert(before.mobs.mob(j).hp == old(self).mobs.mob(j).hp);
                            if j != id {
                                assert(self.mobs.slots@[j] == before.mobs.slots@[j]);
                            }
                        }
                    }
                },
                MobType::Bullet => {
                    let mut bullet = mob;
                    move_bullets(
                        &mut bullet,
                        frame_time,
                        &self.level,
                        &self.mob_grid,
                        &self.mobs,
                        &mut self.collisions,
                    );
                    self.mobs.replace(id, bullet);
                    proof {
                        lemma_bullet_ticked(
                            old(self),
                            earlier[k as int],
                            self.moment(shots@),
                            id as int,
                            frame_time,
                        );
                        before.mobs.lemma_replace_keeps_agreement(
                            &self.mobs,
                            &self.mob_grid,
                            id as int,
                            bullet,
                        );
                        assert forall|j: int| #[trigger]
                            self.mobs.holds(j) && self.mobs.mob(j).is_monster() implies 0
                            <= self.mobs.mob(j).pos.x < self.mob_grid.width() * SUBCELLS && 0
                            <= self.mobs.mob(j).pos.y <= self.mob_grid.height() * SUBCELLS by {
                            assert(before.mobs.holds(j));
                        }
                        assert forall|j: int| #[trigger] old(self).mobs.holds(j) implies self.mobs.holds(
                            j,
                        ) by {
                            assert(before.mobs.holds(j));
                        }
                        assert forall|j: int| old(self).mobs.holds(j) implies (
                        #[trigger] self.mobs.mob(j).is_monster() <==> old(self).mobs.mob(
                            j,
                        ).is_monster()) by {
                            assert(before.mobs.holds(j));
                            assert(before.mobs.mob(j).is_monster() <==> old(self).mobs.mob(
                                j,
                            ).is_monster());
                        }
                        assert forall|j: int|
                            old(self).mobs.holds(j) && (#[trigger] self.mobs.mob(j)).is_alive implies old(self).mobs.mob(j).is_alive by {
                            assert(before.mobs.holds(j));
                            assert(before.mobs.mob(j).is_alive ==> old(self).mobs.mob(j).is_alive);
                        }
                        assert forall|j: int|
                            old(self).mobs.holds(j) && old(self).mobs.mob(j).is_monster() implies (
                        #[trigger] self.mobs.mob(j)).hp == old(self).mobs.mob(j).hp
                            && self.mobs.mob(j).is_alive == old(self).mobs.mob(j).is_alive by {
                            assert(before.mobs.holds(j));
                            assert(before.mobs.mob(j).is_monster());
                            assert(j != id);
                        }
                    }
                },
            }
            proof {
                moments = earlier.push(self.moment(shots@));
                assert forall|i: int|
                    #![trigger moments[i]]
                    0 <= i < k + 1 implies is_entity_tick(
                    old(self),
                    moments[i],
                    moments[i + 1],
                    roster[i] as int,
                    frame_time,
                ) by {
                    if i < k {
                        assert(moments[i] == earlier[i]);
                        assert(moments[i + 1] == earlier[i + 1]);
                    }
                }
            }
            k += 1;
        }
        proof {
            assert(is_round(moments, old(self), self, shots@, frame_time));
        }
        shots
    }

    /// Makes the bullets of the monsters' shots, in the order of the shots.
    /// See `with_bullets`.
    pub fn spawn_shots(&mut self, shots: &Vec<Shot>)
        requires
            old(self).wf(),
            forall|i: int|
                0 <= i < shots@.len() ==> {
                    &&& -SUBCELLS <= (#[trigger] shots@[i]).dir.x <= SUBCELLS
                    &&& -SUBCELLS <= shots@[i].dir.y <= SUBCELLS
                    &&& -SPAWN_LIMIT <= shots@[i].pos.x <= SPAWN_LIMIT
                    &&& -SPAWN_LIMIT <= shots@[i].pos.y <= SPAWN_LIMIT
                },
        ensures
            final(self).wf(),
            final(self).same_player_as(old(self)),
            final(self).player_hp == old(self).player_hp,
            final(self).collisions == old(self).collisions,
            final(self).mob_grid == old(self).mob_grid,
            (final(self).mobs.slots@, final(self).mobs.mob_list@) == with_bullets(
                old(self).mobs.slots@,
                old(self).mobs.mob_list@,
                shots@,
                shots@.len() as int,
            ),
            final(self).mobs.mob_list@.len() == old(self).mobs.mob_list@.len() + shots@.len(),
    {
        let n: usize = shots.len();
        let mut j: usize = 0;
        while j < n
            invariant
                j <= n,
                n == shots@.len(),
                self.wf(),
                self.same_player_as(old(self)),
                self.player_hp == old(self).player_hp,
                self.collisions == old(self).collisions,
                self.mob_grid == old(self).mob_grid,
                (self.mobs.slots@, self.mobs.mob_list@) == with_bullets(
                    old(self).mobs.slots@,
                    old(self).mobs.mob_list@,
                    shots@,
                    j as int,
                ),
                self.mobs.mob_list@.len() == old(self).mobs.mob_list@.len() + j,
                forall|i: int|
                    0 <= i < shots@.len() ==> {
                        &&& -SUBCELLS <= (#[trigger] shots@[i]).dir.x <= SUBCELLS
                        &&& -SUBCELLS <= shots@[i].dir.y <= SUBCELLS
                        &&& -SPAWN_LIMIT <= shots@[i].pos.x <= SPAWN_LIMIT
                        &&& -SPAWN_LIMIT <= shots@[i].pos.y <= SPAWN_LIMIT
                    },
            decreases n - j,
        {
            let s: Shot = shots[j];
            let ghost before = self.mobs;
            let id = self.mobs.new_bullet(s.pos, s.dir, s.color);
            proof {
                before.lemma_next_slot_is_first_free(id as int);
                assert forall|i: int| #[trigger]
                    self.mobs.holds(i) && self.mobs.mob(i).is_monster() implies 0 <= self.mobs.mob(
                    i,
                ).pos.x < self.mob_grid.width() * SUBCELLS && 0 <= self.mobs.mob(i).pos.y
                    <= self.mob_grid.height() * SUBCELLS by {
                    assert(before.holds(i));
                }
            }
            j += 1;
        }
    }

    /// Does the damage of the collisions of the frame, in their order, and
    /// forgets them. See `damaged_by`.
    pub fn resolve_collisions(&mut self)
        requires
            old(self).wf(),
        ensures
            final(self).wf(),
            final(self).same_player_as(old(self)),
            final(self).mob_grid == old(self).mob_grid,
            final(self).mobs.mob_list@ == old(self).mobs.mob_list@,
            (final(self).mobs.slots@, final(self).player_hp) == damaged_by(
                old(self).mobs.slots@,
                old(self).player_hp,
                old(self).collisions@,
                old(self).collisions@.len() as int,
                old(self).player_max_hp,
                old(self).mana_color,
            ),
            final(self).collisions@.len() == 0,
    {
        let n: usize = self.collisions.len();
        let mut c: usize = 0;
        while c < n
            invariant
                c <= n,
                n == self.collisions@.len(),
                self.wf(),
                self.same_player_as(old(self)),
                self.mob_grid == old(self).mob_grid,
                self.mobs.mob_list@ == old(self).mobs.mob_list@,
                self.collisions == old(self).collisions,
                (self.mobs.slots@, self.player_hp) == damaged_by(
                    old(self).mobs.slots@,
                    old(self).player_hp,
                    old(self).collisions@,
                    c as int,
                    old(self).player_max_hp,
                    old(self).mana_color,
                ),
            decreases n - c,
        {
            let collision: Collision = self.collisions[c];
            let ghost before = self.mobs;
            let _ = collision.damage_target(
                &mut self.mobs,
                &mut self.player_hp,
                self.player_max_hp,
                self.mana_color,
            );
            proof {
                assert forall|i: int| #[trigger]
                    self.mobs.holds(i) && self.mobs.mob(i).is_monster() implies 0 <= self.mobs.mob(
                    i,
                ).pos.x < self.mob_grid.width() * SUBCELLS && 0 <= self.mobs.mob(i).pos.y
                    <= self.mob_grid.height() * SUBCELLS by {
                    assert(before.holds(i));
                }
            }
            c += 1;
        }
        self.collisions.clear();
    }
}

} // verus!
