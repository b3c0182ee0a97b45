//! The player's state machine: idle, moving, falling and turning, driven by
//! one tick context per frame.

use vstd::prelude::*;
use crate::coords::{GridCoord, WorldPos, SUBCELLS};
use crate::grid2d::Grid2D;
use crate::level::{
    apply_boundary_conditions_i32, apply_boundary_conditions_world, boundary_cell, boundary_point,
    Level,
};
use crate::mob::{MagicColor, MobId, Mobs};
use crate::player_movement::{
    floored, has_floor, is_supported_position, move_result, moved_cells, set_pos_verdict,
    supported, try_move, MoveDirection, PlayerPosition,
};

verus! {

/// How long a step from one cell to the next takes, in microseconds.
pub const MOVE_DURATION: u64 = 250_000;

/// How long a fall from one cell to the next takes, in microseconds.
pub const FALL_DURATION: u64 = 125_000;

/// How long a turn about takes, in microseconds.
pub const TURN_DURATION: u64 = 350_000;

/// Largest pitch limit, in microseconds of looking.
pub const LOOK_LIMIT: i64 = 1_000_000_000;

/// What the player asked for with the last key.
#[derive(Clone, Copy, PartialEq, Eq, Structural, Debug)]
pub enum Intent {
    TurnLeft,
    TurnRight,
    WalkForward,
    WalkBackward,
    ClimbUp,
    ClimbDown,
    Attack,
    SwapColor,
    Other,
}

/// What one tick brings: the time since the last tick, in microseconds, and
/// which of the keys for looking up and down are held.
#[derive(Clone, Copy, PartialEq, Eq, Structural, Debug)]
pub struct TickContext {
    pub frame_time: u64,
    pub look_up_held: bool,
    pub look_down_held: bool,
}

/// The mode of the player. A turn goes to the left (-1) or the right (1).
#[derive(Clone, Copy, PartialEq, Eq, Structural, Debug)]
pub enum PlayerMode {
    Idle,
    Moving,
    Falling,
    Turning(i32),
}

/// The state of the player between ticks.
#[derive(Clone, Copy, Debug)]
pub struct PlayerState {
    pub last_key_pressed: Option<Intent>,
    pub mode: PlayerMode,
    /// The pitch of the view, as the time in microseconds for which the
    /// player has looked up from level; negative (or down).
    pub look_rotation: i64,
    /// The pitch never exceeds this,
    pub look_up_max: i64,
    /// and never falls below the negative of this.
    pub look_down_max: i64,
    /// Time until the player may shoot again, in microseconds.
    pub fire_cooldown: u64,
    /// The cell that the player is on the way to.
    pub new_player_pos: Option<(i32, i32)>,
    /// Time spent on the way, in microseconds.
    pub lerp: u64,
}

/// What a tick in the idle state came to: the next mode, and whether the
/// player shot.
#[derive(Clone, Copy, PartialEq, Eq, Structural, Debug)]
pub struct IdleOutcome {
    pub mode: PlayerMode,
    pub fired: bool,
}

/// The pitch after a tick: looking up raises it, looking down lowers it, by
/// the time of the tick, within the limits.
pub open spec fn look_after(s: PlayerState, ctx: TickContext) -> i64 {
    if ctx.look_up_held {
        if s.look_rotation + ctx.frame_time > s.look_up_max {
            s.look_up_max
        } else {
            (s.look_rotation + ctx.frame_time) as i64
        }
    } else if ctx.look_down_held {
        if s.look_rotation - ctx.frame_time < -s.look_down_max {
            (-s.look_down_max) as i64
        } else {
            (s.look_rotation - ctx.frame_time) as i64
        }
    } else {
        s.look_rotation
    }
}

/// The time spent on the way after a tick: it grows by the time of the tick
/// and stops at `duration`.
pub open spec fn progress_after(lerp: u64, frame_time: u64, duration: u64) -> u64 {
    if lerp + frame_time >= duration {
        duration
    } else {
        (lerp + frame_time) as u64
    }
}

/// The time spent on the way after `ticks` ticks of `frame_time` each.
pub open spec fn progress_after_ticks(lerp: u64, frame_time: u64, duration: u64, ticks: nat) -> u64
    decreases ticks,
{
    if ticks == 0 {
        lerp
    } else {
        progress_after(
            progress_after_ticks(lerp, frame_time, duration, (ticks - 1) as nat),
            frame_time,
            duration,
        )
    }
}

/// The point on the way from the centre of `from` to the centre of `to` at
/// which an entity is after `lerp` of `duration` microseconds, before the
/// boundary conditions of the world are applied.
pub open spec fn point_on_way(from: GridCoord, to: GridCoord, lerp: u64, duration: u64) -> WorldPos {
    WorldPos {
        x: (from.x * SUBCELLS + SUBCELLS / 2 + ((to.x - from.x) * SUBCELLS * lerp) / (
        duration as int)) as i64,
        y: (from.y * SUBCELLS + SUBCELLS / 2 + ((to.y - from.y) * SUBCELLS * lerp) / (
        duration as int)) as i64,
    }
}

/// The key leads to a walk or a climb in this direction.
pub open spec fn move_of(key: Intent) -> Option<MoveDirection> {
    match key {
        Intent::WalkForward => Some(MoveDirection::WalkForward),
        Intent::WalkBackward => Some(MoveDirection::WalkBackward),
        Intent::ClimbUp => Some(MoveDirection::ClimbUp),
        Intent::ClimbDown => Some(MoveDirection::ClimbDown),
        _ => None,
    }
}

/// The player at `pos` falls: nothing supports the position, and no living
/// entity stands in the cell below.
pub open spec fn must_fall(
    pos: GridCoord,
    level: &Level,
    mob_grid: &Grid2D<MobId>,
    mobs: &Mobs,
) -> bool {
    !supported(level, pos.x as int, pos.y as int) && !mobs.living_at(mob_grid, pos.shifted(0, 1))
}

/// What a tick in the idle state does to the state of the player and the
/// colour of the player's magic, and what it comes to.
///
/// A player who must fall starts to fall, whatever the key. Else the view
/// follows the held keys, and then the key decides. A turn key levels the
/// view and starts a turn. A walk key levels a view that is not level and
/// does no more; with a level view it starts the move that `try_move`
/// allows. A climb key starts the climb that `try_move` allows. The attack
/// key shoots if the cooldown has run out, and starts it again. The swap
/// key swaps the colour.
pub open spec fn idle_tick(
    s: PlayerState,
    ctx: TickContext,
    facing: i32,
    pos: GridCoord,
    level: &Level,
    mob_grid: &Grid2D<MobId>,
    mobs: &Mobs,
    mana_color: MagicColor,
    fire_cooldown: u64,
) -> (PlayerState, MagicColor, IdleOutcome) {
    let rest = IdleOutcome { mode: PlayerMode::Idle, fired: false };
    if must_fall(pos, level, mob_grid, mobs) {
        (
            PlayerState { new_player_pos: None, ..s },
            mana_color,
            IdleOutcome { mode: PlayerMode::Falling, fired: false },
        )
    } else {
        let looked = PlayerState { new_player_pos: None, look_rotation: look_after(s, ctx), ..s };
        let level_view = PlayerState { look_rotation: 0, ..looked };
        match s.last_key_pressed {
            None => (looked, mana_color, rest),
            Some(Intent::TurnLeft) => (
                level_view,
                mana_color,
                IdleOutcome { mode: PlayerMode::Turning(-1i32), fired: false },
            ),
            Some(Intent::TurnRight) => (
                level_view,
                mana_color,
                IdleOutcome { mode: PlayerMode::Turning(1), fired: false },
            ),
            Some(Intent::Attack) => if looked.fire_cooldown == 0 {
                (
                    PlayerState { fire_cooldown, ..looked },
                    mana_color,
                    IdleOutcome { mode: PlayerMode::Idle, fired: true },
                )
            } else {
                (looked, mana_color, rest)
            },
            Some(Intent::SwapColor) => (looked, mana_color.opposite(), rest),
            Some(Intent::Other) => (looked, mana_color, rest),
            Some(key) => {
                let dir = move_of(key).unwrap();
                let walks = dir == MoveDirection::WalkForward || dir == MoveDirection::WalkBackward;
                if walks && looked.look_rotation != 0 {
                    (level_view, mana_color, rest)
                } else {
                    match move_result(pos, dir, facing, level, mob_grid) {
                        Some(target) => (
                            PlayerState {
                                new_player_pos: Some((target.x, target.y)),
                                lerp: 0,
                                ..looked
                            },
                            mana_color,
                            IdleOutcome { mode: PlayerMode::Moving, fired: false },
                        ),
                        None => (looked, mana_color, rest),
                    }
                }
            },
        }
    }
}

/// Where a player in the cell at `pos` falls to next: into the cell below,
/// one cell and no more, unless a floor or a living entity below stops the
/// fall.
pub open spec fn fall_target(
    pos: GridCoord,
    level: &Level,
    mob_grid: &Grid2D<MobId>,
    mobs: &Mobs,
) -> Option<GridCoord> {
    if floored(level, pos) || mobs.living_at(mob_grid, pos.shifted(0, 1)) {
        None
    } else {
        Some(pos.shifted(0, 1))
    }
}

/// The cell of the player after an attempt to arrive at `target`: the cell
/// that the boundary conditions make of `target` if `try_set_pos` allows it,
/// the old cell if not.
pub open spec fn arrival(pos: GridCoord, target: GridCoord, mob_grid: &Grid2D<MobId>) -> GridCoord {
    let cell = boundary_cell(target, (mob_grid.width() as usize, mob_grid.height() as usize));
    if set_pos_verdict(pos, cell, mob_grid) is Ok {
        cell
    } else {
        pos
    }
}

/// The occupancy grid after an attempt of the player to arrive at `target`.
pub open spec fn arrival_cells(pos: GridCoord, target: GridCoord, mob_grid: &Grid2D<MobId>) -> Seq<
    MobId,
> {
    let cell = boundary_cell(target, (mob_grid.width() as usize, mob_grid.height() as usize));
    if set_pos_verdict(pos, cell, mob_grid) is Ok {
        moved_cells(mob_grid, pos, cell)
    } else {
        mob_grid.cells()
    }
}

/// Two cells are the same or neighbours, diagonal ones included.
pub open spec fn close_by(a: GridCoord, b: (i32, i32)) -> bool {
    -1 <= b.0 - a.x <= 1 && -1 <= b.1 - a.y <= 1
}

/// Everything that a tick of the player's state machine can change: the
/// state and the mode of the player, the cell of the player and the
/// occupancy grid, the player's place in the world, and the colour of the
/// player's magic.
pub struct Step {
    pub state: PlayerState,
    pub mode: PlayerMode,
    pub pos: GridCoord,
    pub cells: Seq<MobId>,
    pub coord: WorldPos,
    pub mana: MagicColor,
}

/// What a tick does to a player who is moving.
///
/// A player without a target is idle again and nothing changes. Else the
/// way goes on for the time of the tick, and the player's place in the
/// world follows. A player who has arrived is committed to the target,
/// unless somebody else has taken it, and is idle again. On the way the
/// swap key still swaps the colour.
pub open spec fn moving_tick(
    s: PlayerState,
    ctx: TickContext,
    pos: GridCoord,
    coord: WorldPos,
    mana: MagicColor,
    mob_grid: &Grid2D<MobId>,
) -> Step {
    match s.new_player_pos {
        None => Step { state: s, mode: PlayerMode::Idle, pos, cells: mob_grid.cells(), coord, mana },
        Some(t) => {
            let target = GridCoord { x: t.0, y: t.1 };
            let lerp = progress_after(s.lerp, ctx.frame_time, MOVE_DURATION);
            let size = (mob_grid.width() as usize, mob_grid.height() as usize);
            let coord = boundary_point(point_on_way(pos, target, lerp, MOVE_DURATION), size);
            if lerp == MOVE_DURATION {
                Step {
                    state: PlayerState { lerp, new_player_pos: None, ..s },
                    mode: PlayerMode::Idle,
                    pos: arrival(pos, target, mob_grid),
                    cells: arrival_cells(pos, target, mob_grid),
                    coord,
                    mana,
                }
            } else {
                Step {
                    state: PlayerState { lerp, ..s },
                    mode: PlayerMode::Moving,
                    pos,
                    cells: mob_grid.cells(),
                    coord,
                    mana: if s.last_key_pressed == Some(Intent::SwapColor) {
                        mana.opposite()
                    } else {
                        mana
                    },
                }
            }
        },
    }
}

/// What a tick does to a player who is falling.
///
/// The view follows the held keys. A player who is not on the way down
/// comes to rest if a floor or a living entity below stops the fall, and else
/// sets out for the cell below. A player on the way down goes on for the
/// time of the tick and on arrival is committed to the new cell, unless
/// somebody else has taken it; the player keeps falling, to look for a
/// floor again at the next tick.
pub open spec fn falling_tick(
    s: PlayerState,
    ctx: TickContext,
    pos: GridCoord,
    coord: WorldPos,
    mana: MagicColor,
    level: &Level,
    mob_grid: &Grid2D<MobId>,
    mobs: &Mobs,
) -> Step {
    let looked = PlayerState { look_rotation: look_after(s, ctx), ..s };
    match s.new_player_pos {
        None => match fall_target(pos, level, mob_grid, mobs) {
            None => Step {
                state: looked,
                mode: PlayerMode::Idle,
                pos,
                cells: mob_grid.cells(),
                coord,
                mana,
            },
            Some(below) => Step {
                state: PlayerState { new_player_pos: Some((below.x, below.y)), lerp: 0, ..looked },
                mode: PlayerMode::Falling,
                pos,
                cells: mob_grid.cells(),
                coord,
                mana,
            },
        },
        Some(t) => {
            let target = GridCoord { x: t.0, y: t.1 };
            let lerp = progress_after(s.lerp, ctx.frame_time, FALL_DURATION);
            let size = (mob_grid.width() as usize, mob_grid.height() as usize);
            let coord = boundary_point(point_on_way(pos, target, lerp, FALL_DURATION), size);
            if lerp == FALL_DURATION {
                Step {
                    state: PlayerState { lerp, new_player_pos: None, ..looked },
                    mode: PlayerMode::Falling,
                    pos: arrival(pos, target, mob_grid),
                    cells: arrival_cells(pos, target, mob_grid),
                    coord,
                    mana,
                }
            } else {
                Step {
                    state: PlayerState { lerp, ..looked },
                    mode: PlayerMode::Falling,
                    pos,
                    cells: mob_grid.cells(),
                    coord,
                    mana,
                }
            }
        },
    }
}

impl PlayerState {
    /// The limits of the pitch are in range, and the pitch is within them.
    pub open spec fn wf(self) -> bool {
        &&& 0 <= self.look_up_max <= LOOK_LIMIT
        &&& 0 <= self.look_down_max <= LOOK_LIMIT
        &&& -self.look_down_max <= self.look_rotation <= self.look_up_max
    }

    /// A player at rest who looks straight ahead and may shoot.
    pub fn new(look_up_max: i64, look_down_max: i64) -> (s: PlayerState)
        requires
            0 <= look_up_max <= LOOK_LIMIT,
            0 <= look_down_max <= LOOK_LIMIT,
        ensures
            s.wf(),
            s.last_key_pressed is None,
            s.mode == PlayerMode::Idle,
            s.look_rotation == 0,
            s.look_up_max == look_up_max,
            s.look_down_max == look_down_max,
            s.fire_cooldown == 0,
            s.new_player_pos is None,
            s.lerp == 0,
    {
        PlayerState {
            last_key_pressed: None,
            mode: PlayerMode::Idle,
            look_rotation: 0,
            look_up_max,
            look_down_max,
            fire_cooldown: 0,
            new_player_pos: None,
            lerp: 0,
        }
    }

    /// Lets the view follow the keys for looking up and down.
    pub fn player_look(&mut self, ctx: TickContext)
        requires
            old(self).wf(),
        ensures
            *final(self) == (PlayerState { look_rotation: look_after(*old(self), ctx), ..*old(self) }),
            final(self).wf(),
    {
        if ctx.look_up_held {
            let room: i64 = self.look_up_max - self.look_rotation;
            if ctx.frame_time > room as u64 {
                self.look_rotation = self.look_up_max;
            } else {
                self.look_rotation = self.look_rotation + ctx.frame_time as i64;
            }
        } else if ctx.look_down_held {
            let room: i64 = self.look_rotation + self.look_down_max;
            if ctx.frame_time > room as u64 {
                self.look_rotation = -self.look_down_max;
            } else {
                self.look_rotation = self.look_rotation - ctx.frame_time as i64;
            }
        }
    }

    /// Lets the time of a tick pass for the cooldown of the player's
    /// weapon, which stops at zero.
    pub fn cool_weapon(&mut self, frame_time: u64)
        ensures
            *final(self) == (PlayerState {
                fire_cooldown: if old(self).fire_cooldown <= frame_time {
                    0
                } else {
                    (old(self).fire_cooldown - frame_time) as u64
                },
                ..*old(self)
            }),
    {
        self.fire_cooldown = if self.fire_cooldown <= frame_time {
            0
        } else {
            self.fire_cooldown - frame_time
        };
    }

    /// One tick of a player at rest in a cell of the grid. See `idle_tick`.
    pub fn do_idle_state(
        &mut self,
        ctx: TickContext,
        player_facing: i32,
        player_pos: &PlayerPosition,
        level: &Level,
        mob_grid: &Grid2D<MobId>,
        mobs: &Mobs,
        mana_color: &mut MagicColor,
        fire_cooldown: u64,
    ) -> (outcome: IdleOutcome)
        requires
            old(self).wf(),
            player_facing == 1 || player_facing == -1,
            level.grid.wf(),
            mob_grid.wf(),
            level.grid.in_rows(player_pos.position().y as int),
            i32::MIN < player_pos.position().x < i32::MAX,
        ensures
            (*final(self), *final(mana_color), outcome) == idle_tick(
                *old(self),
                ctx,
                player_facing,
                player_pos.position(),
                level,
                mob_grid,
                mobs,
                *old(mana_color),
                fire_cooldown,
            ),
            final(self).wf(),
    {
        let pos = player_pos.get_pos();
        self.new_player_pos = None;
        let standing_on_mob: bool = mobs.is_living_at(pos.offset(0, 1), mob_grid);
        if !is_supported_position(pos, level) && !standing_on_mob {
            return IdleOutcome { mode: PlayerMode::Falling, fired: false };
        }
        self.player_look(ctx);
        let mut fired: bool = false;
        let next_state: PlayerMode = match self.last_key_pressed {
            None => PlayerMode::Idle,
            Some(key) => match key {
                Intent::TurnLeft => {
                    self.look_rotation = 0;
                    PlayerMode::Turning(-1)
                },
                Intent::TurnRight => {
                    self.look_rotation = 0;
                    PlayerMode::Turning(1)
                },
                Intent::WalkForward => {
                    if self.look_rotation != 0 {
                        self.look_rotation = 0;
                        PlayerMode::Idle
                    } else {
                        self.start_move(pos, MoveDirection::WalkForward, player_facing, level, mob_grid)
                    }
                },
                Intent::WalkBackward => {
                    if self.look_rotation != 0 {
                        self.look_rotation = 0;
                        PlayerMode::Idle
                    } else {
                        self.start_move(pos, MoveDirection::WalkBackward, player_facing, level, mob_grid)
                    }
                },
                Intent::ClimbUp => {
                    self.start_move(pos, MoveDirection::ClimbUp, player_facing, level, mob_grid)
                },
                Intent::ClimbDown => {
                    self.start_move(pos, MoveDirection::ClimbDown, player_facing, level, mob_grid)
                },
                Intent::Attack => {
                    if self.fire_cooldown == 0 {
                        self.fire_cooldown = fire_cooldown;
                        fired = true;
                    }
                    PlayerMode::Idle
                },
                Intent::SwapColor => {
                    *mana_color = mana_color.get_opposite();
                    PlayerMode::Idle
                },
                Intent::Other => PlayerMode::Idle,
            },
        };
        IdleOutcome { mode: next_state, fired }
    }

    /// The cell that the player is on the way to, if any, is the player's
    /// own or next to it.
    pub open spec fn on_course(self, pos: GridCoord) -> bool {
        self.new_player_pos matches Some(t) ==> close_by(pos, t)
    }

    /// Moves the player along the way to `target` by the time of the tick
    /// and says whether the player has arrived.
    fn advance(
        &mut self,
        frame_time: u64,
        duration: u64,
        from: GridCoord,
        target: (i32, i32),
        player_world_coord: &mut WorldPos,
        world_size: (usize, usize),
    ) -> (arrived: bool)
        requires
            close_by(from, target),
            0 < duration <= 1_000_000,
            0 < world_size.0 <= i32::MAX,
            0 < world_size.1 <= i32::MAX,
        ensures
            *final(self) == (PlayerState {
                lerp: progress_after(old(self).lerp, frame_time, duration),
                ..*old(self)
            }),
            arrived <==> final(self).lerp == duration,
            *final(player_world_coord) == boundary_point(
                point_on_way(
                    from,
                    GridCoord { x: target.0, y: target.1 },
                    final(self).lerp,
                    duration,
                ),
                world_size,
            ),
    {
        let room: u64 = if self.lerp >= duration {
            0
        } else {
            duration - self.lerp
        };
        self.lerp = if frame_time >= room {
            duration
        } else {
            self.lerp + frame_time
        };
        let f: i64 = SUBCELLS;
        let t: i64 = self.lerp as i64;
        let d: i64 = duration as i64;
        let step_x: i64 = target.0 as i64 - from.x as i64;
        let step_y: i64 = target.1 as i64 - from.y as i64;
        proof {
            let big = f * 1_000_000;
            assert(-big <= step_x * f * t <= big) by (nonlinear_arith)
                requires
                    -1 <= step_x <= 1,
                    0 <= t <= 1_000_000,
                    f == 65536,
                    big == f * 1_000_000,
            ;
            assert(-big <= step_y * f * t <= big) by (nonlinear_arith)
                requires
                    -1 <= step_y <= 1,
                    0 <= t <= 1_000_000,
                    f == 65536,
                    big == f * 1_000_000,
            ;
            assert((-big) * d <= -big && big + 1 <= (big + 1) * d) by (nonlinear_arith)
                requires
                    d >= 1,
                    big >= 0,
            ;
            crate::coords::lemma_div_bounds(step_x * f * t, d as int, -big, big + 1);
            crate::coords::lemma_div_bounds(step_y * f * t, d as int, -big, big + 1);
        }
        let upc = WorldPos {
            x: (from.x as i64) * f + f / 2 + crate::coords::floor_div(step_x * f * t, d),
            y: (from.y as i64) * f + f / 2 + crate::coords::floor_div(step_y * f * t, d),
        };
        *player_world_coord = apply_boundary_conditions_world(upc, world_size);
        self.lerp == duration
    }

    /// One tick of a player on the way to the next cell: the way goes on
    /// for the time of the tick; a player who has arrived is committed to
    /// the new cell, unless somebody else has taken it, and is idle again.
    /// On the way the swap key still swaps the colour.
    pub fn do_moving_state(
        &mut self,
        ctx: TickContext,
        player_pos: &mut PlayerPosition,
        player_world_coord: &mut WorldPos,
        mob_grid: &mut Grid2D<MobId>,
        mana_color: &mut MagicColor,
        level: &Level,
    ) -> (mode: PlayerMode)
        requires
            level.grid.wf(),
            old(mob_grid).wf(),
            old(mob_grid).width() == level.grid.width(),
            old(mob_grid).height() == level.grid.height(),
            old(self).on_course(old(player_pos).position()),
        ensures
            final(mob_grid).wf(),
            final(mob_grid).width() == old(mob_grid).width(),
            final(mob_grid).height() == old(mob_grid).height(),
            (Step {
                state: *final(self),
                mode,
                pos: final(player_pos).position(),
                cells: final(mob_grid).cells(),
                coord: *final(player_world_coord),
                mana: *final(mana_color),
            }) == moving_tick(
                *old(self),
                ctx,
                old(player_pos).position(),
                *old(player_world_coord),
                *old(mana_color),
                old(mob_grid),
            ),
            final(self).on_course(final(player_pos).position()),
            old(player_pos).marked_on(old(mob_grid)) ==> final(player_pos).marked_on(final(mob_grid)),
            forall|mobs: Mobs|
                old(player_pos).marked_on(old(mob_grid)) && mobs.agrees_with(old(mob_grid))
                    ==> #[trigger] mobs.agrees_with(final(mob_grid)),
    {
        match self.new_player_pos {
            None => PlayerMode::Idle,
            Some(x) => {
                let p = player_pos.get_pos();
                let size = level.grid.get_size();
                let arrived: bool = self.advance(
                    ctx.frame_time,
                    MOVE_DURATION,
                    p,
                    x,
                    player_world_coord,
                    size,
                );
                if arrived {
                    let nc = apply_boundary_conditions_i32(GridCoord { x: x.0, y: x.1 }, size);
                    let _ = player_pos.set_pos(nc, mob_grid);
                    self.new_player_pos = None;
                    PlayerMode::Idle
                } else {
                    match self.last_key_pressed {
                        Some(Intent::SwapColor) => {
                            *mana_color = mana_color.get_opposite();
                        },
                        _ => {},
                    }
                    PlayerMode::Moving
                }
            },
        }
    }

    /// One tick of a falling player in a cell of the grid. The view follows
    /// the held keys. A player who is not on the way down comes to rest if
    /// a floor or a monster below stops the fall, and else sets out for the
    /// cell below. A player on the way down goes on for the time of the
    /// tick and on arrival is committed to the new cell, unless somebody
    /// else has taken it; the player keeps falling, to look for a floor
    /// again at the next tick.
    pub fn do_falling_state(
        &mut self,
        ctx: TickContext,
        player_pos: &mut PlayerPosition,
        player_world_coord: &mut WorldPos,
        mob_grid: &mut Grid2D<MobId>,
        mobs: &Mobs,
        level: &Level,
    ) -> (mode: PlayerMode)
        requires
            old(self).wf(),
            level.grid.wf(),
            old(mob_grid).wf(),
            old(mob_grid).width() == level.grid.width(),
            old(mob_grid).height() == level.grid.height(),
            old(self).on_course(old(player_pos).position()),
            old(player_pos).position().y < i32::MAX,
        ensures
            final(self).wf(),
            final(mob_grid).wf(),
            final(mob_grid).width() == old(mob_grid).width(),
            final(mob_grid).height() == old(mob_grid).height(),
            forall|mana: MagicColor|
                (Step {
                    state: *final(self),
                    mode,
                    pos: final(player_pos).position(),
                    cells: final(mob_grid).cells(),
                    coord: *final(player_world_coord),
                    mana,
                }) == #[trigger] falling_tick(
                    *old(self),
                    ctx,
                    old(player_pos).position(),
                    *old(player_world_coord),
                    mana,
                    level,
                    old(mob_grid),
                    mobs,
                ),
            final(self).on_course(final(player_pos).position()),
            old(player_pos).marked_on(old(mob_grid)) ==> final(player_pos).marked_on(final(mob_grid)),
            forall|others: Mobs|
                old(player_pos).marked_on(old(mob_grid)) && others.agrees_with(old(mob_grid))
                    ==> #[trigger] others.agrees_with(final(mob_grid)),
    {
        let pos = player_pos.get_pos();
        self.player_look(ctx);
        match self.new_player_pos {
            None => {
                let below = pos.offset(0, 1);
                if has_floor(pos, level).is_some() || mobs.is_living_at(below, mob_grid) {
                    PlayerMode::Idle
                } else {
                    self.new_player_pos = Some((below.x, below.y));
                    self.lerp = 0;
                    PlayerMode::Falling
                }
            },
            Some(x) => {
                let size = level.grid.get_size();
                let arrived: bool = self.advance(
                    ctx.frame_time,
                    FALL_DURATION,
                    pos,
                    x,
                    player_world_coord,
                    size,
                );
                if arrived {
                    let nc = apply_boundary_conditions_i32(GridCoord { x: x.0, y: x.1 }, size);
                    let _ = player_pos.set_pos(nc, mob_grid);
                    self.new_player_pos = None;
                }
                PlayerMode::Falling
            },
        }
    }

    /// Starts the move that `try_move` allows, if it allows one.
    fn start_move(
        &mut self,
        pos: GridCoord,
        dir: MoveDirection,
        facing: i32,
        level: &Level,
        mob_grid: &Grid2D<MobId>,
    ) -> (mode: PlayerMode)
        requires
            facing == 1 || facing == -1,
            level.grid.wf(),
            mob_grid.wf(),
            level.grid.in_rows(pos.y as int),
            i32::MIN < pos.x < i32::MAX,
        ensures
            match move_result(pos, dir, facing, level, mob_grid) {
                Some(target) => mode == PlayerMode::Moving && *final(self) == (PlayerState {
                    new_player_pos: Some((target.x, target.y)),
                    lerp: 0,
                    ..*old(self)
                }),
                None => mode == PlayerMode::Idle && *final(self) == *old(self),
            },
    {
        match try_move(pos, dir, facing, level, mob_grid) {
            Some(new_pos) => {
                self.new_player_pos = Some((new_pos.x, new_pos.y));
                self.lerp = 0;
                PlayerMode::Moving
            },
            None => PlayerMode::Idle,
        }
    }
}

/// The state of a turn about: its direction, to the left (-1) or the right
/// (1), and the time spent on it, in microseconds. The view has turned by
/// the fraction `lerp / TURN_DURATION` of a half circle.
#[derive(Clone, Copy, PartialEq, Eq, Structural, Debug)]
pub struct HorizontalPlayerState {
    pub turn_direction: i32,
    pub lerp: u64,
}

impl HorizontalPlayerState {
    /// The start of a turn in the given direction.
    pub fn begin(turn_direction: i32) -> (h: HorizontalPlayerState)
        ensures
            h.turn_direction == turn_direction,
            h.lerp == 0,
    {
        HorizontalPlayerState { turn_direction, lerp: 0 }
    }

    /// One tick of a turn about: the turn goes on for the time of the tick.
    /// Returns whether the turn is complete.
    pub fn player_do_180(&mut self, frame_time: u64) -> (done: bool)
        ensures
            final(self).turn_direction == old(self).turn_direction,
            final(self).lerp == progress_after(old(self).lerp, frame_time, TURN_DURATION),
            done <==> final(self).lerp == TURN_DURATION,
    {
        let room: u64 = if self.lerp >= TURN_DURATION {
            0
        } else {
            TURN_DURATION - self.lerp
        };
        self.lerp = if frame_time >= room {
            TURN_DURATION
        } else {
            self.lerp + frame_time
        };
        self.lerp == TURN_DURATION
    }
}

/// Progress is monotonic and saturates: the time spent on the way never
/// shrinks from one tick to the next, never exceeds the duration, grows by
/// the time of each tick until it gets there, and is there as soon as the
/// ticks add up to what was left.
pub proof fn lemma_progress_saturates(lerp: u64, frame_time: u64, duration: u64, ticks: nat)
    requires
        lerp <= duration,
    ensures
        progress_after_ticks(lerp, frame_time, duration, ticks) <= duration,
        progress_after_ticks(lerp, frame_time, duration, ticks) <= progress_after_ticks(
            lerp,
            frame_time,
            duration,
            ticks + 1,
        ),
        lerp + ticks * frame_time >= duration ==> progress_after_ticks(
            lerp,
            frame_time,
            duration,
            ticks,
        ) == duration,
        lerp + ticks * frame_time < duration ==> progress_after_ticks(
            lerp,
            frame_time,
            duration,
            ticks,
        ) == lerp + ticks * frame_time,
    decreases ticks,
{
    reveal_with_fuel(progress_after_ticks, 2);
    if ticks > 0 {
        lemma_progress_saturates(lerp, frame_time, duration, (ticks - 1) as nat);
        assert(ticks * frame_time == (ticks - 1) * frame_time + frame_time) by (nonlinear_arith);
        assert((ticks - 1) * frame_time >= 0) by (nonlinear_arith)
            requires
                ticks >= 1,
                frame_time >= 0,
        ;
    } else {
        assert(ticks * frame_time == 0) by (nonlinear_arith)
            requires
                ticks == 0,
        ;
    }
}

/// Whatever the frame time, as long as time passes at all, a way of any
/// duration ends within a bounded number of ticks: no more than the duration
/// divided by the frame time, rounded up.
pub proof fn lemma_way_ends(frame_time: u64, duration: u64)
    requires
        frame_time > 0,
    ensures
        progress_after_ticks(
            0,
            frame_time,
            duration,
            ((duration + frame_time - 1) / (frame_time as int)) as nat,
        ) == duration,
        (duration + frame_time - 1) / (frame_time as int) <= duration,
{
    let n = (duration + frame_time - 1) / (frame_time as int);
    vstd::arithmetic::div_mod::lemma_fundamental_div_mod(
        duration + frame_time - 1,
        frame_time as int,
    );
    let r = (duration + frame_time - 1) % (frame_time as int);
    assert(n * frame_time >= duration) by (nonlinear_arith)
        requires
            duration + frame_time - 1 == frame_time * n + r,
            0 <= r < frame_time,
    ;
    assert(0 <= n <= duration) by (nonlinear_arith)
        requires
            duration + frame_time - 1 == frame_time * n + r,
            0 <= r < frame_time,
            frame_time >= 1,
            duration >= 0,
    ;
    lemma_progress_saturates(0, frame_time, duration, n as nat);
}

/// Moving always ends. A player on the way, who has been on it for `k`
/// ticks of the same frame time, is idle after the next tick if the time
/// spent has then reached `MOVE_DURATION`, and is still moving if not; the
/// time spent is monotonic; and if time passes at all, the tick after which
/// the player is idle comes, not later than `MOVE_DURATION` divided by the
/// frame time, rounded up.
pub proof fn lemma_moving_ends(
    s: PlayerState,
    ctx: TickContext,
    pos: GridCoord,
    coord: WorldPos,
    mana: MagicColor,
    mob_grid: &Grid2D<MobId>,
    k: nat,
)
    requires
        s.new_player_pos is Some,
        s.lerp == 0,
    ensures
        ({
            let spent = progress_after_ticks(0, ctx.frame_time, MOVE_DURATION, k);
            let then = progress_after_ticks(0, ctx.frame_time, MOVE_DURATION, k + 1);
            let tick = moving_tick(PlayerState { lerp: spent, ..s }, ctx, pos, coord, mana, mob_grid);
            &&& spent <= then <= MOVE_DURATION
            &&& tick.state.lerp == then
            &&& tick.mode == (if then == MOVE_DURATION {
                PlayerMode::Idle
            } else {
                PlayerMode::Moving
            })
            &&& ctx.frame_time > 0 && k + 1 >= (MOVE_DURATION + ctx.frame_time - 1) / (
            ctx.frame_time as int) ==> tick.mode == PlayerMode::Idle
        }),
{
    lemma_progress_saturates(0, ctx.frame_time, MOVE_DURATION, k);
    lemma_progress_saturates(0, ctx.frame_time, MOVE_DURATION, k + 1);
    reveal_with_fuel(progress_after_ticks, 2);
    if ctx.frame_time > 0 {
        let n = (MOVE_DURATION + ctx.frame_time - 1) / (ctx.frame_time as int);
        lemma_way_ends(ctx.frame_time, MOVE_DURATION);
        if k + 1 >= n {
            vstd::arithmetic::div_mod::lemma_fundamental_div_mod(
                MOVE_DURATION + ctx.frame_time - 1,
                ctx.frame_time as int,
            );
            let r = (MOVE_DURATION + ctx.frame_time - 1) % (ctx.frame_time as int);
            assert((k + 1) * ctx.frame_time >= MOVE_DURATION) by (nonlinear_arith)
                requires
                    MOVE_DURATION + ctx.frame_time - 1 == ctx.frame_time * n + r,
                    0 <= r < ctx.frame_time,
                    k + 1 >= n,
            ;
        }
    }
}

/// From idle, a move that `try_move` allows always starts: a player who
/// need not fall and presses a walk key with a level view, or a climb key,
/// is moving after the tick, with the target that `try_move` gave and no
/// time spent on the way.
pub proof fn lemma_move_starts(
    s: PlayerState,
    ctx: TickContext,
    facing: i32,
    pos: GridCoord,
    level: &Level,
    mob_grid: &Grid2D<MobId>,
    mobs: &Mobs,
    mana_color: MagicColor,
    fire_cooldown: u64,
    dir: MoveDirection,
)
    requires
        !must_fall(pos, level, mob_grid, mobs),
        s.last_key_pressed matches Some(key) && move_of(key) == Some(dir),
        dir == MoveDirection::WalkForward || dir == MoveDirection::WalkBackward ==> look_after(
            s,
            ctx,
        ) == 0,
        move_result(pos, dir, facing, level, mob_grid) is Some,
    ensures
        ({
            let after = idle_tick(
                s,
                ctx,
                facing,
                pos,
                level,
                mob_grid,
                mobs,
                mana_color,
                fire_cooldown,
            );
            let target = move_result(pos, dir, facing, level, mob_grid).unwrap();
            &&& after.2.mode == PlayerMode::Moving
            &&& after.0.new_player_pos == Some((target.x, target.y))
            &&& after.0.lerp == 0
        }),
{
}

/// How many cells a player in the cell at `pos` falls before a floor or a
/// living entity below stops the fall.
pub open spec fn fall_depth(
    pos: GridCoord,
    level: &Level,
    mob_grid: &Grid2D<MobId>,
    mobs: &Mobs,
) -> nat
    decreases level.grid.height() - pos.y,
{
    if pos.y + 1 < level.grid.height() && pos.y < i32::MAX && fall_target(
        pos,
        level,
        mob_grid,
        mobs,
    ) is Some {
        1 + fall_depth(pos.shifted(0, 1), level, mob_grid, mobs)
    } else {
        0
    }
}

/// Falling chains. In a shaft of `n` open cells above a floor, with no
/// living entity in it, a player in the top cell falls `n - 1` times: from each
/// cell but the last the fall leads to the cell right below, never
/// farther, and in the last cell it ends.
pub proof fn lemma_falling_chain(
    top: GridCoord,
    n: nat,
    level: &Level,
    mob_grid: &Grid2D<MobId>,
    mobs: &Mobs,
)
    requires
        level.grid.wf(),
        mob_grid.wf(),
        mob_grid.width() == level.grid.width(),
        mob_grid.height() == level.grid.height(),
        n >= 1,
        0 <= top.y,
        top.y + n <= level.grid.height(),
        forall|j: int|
            0 <= j < n ==> !(#[trigger] level.solid_at(top.x as int, top.y + j)) && !mobs.living_at(
                mob_grid,
                top.shifted(0, j),
            ),
        level.solid_at(top.x as int, top.y + n),
    ensures
        forall|j: int|
            0 <= j < n - 1 ==> #[trigger] fall_target(top.shifted(0, j), level, mob_grid, mobs) == Some(
                top.shifted(0, j + 1),
            ),
        fall_target(top.shifted(0, n - 1), level, mob_grid, mobs) is None,
        fall_depth(top, level, mob_grid, mobs) == n - 1,
    decreases n,
{
    assert forall|j: int| 0 <= j < n - 1 implies #[trigger] fall_target(
        top.shifted(0, j),
        level,
        mob_grid,
        mobs,
    ) == Some(top.shifted(0, j + 1)) by {
        assert(!level.solid_at(top.x as int, top.y + (j + 1)));
        assert(top.shifted(0, j).shifted(0, 1) == top.shifted(0, j + 1));
    }
    assert(top.shifted(0, 0) == top);
    if n == 1 {
        assert(fall_target(top, level, mob_grid, mobs) is None);
    } else {
        let next = top.shifted(0, 1);
        assert forall|j: int| 0 <= j < n - 1 implies !(#[trigger] level.solid_at(
            next.x as int,
            next.y + j,
        )) && !mobs.living_at(mob_grid, next.shifted(0, j)) by {
            assert(!level.solid_at(top.x as int, top.y + (j + 1)));
            assert(next.shifted(0, j) == top.shifted(0, j + 1));
        }
        lemma_falling_chain(next, (n - 1) as nat, level, mob_grid, mobs);
        assert(next.shifted(0, n - 2) == top.shifted(0, n - 1));
        assert(fall_target(top, level, mob_grid, mobs) == Some(next));
    }
}

} // verus!
