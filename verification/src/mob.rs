//! Entities: monsters and bullets, the arena that owns them, the roster
//! that lists them and the occupancy grid that says where they stand.

use vstd::prelude::*;
use crate::coords::{floor_div, lemma_div_bounds, GridCoord, WorldPos, SUBCELLS};
use crate::grid2d::{Grid2D, GridCellType};
use crate::level::{apply_boundary_conditions_world, boundary_point};

verus! {

/// Hit points of a fresh monster, and the most a monster can have.
pub const MONSTER_HP: i32 = 100;

/// Time between two moves of a monster, in microseconds.
pub const MONSTER_MOVE_COOLDOWN: u64 = 6_000_000;

/// Time between two attacks of a monster, in microseconds.
pub const MONSTER_ATTACK_COOLDOWN: u64 = 6_000_000;

/// Time between two colour changes of a monster, in microseconds.
pub const MONSTER_COLOR_CHANGE_COOLDOWN: u64 = 4_000_000;

/// How far a monster sees, in sub-cell units.
pub const MONSTER_LINE_OF_SIGHT: i64 = 12 * 65536;

/// Speed of a monster, in sub-cell units per second.
pub const MONSTER_SPEED: i64 = 65536;

/// Speed of a bullet, in sub-cell units per second.
pub const BULLET_SPEED: i64 = 2 * 65536;

/// How long a bullet flies at most, in microseconds.
pub const BULLET_LIFETIME: u64 = 5_000_000;

/// How far a bullet flies, in lengths of its direction vector: its speed in
/// cells per second times its lifetime in seconds.
pub const BULLET_REACH: i64 = 10;

/// Largest magnitude of a coordinate at which a bullet can be made, in
/// sub-cell units.
pub const SPAWN_LIMIT: i64 = 0x4000_0000_0000;

/// How far from the shooter a bullet starts, as a multiple of the length of
/// the direction vector in units of 1/65536: a quarter of it plus the half
/// diagonal of a square of side 1.1, which is outside the shooter's cell.
pub const BULLET_START_OFFSET: i64 = 67359;

/// The two kinds of magic. A hit of the same colour heals, a hit of the
/// other colour hurts.
#[derive(Copy, Clone, Debug, PartialEq, Eq, Structural)]
pub enum MagicColor {
    White,
    Black,
}

impl MagicColor {
    /// The other colour.
    pub open spec fn opposite(self) -> MagicColor {
        match self {
            MagicColor::White => MagicColor::Black,
            MagicColor::Black => MagicColor::White,
        }
    }

    pub fn get_opposite(&self) -> (r: Self)
        ensures
            r == self.opposite(),
            r != *self,
    {
        match self {
            MagicColor::White => MagicColor::Black,
            MagicColor::Black => MagicColor::White,
        }
    }
}

/// `t - dt`, but not below zero and not above `max`.
pub open spec fn cooled(t: u64, dt: u64, max: u64) -> u64 {
    if t <= dt {
        0
    } else if t - dt > max {
        max
    } else {
        (t - dt) as u64
    }
}

/// The cooldowns of a monster: the time left, in microseconds, until it may
/// move, attack and change colour again.
#[derive(Copy, Clone, Debug, PartialEq, Eq, Structural)]
pub struct MonsterState {
    pub last_move_time: u64,
    pub last_attack_time: u64,
    pub last_color_change_time: u64,
}

impl MonsterState {
    /// No cooldown is longer than a fresh one.
    pub open spec fn wf(self) -> bool {
        &&& self.last_move_time <= MONSTER_MOVE_COOLDOWN
        &&& self.last_attack_time <= MONSTER_ATTACK_COOLDOWN
        &&& self.last_color_change_time <= MONSTER_COLOR_CHANGE_COOLDOWN
    }

    /// The state of a fresh monster: every cooldown has just started.
    pub fn new() -> (s: MonsterState)
        ensures
            s.last_move_time == MONSTER_MOVE_COOLDOWN,
            s.last_attack_time == MONSTER_ATTACK_COOLDOWN,
            s.last_color_change_time == MONSTER_COLOR_CHANGE_COOLDOWN,
            s.wf(),
    {
        MonsterState {
            last_move_time: MONSTER_MOVE_COOLDOWN,
            last_attack_time: MONSTER_ATTACK_COOLDOWN,
            last_color_change_time: MONSTER_COLOR_CHANGE_COOLDOWN,
        }
    }

    /// Lets `last_frame_time` microseconds pass: every cooldown counts down
    /// by that much and stops at zero.
    pub fn update(&mut self, last_frame_time: u64)
        ensures
            final(self).last_move_time == cooled(
                old(self).last_move_time,
                last_frame_time,
                MONSTER_MOVE_COOLDOWN,
            ),
            final(self).last_attack_time == cooled(
                old(self).last_attack_time,
                last_frame_time,
                MONSTER_ATTACK_COOLDOWN,
            ),
            final(self).last_color_change_time == cooled(
                old(self).last_color_change_time,
                last_frame_time,
                MONSTER_COLOR_CHANGE_COOLDOWN,
            ),
            final(self).wf(),
    {
        self.last_move_time = cool_down(self.last_move_time, last_frame_time, MONSTER_MOVE_COOLDOWN);
        self.last_attack_time = cool_down(
            self.last_attack_time,
            last_frame_time,
            MONSTER_ATTACK_COOLDOWN,
        );
        self.last_color_change_time = cool_down(
            self.last_color_change_time,
            last_frame_time,
            MONSTER_COLOR_CHANGE_COOLDOWN,
        );
    }

    pub fn can_attack(&self) -> (b: bool)
        ensures
            b <==> self.last_attack_time == 0,
    {
        self.last_attack_time == 0
    }

    pub fn can_change_color(&self) -> (b: bool)
        ensures
            b <==> self.last_color_change_time == 0,
    {
        self.last_color_change_time == 0
    }

    pub fn can_move(&self) -> (b: bool)
        ensures
            b <==> self.last_move_time == 0,
    {
        self.last_move_time == 0
    }

    pub fn start_attack_cooldown(&mut self)
        ensures
            *final(self) == (MonsterState {
                last_attack_time: MONSTER_ATTACK_COOLDOWN,
                ..*old(self)
            }),
    {
        self.last_attack_time = MONSTER_ATTACK_COOLDOWN;
    }

    pub fn start_color_change_cooldown(&mut self)
        ensures
            *final(self) == (MonsterState {
                last_color_change_time: MONSTER_COLOR_CHANGE_COOLDOWN,
                ..*old(self)
            }),
    {
        self.last_color_change_time = MONSTER_COLOR_CHANGE_COOLDOWN;
    }

    /// Starts the move cooldown at `modifier_percent` hundredths of its full
    /// length.
    pub fn start_move_cooldown(&mut self, modifier_percent: u32)
        ensures
            *final(self) == (MonsterState {
                last_move_time: (MONSTER_MOVE_COOLDOWN * modifier_percent / 100) as u64,
                ..*old(self)
            }),
            modifier_percent <= 100 && old(self).wf() ==> final(self).wf(),
    {
        assert(MONSTER_MOVE_COOLDOWN == 6_000_000);
        let scaled: u64 = MONSTER_MOVE_COOLDOWN * (modifier_percent as u64);
        self.last_move_time = scaled / 100;
    }
}

/// One cooldown after `dt` microseconds.
fn cool_down(t: u64, dt: u64, max: u64) -> (r: u64)
    ensures
        r == cooled(t, dt, max),
        r <= max,
{
    if t <= dt {
        0
    } else if t - dt > max {
        max
    } else {
        t - dt
    }
}

/// A straight flight from `start` to `end` that takes `duration`
/// microseconds, `elapsed` of which have passed.
#[derive(Copy, Clone, Debug, PartialEq, Eq, Structural)]
pub struct Flight {
    pub start: WorldPos,
    pub end: WorldPos,
    pub elapsed: u64,
    pub duration: u64,
}

/// Longest way of a flight along either axis, in sub-cell units.
pub const FLIGHT_REACH_LIMIT: i64 = 0x100_0000;

/// Longest duration of a flight, in microseconds.
pub const FLIGHT_TIME_LIMIT: u64 = 0x10_0000_0000;

impl Flight {
    /// The flight takes time, has not taken more than that, and is not too
    /// long or too far from the origin for its points to be computed.
    pub open spec fn wf(self) -> bool {
        &&& 0 < self.duration <= FLIGHT_TIME_LIMIT
        &&& self.elapsed <= self.duration
        &&& -2 * SPAWN_LIMIT <= self.start.x <= 2 * SPAWN_LIMIT
        &&& -2 * SPAWN_LIMIT <= self.start.y <= 2 * SPAWN_LIMIT
        &&& -FLIGHT_REACH_LIMIT <= self.end.x - self.start.x <= FLIGHT_REACH_LIMIT
        &&& -FLIGHT_REACH_LIMIT <= self.end.y - self.start.y <= FLIGHT_REACH_LIMIT
    }

    /// The point of the flight after `elapsed` microseconds.
    pub open spec fn point_at(self, elapsed: u64) -> WorldPos {
        WorldPos {
            x: (self.start.x + ((self.end.x - self.start.x) * elapsed) / (self.duration as int)) as i64,
            y: (self.start.y + ((self.end.y - self.start.y) * elapsed) / (self.duration as int)) as i64,
        }
    }

    /// The point of the flight after `elapsed` microseconds.
    pub fn position_at(&self, elapsed: u64) -> (p: WorldPos)
        requires
            self.wf(),
            elapsed <= self.duration,
        ensures
            p == self.point_at(elapsed),
            -3 * SPAWN_LIMIT <= p.x <= 3 * SPAWN_LIMIT,
            -3 * SPAWN_LIMIT <= p.y <= 3 * SPAWN_LIMIT,
    {
        let t: i64 = elapsed as i64;
        let d: i64 = self.duration as i64;
        let wx: i64 = self.end.x - self.start.x;
        let wy: i64 = self.end.y - self.start.y;
        proof {
            let reach = FLIGHT_REACH_LIMIT as int;
            assert(-reach * d <= wx * t <= reach * d && -reach * d <= wy * t <= reach * d)
                by (nonlinear_arith)
                requires
                    -reach <= wx <= reach,
                    -reach <= wy <= reach,
                    0 <= t <= d,
            ;
            assert(reach * d <= reach * 0x10_0000_0000) by (nonlinear_arith)
                requires
                    0 <= d <= 0x10_0000_0000,
                    reach >= 0,
            ;
            assert(-reach * d == (-reach) * d) by (nonlinear_arith);
            assert(reach * d < (reach + 1) * d) by (nonlinear_arith)
                requires
                    d > 0,
            ;
            lemma_div_bounds(wx * t, d as int, -reach, reach + 1);
            lemma_div_bounds(wy * t, d as int, -reach, reach + 1);
        }
        WorldPos { x: self.start.x + floor_div(wx * t, d), y: self.start.y + floor_div(wy * t, d) }
    }
}

/// What an entity is.
#[derive(Copy, Clone, Debug, PartialEq, Eq, Structural)]
pub enum MobType {
    Monster(MonsterState),
    Bullet,
}

/// An entity of the game.
#[derive(Copy, Clone, Debug)]
pub struct MobData {
    pub is_alive: bool,
    pub hp: i32,
    /// The flight that the entity is on, if it is on one.
    pub moving: Option<Flight>,
    /// In sub-cell units per second.
    pub move_speed: i64,
    pub pos: WorldPos,
    pub mob_type: MobType,
    pub color: MagicColor,
}

impl MobData {
    /// The entity is a monster.
    pub open spec fn is_monster(self) -> bool {
        self.mob_type is Monster
    }

    /// The cell that the entity is in.
    pub open spec fn cell(self) -> GridCoord {
        self.pos.cell_spec()
    }

    /// The cell of the entity has `i32` coordinates, a monster's cooldowns
    /// are in range, and so is the flight that the entity is on.
    pub open spec fn wf(self) -> bool {
        &&& self.pos.in_cell_range()
        &&& self.mob_type matches MobType::Monster(state) ==> state.wf()
        &&& self.moving matches Some(flight) ==> flight.wf()
    }

    pub fn get_pos(&self) -> (p: WorldPos)
        ensures
            p == self.pos,
    {
        self.pos
    }

    /// Moves the entity to `pos`, as the boundary conditions of the world
    /// place it.
    pub fn set_pos(&mut self, pos: WorldPos, world_size: (usize, usize))
        requires
            0 < world_size.0 <= i32::MAX,
            0 < world_size.1 <= i32::MAX,
        ensures
            *final(self) == (MobData { pos: boundary_point(pos, world_size), ..*old(self) }),
            old(self).wf() ==> final(self).wf(),
    {
        self.pos = apply_boundary_conditions_world(pos, world_size);
    }

    /// Moves the entity to the centre of the cell whose corner is `pos`, as
    /// the boundary conditions of the world place it.
    pub fn set_pos_centered(&mut self, pos: WorldPos, world_size: (usize, usize))
        requires
            0 < world_size.0 <= i32::MAX,
            0 < world_size.1 <= i32::MAX,
            pos.x + SUBCELLS / 2 <= i64::MAX,
            pos.y + SUBCELLS / 2 <= i64::MAX,
        ensures
            *final(self) == (MobData {
                pos: boundary_point(
                    WorldPos {
                        x: (pos.x + SUBCELLS / 2) as i64,
                        y: (pos.y + SUBCELLS / 2) as i64,
                    },
                    world_size,
                ),
                ..*old(self)
            }),
            old(self).wf() ==> final(self).wf(),
    {
        let centre = WorldPos { x: pos.x + SUBCELLS / 2, y: pos.y + SUBCELLS / 2 };
        self.pos = apply_boundary_conditions_world(centre, world_size);
    }

    pub fn set_color(&mut self, color: MagicColor)
        ensures
            *final(self) == (MobData { color, ..*old(self) }),
    {
        self.color = color;
    }

    pub fn get_color(&self) -> (c: MagicColor)
        ensures
            c == self.color,
    {
        self.color
    }
}

/// What a cell of the occupancy grid holds: nothing, the entity in a slot
/// of the arena, or the player.
#[derive(Copy, Clone, Debug, PartialEq, Eq, Structural)]
pub enum MobId {
    NoMob,
    Mob(usize),
    Player,
}

impl Default for MobId {
    fn default() -> (r: MobId)
        ensures
            r == MobId::NoMob,
    {
        MobId::NoMob
    }
}

impl From<MobId> for GridCellType {
    /// A cell in which somebody stands is a wall to a ray.
    fn from(value: MobId) -> (cell: GridCellType) {
        match value {
            MobId::NoMob => GridCellType::Empty,
            MobId::Mob(_) => GridCellType::Wall,
            MobId::Player => GridCellType::Wall,
        }
    }
}

impl vstd::std_specs::convert::FromSpecImpl<MobId> for GridCellType {
    open spec fn obeys_from_spec() -> bool {
        true
    }

    open spec fn from_spec(value: MobId) -> GridCellType {
        if value == MobId::NoMob {
            GridCellType::Empty
        } else {
            GridCellType::Wall
        }
    }
}

/// The occupant of the cell at `pos`; nobody stands in a row outside the
/// grid.
pub fn mob_at_cell(pos: GridCoord, grid: &Grid2D<MobId>) -> (id: MobId)
    requires
        grid.wf(),
    ensures
        id == (match grid.lookup(pos.x as int, pos.y as int) {
            Some(occupant) => occupant,
            None => MobId::NoMob,
        }),
{
    match grid.get_in_rows(pos) {
        Some(x) => *x,
        None => MobId::NoMob,
    }
}

/// `id` is the first free slot of `slots`, or the place behind the last if
/// none is free.
pub open spec fn is_first_free(slots: Seq<Option<MobData>>, id: int) -> bool {
    &&& 0 <= id <= slots.len()
    &&& id < slots.len() ==> slots[id] is None
    &&& forall|j: int| 0 <= j < id ==> (#[trigger] slots[j]) is Some
}

/// The first free slot of `slots`, or the place behind the last if none is
/// free.
pub open spec fn first_free(slots: Seq<Option<MobData>>) -> int {
    choose|id: int| is_first_free(slots, id)
}

/// There is a first free slot: `first_free` names it.
pub proof fn lemma_first_free(slots: Seq<Option<MobData>>)
    ensures
        is_first_free(slots, first_free(slots)),
{
    lemma_free_behind(slots, 0);
}

/// If the first `k` slots are in use, one at `k` or behind it is the first
/// free one.
proof fn lemma_free_behind(slots: Seq<Option<MobData>>, k: int)
    requires
        0 <= k <= slots.len(),
        forall|j: int| 0 <= j < k ==> (#[trigger] slots[j]) is Some,
    ensures
        exists|id: int| is_first_free(slots, id),
    decreases slots.len() - k,
{
    if k == slots.len() || slots[k] is None {
        assert(is_first_free(slots, k));
    } else {
        lemma_free_behind(slots, k + 1);
    }
}

/// `slots` after an entity has been put into slot `id`.
pub open spec fn put(slots: Seq<Option<MobData>>, id: int, mob: MobData) -> Seq<Option<MobData>> {
    if id < slots.len() {
        slots.update(id, Some(mob))
    } else {
        slots.push(Some(mob))
    }
}

/// The entities of the game. The arena owns the entity records, one to a
/// slot; the roster lists the slots in use in the order in which their
/// entities were made; cells of the occupancy grid name slots.
pub struct Mobs {
    /// The arena. A free slot holds nothing.
    pub slots: Vec<Option<MobData>>,
    /// The roster.
    pub mob_list: Vec<usize>,
}

impl Mobs {
    /// Slot `id` exists and holds an entity.
    pub open spec fn holds(&self, id: int) -> bool {
        0 <= id < self.slots@.len() && self.slots@[id] is Some
    }

    /// The entity in slot `id`.
    pub open spec fn mob(&self, id: int) -> MobData
        recommends
            self.holds(id),
    {
        self.slots@[id].unwrap()
    }

    /// The roster lists each slot in use exactly once and no other, and
    /// every entity is well formed.
    pub open spec fn wf(&self) -> bool {
        &&& self.slots@.len() <= usize::MAX
        &&& forall|k: int|
            0 <= k < self.mob_list@.len() ==> self.holds(#[trigger] self.mob_list@[k] as int)
        &&& self.mob_list@.no_duplicates()
        &&& forall|id: int| #[trigger]
            self.holds(id) ==> self.mob_list@.contains(id as usize) && self.mob(id).wf()
    }

    /// `id` is the slot that the next entity gets: the first free one, or a
    /// new one behind the last.
    pub open spec fn is_next_slot(&self, id: int) -> bool {
        &&& 0 <= id <= self.slots@.len()
        &&& !self.holds(id)
        &&& forall|j: int| 0 <= j < id ==> self.holds(j)
    }

    /// The slot that the next entity gets.
    pub open spec fn next_slot(&self) -> int {
        choose|id: int| self.is_next_slot(id)
    }

    /// The arena after an entity has been put into slot `id`.
    pub open spec fn slots_with(&self, id: int, mob: MobData) -> Seq<Option<MobData>> {
        put(self.slots@, id, mob)
    }

    /// The next slot of the arena is the first free slot of its slots.
    pub proof fn lemma_next_slot_is_first_free(&self, id: int)
        requires
            self.is_next_slot(id),
        ensures
            first_free(self.slots@) == id,
            self.next_slot() == id,
    {
        self.lemma_next_slot_unique(id);
        let slots = self.slots@;
        assert(is_first_free(slots, id)) by {
            assert forall|j: int| 0 <= j < id implies (#[trigger] slots[j]) is Some by {
                assert(self.holds(j));
            }
        }
        let other = first_free(slots);
        assert(is_first_free(slots, other));
        if other < id {
            assert(self.holds(other));
        } else if id < other {
            assert(slots[id] is Some);
        }
    }

    /// There is exactly one next slot.
    pub proof fn lemma_next_slot_unique(&self, id: int)
        requires
            self.is_next_slot(id),
        ensures
            self.next_slot() == id,
    {
        let other = self.next_slot();
        assert(self.is_next_slot(other));
        if other < id {
            assert(self.holds(other));
        } else if id < other {
            assert(self.holds(id));
        }
    }

    /// Says of a slot whether it holds an entity that is alive.
    pub open spec fn alive_pred(&self) -> spec_fn(usize) -> bool {
        |id: usize| self.holds(id as int) && self.mob(id as int).is_alive
    }

    /// Slot `id` holds a dead monster that stands in a row of the grid.
    pub open spec fn is_corpse_on(&self, grid: &Grid2D<MobId>, id: int) -> bool {
        &&& self.holds(id)
        &&& !self.mob(id).is_alive
        &&& self.mob(id).is_monster()
        &&& grid.in_rows(self.mob(id).cell().y as int)
    }

    /// A dead monster stands in the cell with index `i`.
    pub open spec fn has_corpse_at(&self, grid: &Grid2D<MobId>, i: int) -> bool {
        exists|id: int| #[trigger]
            self.is_corpse_on(grid, id) && grid.index_of(
                self.mob(id).cell().x as int,
                self.mob(id).cell().y as int,
            ) == i
    }

    /// The occupancy grid and the arena agree on the monsters: every monster
    /// stands in the cell that it is in, and a cell names only the monster
    /// that is in it.
    pub open spec fn agrees_with(&self, grid: &Grid2D<MobId>) -> bool {
        &&& forall|id: int| #[trigger]
            self.holds(id) && self.mob(id).is_monster() ==> grid.lookup(
                self.mob(id).cell().x as int,
                self.mob(id).cell().y as int,
            ) == Some(MobId::Mob(id as usize))
        &&& forall|i: int|
            0 <= i < grid.cells().len() ==> (#[trigger] grid.cells()[i] matches MobId::Mob(id)
                ==> self.holds(id as int) && self.mob(id as int).is_monster() && grid.in_rows(
                self.mob(id as int).cell().y as int,
            ) && grid.index_of(
                self.mob(id as int).cell().x as int,
                self.mob(id as int).cell().y as int,
            ) == i)
    }

    /// The monster that `new_monster` makes: alive, with full hit points and
    /// fresh cooldowns, at rest in the centre of the cell.
    pub open spec fn fresh_monster(pos: GridCoord, color: MagicColor) -> MobData {
        MobData {
            is_alive: true,
            hp: MONSTER_HP,
            moving: None,
            move_speed: MONSTER_SPEED,
            pos: WorldPos {
                x: (pos.x * SUBCELLS + SUBCELLS / 2) as i64,
                y: (pos.y * SUBCELLS + SUBCELLS / 2) as i64,
            },
            mob_type: MobType::Monster(
                MonsterState {
                    last_move_time: MONSTER_MOVE_COOLDOWN,
                    last_attack_time: MONSTER_ATTACK_COOLDOWN,
                    last_color_change_time: MONSTER_COLOR_CHANGE_COOLDOWN,
                },
            ),
            color,
        }
    }

    /// Where a bullet starts that is shot from `pos` in direction `dir`.
    pub open spec fn bullet_start(pos: WorldPos, dir: WorldPos) -> WorldPos {
        WorldPos {
            x: (pos.x + (dir.x * BULLET_START_OFFSET) / (SUBCELLS as int)) as i64,
            y: (pos.y + (dir.y * BULLET_START_OFFSET) / (SUBCELLS as int)) as i64,
        }
    }

    /// The bullet that `new_bullet` makes: alive, with one hit point, at the
    /// start of a flight of `BULLET_REACH` lengths of `dir`.
    pub open spec fn fresh_bullet(pos: WorldPos, dir: WorldPos, color: MagicColor) -> MobData {
        let start = Self::bullet_start(pos, dir);
        MobData {
            is_alive: true,
            hp: 1,
            moving: Some(
                Flight {
                    start,
                    end: WorldPos {
                        x: (start.x + BULLET_REACH * dir.x) as i64,
                        y: (start.y + BULLET_REACH * dir.y) as i64,
                    },
                    elapsed: 0,
                    duration: BULLET_LIFETIME,
                },
            ),
            move_speed: BULLET_SPEED,
            pos: start,
            mob_type: MobType::Bullet,
            color,
        }
    }

    /// Putting an entity into a slot keeps the arena in agreement with a
    /// grid if no monster comes, goes or moves by it: the slot held and
    /// holds a monster in the same cell, or it held no monster and holds
    /// none.
    pub proof fn lemma_replace_keeps_agreement(
        &self,
        after: &Mobs,
        grid: &Grid2D<MobId>,
        id: int,
        mob: MobData,
    )
        requires
            self.agrees_with(grid),
            0 <= id <= self.slots@.len(),
            after.slots@ == self.slots_with(id, mob),
            if self.holds(id) && self.mob(id).is_monster() {
                mob.is_monster() && mob.cell() == self.mob(id).cell()
            } else {
                !mob.is_monster()
            },
        ensures
            after.agrees_with(grid),
    {
        assert forall|j: int| #[trigger]
            after.holds(j) && after.mob(j).is_monster() implies grid.lookup(
            after.mob(j).cell().x as int,
            after.mob(j).cell().y as int,
        ) == Some(MobId::Mob(j as usize)) by {
            assert(self.holds(j));
        }
        assert forall|i: int| 0 <= i < grid.cells().len() implies (
        #[trigger] grid.cells()[i] matches MobId::Mob(j) ==> after.holds(j as int) && after.mob(
            j as int,
        ).is_monster() && grid.in_rows(after.mob(j as int).cell().y as int) && grid.index_of(
            after.mob(j as int).cell().x as int,
            after.mob(j as int).cell().y as int,
        ) == i) by {
            if let MobId::Mob(j) = grid.cells()[i] {
                assert(self.holds(j as int));
            }
        }
    }

    /// A living entity stands in the cell at `pos`.
    pub open spec fn living_at(&self, mob_grid: &Grid2D<MobId>, pos: GridCoord) -> bool {
        mob_grid.lookup(pos.x as int, pos.y as int) matches Some(MobId::Mob(id)) && self.holds(
            id as int,
        ) && self.mob(id as int).is_alive
    }

    /// Whether a living entity stands in the cell at `pos`.
    pub fn is_living_at(&self, pos: GridCoord, mob_grid: &Grid2D<MobId>) -> (living: bool)
        requires
            mob_grid.wf(),
        ensures
            living == self.living_at(mob_grid, pos),
    {
        match mob_grid.get_in_rows(pos) {
            Some(occupant) => match occupant {
                MobId::Mob(id) => match self.get(*id) {
                    Some(mob) => mob.is_alive,
                    None => false,
                },
                _ => false,
            },
            None => false,
        }
    }

    /// No entities.
    pub fn new() -> (mobs: Mobs)
        ensures
            mobs.slots@.len() == 0,
            mobs.mob_list@.len() == 0,
            mobs.wf(),
    {
        Mobs { slots: Vec::new(), mob_list: Vec::new() }
    }

    /// The entity in slot `id`, if there is one.
    pub fn get(&self, id: usize) -> (mob: Option<MobData>)
        ensures
            mob is Some <==> self.holds(id as int),
            mob matches Some(m) ==> m == self.mob(id as int),
    {
        if id < self.slots.len() {
            self.slots[id]
        } else {
            None
        }
    }

    /// Replaces the entity in slot `id`.
    pub fn replace(&mut self, id: usize, mob: MobData)
        requires
            old(self).holds(id as int),
        ensures
            final(self).slots@ == old(self).slots@.update(id as int, Some(mob)),
            final(self).mob_list@ == old(self).mob_list@,
            old(self).wf() && mob.wf() ==> final(self).wf(),
    {
        self.slots[id] = Some(mob);
        proof {
            if old(self).wf() && mob.wf() {
                assert forall|k: int| 0 <= k < self.mob_list@.len() implies self.holds(
                    #[trigger] self.mob_list@[k] as int,
                ) by {
                    assert(old(self).holds(old(self).mob_list@[k] as int));
                }
                assert forall|j: int| #[trigger] self.holds(j) implies self.mob_list@.contains(
                    j as usize,
                ) && self.mob(j).wf() by {
                    assert(old(self).holds(j));
                }
            }
        }
    }

    /// Puts an entity into the next slot and at the end of the roster.
    fn insert(&mut self, mob: MobData) -> (id: usize)
        requires
            old(self).wf(),
            mob.wf(),
        ensures
            id == old(self).next_slot(),
            old(self).is_next_slot(id as int),
            final(self).slots@ == old(self).slots_with(id as int, mob),
            final(self).mob_list@ == old(self).mob_list@.push(id),
            final(self).wf(),
    {
        let n: usize = self.slots.len();
        let mut id: usize = 0;
        while id < n && self.slots[id].is_some()
            invariant
                id <= n,
                n == self.slots@.len(),
                *self == *old(self),
                forall|j: int| 0 <= j < id ==> self.holds(j),
            decreases n - id,
        {
            id += 1;
        }
        proof {
            assert(self.is_next_slot(id as int));
            self.lemma_next_slot_unique(id as int);
        }
        if id < n {
            self.slots[id] = Some(mob);
        } else {
            self.slots.push(Some(mob));
        }
        self.mob_list.push(id);
        proof {
            assert(self.slots@.len() == self.slots.len());
            let old_list = old(self).mob_list@;
            assert forall|k: int| 0 <= k < self.mob_list@.len() implies self.holds(
                #[trigger] self.mob_list@[k] as int,
            ) by {
                if k < old_list.len() {
                    assert(old(self).holds(old_list[k] as int));
                }
            }
            assert(self.mob_list@.no_duplicates()) by {
                assert forall|a: int, b: int|
                    0 <= a < self.mob_list@.len() && 0 <= b < self.mob_list@.len() && a
                        != b implies self.mob_list@[a] != self.mob_list@[b] by {
                    if a < old_list.len() {
                        assert(old(self).holds(old_list[a] as int));
                    }
                    if b < old_list.len() {
                        assert(old(self).holds(old_list[b] as int));
                    }
                }
            }
            assert forall|j: int| #[trigger] self.holds(j) implies self.mob_list@.contains(
                j as usize,
            ) && self.mob(j).wf() by {
                if j == id {
                    assert(self.mob_list@[old_list.len() as int] == id);
                } else {
                    assert(old(self).holds(j));
                    let k = choose|k: int| 0 <= k < old_list.len() && old_list[k] == j as usize;
                    assert(self.mob_list@[k] == j as usize);
                }
            }
        }
        id
    }

    /// Makes a monster of the given colour in the cell at `pos` if that cell
    /// is on the grid and nobody stands in it, and says whether it did.
    pub fn new_monster(
        &mut self,
        pos: GridCoord,
        mob_grid: &mut Grid2D<MobId>,
        color: MagicColor,
    ) -> (placed: bool)
        requires
            old(self).wf(),
            old(mob_grid).wf(),
        ensures
            placed <==> old(mob_grid).lookup(pos.x as int, pos.y as int) == Some(MobId::NoMob),
            placed ==> ({
                let id = old(self).next_slot();
                &&& old(self).is_next_slot(id)
                &&& final(self).slots@ == old(self).slots_with(id, Self::fresh_monster(pos, color))
                &&& final(self).mob_list@ == old(self).mob_list@.push(id as usize)
                &&& final(mob_grid).cells() == old(mob_grid).cells().update(
                    old(mob_grid).index_of(pos.x as int, pos.y as int),
                    MobId::Mob(id as usize),
                )
            }),
            !placed ==> final(self).slots@ == old(self).slots@ && final(self).mob_list@ == old(
                self,
            ).mob_list@ && final(mob_grid).cells() == old(mob_grid).cells(),
            final(self).wf(),
            final(mob_grid).wf(),
            final(mob_grid).width() == old(mob_grid).width(),
            final(mob_grid).height() == old(mob_grid).height(),
            old(self).agrees_with(old(mob_grid)) ==> final(self).agrees_with(final(mob_grid)),
    {
        let free: bool = match mob_grid.get_in_rows(pos) {
            Some(m) => match m {
                MobId::NoMob => true,
                _ => false,
            },
            None => false,
        };
        if !free {
            return false;
        }
        let mob = MobData {
            is_alive: true,
            hp: MONSTER_HP,
            moving: None,
            move_speed: MONSTER_SPEED,
            pos: WorldPos::center_of(pos),
            color,
            mob_type: MobType::Monster(MonsterState::new()),
        };
        proof {
            lemma_center_cell(pos);
        }
        let id: usize = self.insert(mob);
        let _ = mob_grid.set_in_rows(pos, MobId::Mob(id));
        proof {
            if old(self).agrees_with(old(mob_grid)) {
                let spot = old(mob_grid).index_of(pos.x as int, pos.y as int);
                old(mob_grid).lemma_index_in_bounds(pos.x as int, pos.y as int);
                assert forall|j: int| #[trigger]
                    self.holds(j) && self.mob(j).is_monster() implies mob_grid.lookup(
                    self.mob(j).cell().x as int,
                    self.mob(j).cell().y as int,
                ) == Some(MobId::Mob(j as usize)) by {
                    let c = self.mob(j).cell();
                    if j != id {
                        assert(old(self).holds(j));
                        assert(self.mob(j) == old(self).mob(j));
                        assert(old(mob_grid).lookup(c.x as int, c.y as int) == Some(
                            MobId::Mob(j as usize),
                        ));
                        old(mob_grid).lemma_index_in_bounds(c.x as int, c.y as int);
                        assert(old(mob_grid).cells()[old(mob_grid).index_of(c.x as int, c.y as int)]
                            == MobId::Mob(j as usize));
                        assert(old(mob_grid).cells()[spot] == MobId::NoMob);
                    } else {
                        assert(c == pos);
                        assert(mob_grid.cells()[spot] == MobId::Mob(id));
                    }
                }
                assert forall|i: int| 0 <= i < mob_grid.cells().len() implies (
                #[trigger] mob_grid.cells()[i] matches MobId::Mob(j) ==> self.holds(j as int)
                    && self.mob(j as int).is_monster() && mob_grid.in_rows(
                    self.mob(j as int).cell().y as int,
                ) && mob_grid.index_of(
                    self.mob(j as int).cell().x as int,
                    self.mob(j as int).cell().y as int,
                ) == i) by {
                    if i != spot {
                        assert(mob_grid.cells()[i] == old(mob_grid).cells()[i]);
                        if let MobId::Mob(j) = mob_grid.cells()[i] {
                            assert(old(self).holds(j as int));
                            assert(self.mob(j as int) == old(self).mob(j as int));
                        }
                    }
                }
            }
        }
        true
    }

    /// Makes a bullet of the given colour that is shot from `pos` in
    /// direction `dir`, a vector of length `SUBCELLS`, and returns its slot.
    /// The bullet starts outside the shooter's cell.
    pub fn new_bullet(&mut self, pos: WorldPos, dir: WorldPos, color: MagicColor) -> (id: usize)
        requires
            old(self).wf(),
            -SPAWN_LIMIT <= pos.x <= SPAWN_LIMIT,
            -SPAWN_LIMIT <= pos.y <= SPAWN_LIMIT,
            -SUBCELLS <= dir.x <= SUBCELLS,
            -SUBCELLS <= dir.y <= SUBCELLS,
        ensures
            id == old(self).next_slot(),
            old(self).is_next_slot(id as int),
            final(self).slots@ == old(self).slots_with(
                id as int,
                Self::fresh_bullet(pos, dir, color),
            ),
            final(self).mob_list@ == old(self).mob_list@.push(id),
            final(self).wf(),
            forall|grid: Grid2D<MobId>|
                old(self).agrees_with(&grid) ==> #[trigger] final(self).agrees_with(&grid),
    {
        let off_x: i64 = floor_div(dir.x * BULLET_START_OFFSET, SUBCELLS);
        let off_y: i64 = floor_div(dir.y * BULLET_START_OFFSET, SUBCELLS);
        proof {
            lemma_div_bounds(
                dir.x * BULLET_START_OFFSET,
                SUBCELLS as int,
                -(BULLET_START_OFFSET as int),
                BULLET_START_OFFSET as int + 1,
            );
            lemma_div_bounds(
                dir.y * BULLET_START_OFFSET,
                SUBCELLS as int,
                -(BULLET_START_OFFSET as int),
                BULLET_START_OFFSET as int + 1,
            );
        }
        let start = WorldPos { x: pos.x + off_x, y: pos.y + off_y };
        let end = WorldPos { x: start.x + BULLET_REACH * dir.x, y: start.y + BULLET_REACH * dir.y };
        let mob = MobData {
            is_alive: true,
            hp: 1,
            moving: Some(Flight { start, end, elapsed: 0, duration: BULLET_LIFETIME }),
            move_speed: BULLET_SPEED,
            pos: start,
            color,
            mob_type: MobType::Bullet,
        };
        let id: usize = self.insert(mob);
        proof {
            assert forall|grid: Grid2D<MobId>| old(self).agrees_with(&grid) implies #[trigger]
                self.agrees_with(&grid) by {
                old(self).lemma_replace_keeps_agreement(self, &grid, id as int, mob);
            }
        }
        id
    }

    /// The first `k` entries of the roster include a dead monster that
    /// stands in the cell with index `i`.
    pub open spec fn has_corpse_before(&self, grid: &Grid2D<MobId>, k: int, i: int) -> bool {
        exists|j: int|
            0 <= j < k && j < self.mob_list@.len() && #[trigger] self.is_corpse_on(
                grid,
                self.mob_list@[j] as int,
            ) && grid.index_of(
                self.mob(self.mob_list@[j] as int).cell().x as int,
                self.mob(self.mob_list@[j] as int).cell().y as int,
            ) == i
    }

    /// Sweeps the dead: every dead entity leaves the roster and its slot,
    /// and the cell that a dead monster stands in is cleared. The living
    /// stay where they are, in their order.
    pub fn delete_dead_mobs(&mut self, mob_grid: &mut Grid2D<MobId>)
        requires
            old(self).wf(),
            old(mob_grid).wf(),
        ensures
            final(self).wf(),
            final(mob_grid).wf(),
            final(mob_grid).width() == old(mob_grid).width(),
            final(mob_grid).height() == old(mob_grid).height(),
            final(self).mob_list@ == old(self).mob_list@.filter(old(self).alive_pred()),
            final(self).slots@.len() == old(self).slots@.len(),
            forall|id: int|
                0 <= id < old(self).slots@.len() ==> #[trigger] final(self).slots@[id] == (if old(
                    self,
                ).holds(id) && !old(self).mob(id).is_alive {
                    None
                } else {
                    old(self).slots@[id]
                }),
            forall|i: int|
                0 <= i < old(mob_grid).cells().len() ==> #[trigger] final(mob_grid).cells()[i] == (
                if old(self).has_corpse_at(old(mob_grid), i) {
                    MobId::NoMob
                } else {
                    old(mob_grid).cells()[i]
                }),
            forall|id: int| #[trigger] final(self).holds(id) ==> final(self).mob(id).is_alive,
            old(self).agrees_with(old(mob_grid)) ==> final(self).agrees_with(final(mob_grid)),
    {
        let n: usize = self.mob_list.len();
        let mut kept: Vec<usize> = Vec::new();
        let mut k: usize = 0;
        let ghost alive = old(self).alive_pred();
        let ghost roster = old(self).mob_list@;
        while k < n
            invariant
                k <= n,
                n == roster.len(),
                old(self).wf(),
                old(mob_grid).wf(),
                mob_grid.wf(),
                mob_grid.width() == old(mob_grid).width(),
                mob_grid.height() == old(mob_grid).height(),
                alive == old(self).alive_pred(),
                roster == old(self).mob_list@,
                self.mob_list@ == roster,
                kept@ == roster.take(k as int).filter(alive),
                self.slots@.len() == old(self).slots@.len(),
                forall|j: int|
                    0 <= j < n ==> #[trigger] self.slots@[roster[j] as int] == (if j < k && !old(
                        self,
                    ).mob(roster[j] as int).is_alive {
                        None
                    } else {
                        old(self).slots@[roster[j] as int]
                    }),
                forall|id: int|
                    0 <= id < self.slots@.len() && !old(self).holds(id) ==> #[trigger] self.slots@[id]
                        == old(self).slots@[id],
                forall|i: int|
                    0 <= i < mob_grid.cells().len() ==> #[trigger] mob_grid.cells()[i] == (if old(
                        self,
                    ).has_corpse_before(old(mob_grid), k as int, i) {
                        MobId::NoMob
                    } else {
                        old(mob_grid).cells()[i]
                    }),
            decreases n - k,
        {
            let id: usize = self.mob_list[k];
            assert(old(self).holds(roster[k as int] as int));
            assert(self.slots@[roster[k as int] as int] == old(self).slots@[roster[k as int] as int]);
            let mob: MobData = self.slots[id].unwrap();
            proof {
                let head = roster.take(k as int + 1);
                assert(head.drop_last() == roster.take(k as int));
                assert(head.last() == id);
                reveal_with_fuel(Seq::filter, 1);
            }
            if !mob.is_alive {
                let ghost before = *mob_grid;
                match mob.mob_type {
                    MobType::Monster(_) => {
                        let _ = mob_grid.set_in_rows(mob.pos.cell(), MobId::NoMob);
                    },
                    MobType::Bullet => {},
                }
                self.slots[id] = None;
                proof {
                    assert forall|j: int| 0 <= j < n implies #[trigger] self.slots@[roster[j] as int]
                        == (if j < k + 1 && !old(self).mob(roster[j] as int).is_alive {
                        None
                    } else {
                        old(self).slots@[roster[j] as int]
                    }) by {
                        assert(old(self).holds(roster[j] as int));
                        if j != k {
                            assert(roster[j] != roster[k as int]);
                        }
                    }
                    assert forall|i: int| 0 <= i < mob_grid.cells().len() implies #[trigger]
                        mob_grid.cells()[i] == (if old(self).has_corpse_before(
                        old(mob_grid),
                        k as int + 1,
                        i,
                    ) {
                        MobId::NoMob
                    } else {
                        old(mob_grid).cells()[i]
                    }) by {
                        old(self).lemma_corpse_step(old(mob_grid), k as int, i);
                        let c = old(self).mob(id as int).cell();
                        assert(mob.pos.cell_spec() == c);
                        assert(before.cells()[i] == (if old(self).has_corpse_before(
                            old(mob_grid),
                            k as int,
                            i,
                        ) {
                            MobId::NoMob
                        } else {
                            old(mob_grid).cells()[i]
                        }));
                        if old(self).is_corpse_on(old(mob_grid), id as int) {
                            before.lemma_index_in_bounds(c.x as int, c.y as int);
                            assert(mob_grid.cells() == before.cells().update(
                                before.index_of(c.x as int, c.y as int),
                                MobId::NoMob,
                            ));
                        } else {
                            assert(mob_grid.cells() == before.cells());
                        }
                    }
                }
            } else {
                kept.push(id);
                proof {
                    assert forall|i: int| 0 <= i < mob_grid.cells().len() implies #[trigger]
                        mob_grid.cells()[i] == (if old(self).has_corpse_before(
                        old(mob_grid),
                        k as int + 1,
                        i,
                    ) {
                        MobId::NoMob
                    } else {
                        old(mob_grid).cells()[i]
                    }) by {
                        old(self).lemma_corpse_step(old(mob_grid), k as int, i);
                    }
                }
            }
            k += 1;
        }
        self.mob_list = kept;
        proof {
            assert(roster.take(n as int) == roster);
            broadcast use vstd::seq_lib::group_filter_ensures;
            lemma_filter_no_duplicates(roster, alive);
            // the arena
            assert forall|id: int| 0 <= id < old(self).slots@.len() implies #[trigger]
                self.slots@[id] == (if old(self).holds(id) && !old(self).mob(id).is_alive {
                None
            } else {
                old(self).slots@[id]
            }) by {
                if old(self).holds(id) {
                    let j = choose|j: int| 0 <= j < roster.len() && roster[j] == id as usize;
                    assert(self.slots@[roster[j] as int] == (if !old(self).mob(
                        roster[j] as int,
                    ).is_alive {
                        None
                    } else {
                        old(self).slots@[roster[j] as int]
                    }));
                }
            }
            // the roster
            assert forall|a: int| 0 <= a < self.mob_list@.len() implies self.holds(
                #[trigger] self.mob_list@[a] as int,
            ) by {
                assert(alive(self.mob_list@[a]));
            }
            assert forall|id: int| #[trigger] self.holds(id) implies self.mob_list@.contains(
                id as usize,
            ) && self.mob(id).wf() && self.mob(id).is_alive by {
                assert(old(self).holds(id));
                let j = choose|j: int| 0 <= j < roster.len() && roster[j] == id as usize;
                assert(alive(roster[j]));
            }
            // the grid
            assert forall|i: int| 0 <= i < old(mob_grid).cells().len() implies #[trigger]
                mob_grid.cells()[i] == (if old(self).has_corpse_at(old(mob_grid), i) {
                MobId::NoMob
            } else {
                old(mob_grid).cells()[i]
            }) by {
                old(self).lemma_corpse_anywhere(old(mob_grid), i);
            }
            if old(self).agrees_with(old(mob_grid)) {
                assert forall|id: int| #[trigger]
                    self.holds(id) && self.mob(id).is_monster() implies mob_grid.lookup(
                    self.mob(id).cell().x as int,
                    self.mob(id).cell().y as int,
                ) == Some(MobId::Mob(id as usize)) by {
                    let c = self.mob(id).cell();
                    assert(old(self).holds(id));
                    let spot = old(mob_grid).index_of(c.x as int, c.y as int);
                    old(mob_grid).lemma_index_in_bounds(c.x as int, c.y as int);
                    assert(old(mob_grid).cells()[spot] == MobId::Mob(id as usize));
                    if old(self).has_corpse_at(old(mob_grid), spot) {
                        let d = choose|d: int| #[trigger]
                            old(self).is_corpse_on(old(mob_grid), d) && old(mob_grid).index_of(
                                old(self).mob(d).cell().x as int,
                                old(self).mob(d).cell().y as int,
                            ) == spot;
                        assert(old(self).holds(d) && old(self).mob(d).is_monster());
                        assert(old(mob_grid).lookup(
                            old(self).mob(d).cell().x as int,
                            old(self).mob(d).cell().y as int,
                        ) == Some(MobId::Mob(d as usize)));
                        assert(d == id);
                    }
                }
                assert forall|i: int| 0 <= i < mob_grid.cells().len() implies (
                #[trigger] mob_grid.cells()[i] matches MobId::Mob(j) ==> self.holds(j as int)
                    && self.mob(j as int).is_monster() && mob_grid.in_rows(
                    self.mob(j as int).cell().y as int,
                ) && mob_grid.index_of(
                    self.mob(j as int).cell().x as int,
                    self.mob(j as int).cell().y as int,
                ) == i) by {
                    if let MobId::Mob(j) = mob_grid.cells()[i] {
                        assert(old(mob_grid).cells()[i] == MobId::Mob(j));
                        assert(!old(self).has_corpse_at(old(mob_grid), i));
                        assert(old(self).holds(j as int));
                        if !old(self).mob(j as int).is_alive {
                            assert(old(self).is_corpse_on(old(mob_grid), j as int));
                        }
                    }
                }
            }
        }
    }

    /// Every dead monster is on the roster, so the corpses among all its
    /// entries are all the corpses.
    pub proof fn lemma_corpse_anywhere(&self, grid: &Grid2D<MobId>, i: int)
        requires
            self.wf(),
        ensures
            self.has_corpse_before(grid, self.mob_list@.len() as int, i) <==> self.has_corpse_at(
                grid,
                i,
            ),
    {
        if self.has_corpse_before(grid, self.mob_list@.len() as int, i) {
            let j = choose|j: int|
                0 <= j < self.mob_list@.len() && j < self.mob_list@.len()
                    && #[trigger] self.is_corpse_on(grid, self.mob_list@[j] as int)
                    && grid.index_of(
                    self.mob(self.mob_list@[j] as int).cell().x as int,
                    self.mob(self.mob_list@[j] as int).cell().y as int,
                ) == i;
            assert(self.is_corpse_on(grid, self.mob_list@[j] as int));
        }
        if self.has_corpse_at(grid, i) {
            let id = choose|id: int| #[trigger]
                self.is_corpse_on(grid, id) && grid.index_of(
                    self.mob(id).cell().x as int,
                    self.mob(id).cell().y as int,
                ) == i;
            assert(self.holds(id));
            let j = choose|j: int| 0 <= j < self.mob_list@.len() && self.mob_list@[j] == id as usize;
            assert(self.is_corpse_on(grid, self.mob_list@[j] as int));
        }
    }

    /// One more entry of the roster adds its own corpse to those before it,
    /// and nothing else.
    pub proof fn lemma_corpse_step(&self, grid: &Grid2D<MobId>, k: int, i: int)
        requires
            0 <= k < self.mob_list@.len(),
        ensures
            self.has_corpse_before(grid, k + 1, i) <==> self.has_corpse_before(grid, k, i) || (
            self.is_corpse_on(grid, self.mob_list@[k] as int) && grid.index_of(
                self.mob(self.mob_list@[k] as int).cell().x as int,
                self.mob(self.mob_list@[k] as int).cell().y as int,
            ) == i),
    {
        if self.has_corpse_before(grid, k + 1, i) {
            let j = choose|j: int|
                0 <= j < k + 1 && j < self.mob_list@.len() && #[trigger] self.is_corpse_on(
                    grid,
                    self.mob_list@[j] as int,
                ) && grid.index_of(
                    self.mob(self.mob_list@[j] as int).cell().x as int,
                    self.mob(self.mob_list@[j] as int).cell().y as int,
                ) == i;
            if j < k {
                assert(self.has_corpse_before(grid, k, i));
            }
        }
        if self.has_corpse_before(grid, k, i) {
            let j = choose|j: int|
                0 <= j < k && j < self.mob_list@.len() && #[trigger] self.is_corpse_on(
                    grid,
                    self.mob_list@[j] as int,
                ) && grid.index_of(
                    self.mob(self.mob_list@[j] as int).cell().x as int,
                    self.mob(self.mob_list@[j] as int).cell().y as int,
                ) == i;
            assert(self.is_corpse_on(grid, self.mob_list@[j] as int));
        }
        if self.is_corpse_on(grid, self.mob_list@[k] as int) && grid.index_of(
            self.mob(self.mob_list@[k] as int).cell().x as int,
            self.mob(self.mob_list@[k] as int).cell().y as int,
        ) == i {
            assert(self.has_corpse_before(grid, k + 1, i));
        }
    }
}

/// Filtering a sequence without duplicates leaves none.
pub proof fn lemma_filter_no_duplicates<A>(s: Seq<A>, pred: spec_fn(A) -> bool)
    requires
        s.no_duplicates(),
    ensures
        s.filter(pred).no_duplicates(),
    decreases s.len(),
{
    reveal(Seq::filter);
    if s.len() > 0 {
        let rest = s.drop_last();
        lemma_filter_no_duplicates(rest, pred);
        let kept = rest.filter(pred);
        if pred(s.last()) {
            assert forall|a: int, b: int|
                0 <= a < kept.push(s.last()).len() && 0 <= b < kept.push(s.last()).len() && a
                    != b implies kept.push(s.last())[a] != kept.push(s.last())[b] by {
                if a < kept.len() {
                    rest.lemma_filter_contains_rev(pred, kept[a]);
                    let i = choose|i: int| 0 <= i < rest.len() && rest[i] == kept[a];
                    assert(s[i] == kept[a]);
                }
                if b < kept.len() {
                    rest.lemma_filter_contains_rev(pred, kept[b]);
                    let i = choose|i: int| 0 <= i < rest.len() && rest[i] == kept[b];
                    assert(s[i] == kept[b]);
                }
            }
        }
    }
}

/// The centre of a cell lies in that cell.
pub proof fn lemma_center_cell(c: GridCoord)
    ensures
        WorldPos::cell_of(c.x * SUBCELLS + SUBCELLS / 2, c.y * SUBCELLS + SUBCELLS / 2) == (
            c.x as int,
            c.y as int,
        ),
{
    vstd::arithmetic::div_mod::lemma_fundamental_div_mod_converse(
        c.x * SUBCELLS + SUBCELLS / 2,
        SUBCELLS as int,
        c.x as int,
        SUBCELLS as int / 2,
    );
    vstd::arithmetic::div_mod::lemma_fundamental_div_mod_converse(
        c.y * SUBCELLS + SUBCELLS / 2,
        SUBCELLS as int,
        c.y as int,
        SUBCELLS as int / 2,
    );
}

} // verus!
