//! Tile classification, legal moves and the player's place on the
//! occupancy grid.

use vstd::prelude::*;
use crate::coords::GridCoord;
use crate::grid2d::{Grid2D, GridCellType};
use crate::level::Level;
use crate::mob::{MobId, Mobs};

verus! {

/// The authoritative cell of the player. It changes only together with the
/// player's marker on the occupancy grid.
pub struct PlayerPosition {
    pos: GridCoord,
}

/// What `try_set_pos` answers for a player at `pos` who wants to be at
/// `new_pos`: yes if that is where the player is, or if the cell there is on
/// the grid and holds no other entity; else the entity in the way, or
/// `NoMob` for a row outside the grid.
pub open spec fn set_pos_verdict(
    pos: GridCoord,
    new_pos: GridCoord,
    mob_grid: &Grid2D<MobId>,
) -> Result<(), MobId> {
    if pos == new_pos {
        Ok(())
    } else {
        match mob_grid.lookup(new_pos.x as int, new_pos.y as int) {
            None => Err(MobId::NoMob),
            Some(MobId::Mob(id)) => Err(MobId::Mob(id)),
            Some(_) => Ok(()),
        }
    }
}

/// The cells of a grid after `val` has been written at `pos`; a row outside
/// the grid takes no writes.
pub open spec fn cells_with<T>(grid: &Grid2D<T>, cells: Seq<T>, pos: GridCoord, val: T) -> Seq<T> {
    if grid.in_rows(pos.y as int) {
        cells.update(grid.index_of(pos.x as int, pos.y as int), val)
    } else {
        cells
    }
}

/// The cells of the occupancy grid after the player has moved from `from`
/// to `to`: the old cell is cleared, then the marker is written.
pub open spec fn moved_cells(mob_grid: &Grid2D<MobId>, from: GridCoord, to: GridCoord) -> Seq<MobId> {
    cells_with(
        mob_grid,
        cells_with(mob_grid, mob_grid.cells(), from, MobId::NoMob),
        to,
        MobId::Player,
    )
}

impl PlayerPosition {
    /// The cell of the player.
    pub closed spec fn position(&self) -> GridCoord {
        self.pos
    }

    /// The player's marker is in the cell of the player and in no other.
    pub open spec fn marked_on(&self, mob_grid: &Grid2D<MobId>) -> bool {
        &&& mob_grid.in_rows(self.position().y as int)
        &&& forall|i: int|
            0 <= i < mob_grid.cells().len() ==> (#[trigger] mob_grid.cells()[i] == MobId::Player
                <==> i == mob_grid.index_of(self.position().x as int, self.position().y as int))
    }

    /// Puts the player into the cell at `pos` and the marker on the grid.
    pub fn new(pos: (usize, usize), mob_grid: &mut Grid2D<MobId>) -> (np: Self)
        requires
            old(mob_grid).wf(),
            pos.0 <= i32::MAX,
            pos.1 <= i32::MAX,
        ensures
            np.position() == (GridCoord { x: pos.0 as i32, y: pos.1 as i32 }),
            final(mob_grid).wf(),
            final(mob_grid).width() == old(mob_grid).width(),
            final(mob_grid).height() == old(mob_grid).height(),
            final(mob_grid).cells() == cells_with(
                old(mob_grid),
                old(mob_grid).cells(),
                np.position(),
                MobId::Player,
            ),
            old(mob_grid).in_rows(pos.1 as int) && (forall|i: int|
                0 <= i < old(mob_grid).cells().len() ==> #[trigger] old(mob_grid).cells()[i]
                    != MobId::Player) ==> np.marked_on(final(mob_grid)),
            forall|mobs: Mobs|
                old(mob_grid).lookup(pos.0 as int, pos.1 as int) == Some(MobId::NoMob)
                    && mobs.agrees_with(old(mob_grid)) ==> #[trigger] mobs.agrees_with(
                    final(mob_grid),
                ),
    {
        let mut np = PlayerPosition { pos: GridCoord { x: pos.0 as i32, y: pos.1 as i32 } };
        let here = np.pos;
        proof {
            if mob_grid.in_rows(here.y as int) {
                mob_grid.lemma_index_in_bounds(here.x as int, here.y as int);
            }
        }
        let _ = mob_grid.set_in_rows(here, MobId::NoMob);
        let _ = mob_grid.set_in_rows(here, MobId::Player);
        proof {
            assert(mob_grid.cells() =~= cells_with(
                old(mob_grid),
                old(mob_grid).cells(),
                here,
                MobId::Player,
            ));
            assert forall|mobs: Mobs|
                old(mob_grid).lookup(pos.0 as int, pos.1 as int) == Some(MobId::NoMob)
                    && mobs.agrees_with(old(mob_grid)) implies #[trigger] mobs.agrees_with(mob_grid) by {
                lemma_agreement_survives_write(&mobs, old(mob_grid), mob_grid, here, MobId::Player);
            }
        }
        np
    }

    pub fn get_pos(&self) -> (p: GridCoord)
        ensures
            p == self.position(),
    {
        self.pos
    }

    pub fn get_pos_ituple(&self) -> (p: (i32, i32))
        ensures
            p == (self.position().x, self.position().y),
    {
        (self.pos.x, self.pos.y)
    }

    /// Whether the player may move to the cell at `new_pos`, and if not,
    /// who is in the way. Nothing is changed.
    pub fn try_set_pos(&self, new_pos: GridCoord, mob_grid: &Grid2D<MobId>) -> (res: Result<
        (),
        MobId,
    >)
        requires
            mob_grid.wf(),
        ensures
            res == set_pos_verdict(self.position(), new_pos, mob_grid),
    {
        if self.pos.x == new_pos.x && self.pos.y == new_pos.y {
            return Ok(());
        }
        match mob_grid.get_in_rows(new_pos) {
            None => Err(MobId::NoMob),
            Some(mob) => match mob {
                MobId::NoMob => Ok(()),
                MobId::Mob(id) => Err(MobId::Mob(*id)),
                MobId::Player => Ok(()),
            },
        }
    }

    /// Moves the player to the cell at `new_pos` if `try_set_pos` allows
    /// it: the old cell is cleared, the marker is written at the new cell
    /// and the position is updated, all or nothing.
    pub fn set_pos(&mut self, new_pos: GridCoord, mob_grid: &mut Grid2D<MobId>) -> (res: Result<
        (),
        MobId,
    >)
        requires
            old(mob_grid).wf(),
        ensures
            res == set_pos_verdict(old(self).position(), new_pos, old(mob_grid)),
            final(mob_grid).wf(),
            final(mob_grid).width() == old(mob_grid).width(),
            final(mob_grid).height() == old(mob_grid).height(),
            res is Ok ==> final(self).position() == new_pos && final(mob_grid).cells()
                == moved_cells(old(mob_grid), old(self).position(), new_pos),
            res is Err ==> final(self).position() == old(self).position() && final(mob_grid).cells() == old(mob_grid).cells(),
            old(self).marked_on(old(mob_grid)) ==> final(self).marked_on(final(mob_grid)),
            forall|mobs: Mobs|
                old(self).marked_on(old(mob_grid)) && mobs.agrees_with(old(mob_grid))
                    ==> #[trigger] mobs.agrees_with(final(mob_grid)),
    {
        let res = self.try_set_pos(new_pos, mob_grid);
        if res.is_ok() {
            let ghost start = *mob_grid;
            let _ = mob_grid.set_in_rows(self.pos, MobId::NoMob);
            let ghost cleared = *mob_grid;
            let _ = mob_grid.set_in_rows(new_pos, MobId::Player);
            proof {
                let me = self.pos;
                if start.in_rows(me.y as int) {
                    start.lemma_index_in_bounds(me.x as int, me.y as int);
                }
                if start.in_rows(new_pos.y as int) {
                    start.lemma_index_in_bounds(new_pos.x as int, new_pos.y as int);
                }
                if old(self).marked_on(&start) {
                    assert(start.cells()[start.index_of(me.x as int, me.y as int)]
                        == MobId::Player);
                    assert forall|mobs: Mobs| mobs.agrees_with(&start) implies #[trigger]
                        mobs.agrees_with(mob_grid) by {
                        lemma_agreement_survives_write(&mobs, &start, &cleared, me, MobId::NoMob);
                        if me != new_pos {
                            assert(cleared.lookup(new_pos.x as int, new_pos.y as int) matches Some(
                                occupant,
                            ) && !(occupant is Mob));
                        }
                        lemma_agreement_survives_write(
                            &mobs,
                            &cleared,
                            mob_grid,
                            new_pos,
                            MobId::Player,
                        );
                    }
                }
            }
            self.pos = new_pos;
        }
        res
    }
}

/// Writing anything but the marker into a cell that did not hold it leaves
/// the player's marker where it is.
pub proof fn lemma_marker_survives_write(
    player: &PlayerPosition,
    before: &Grid2D<MobId>,
    after: &Grid2D<MobId>,
    i: int,
    val: MobId,
)
    requires
        after.width() == before.width(),
        after.height() == before.height(),
        0 <= i < before.cells().len(),
        after.cells() == before.cells().update(i, val),
        val != MobId::Player,
        before.cells()[i] != MobId::Player,
        player.marked_on(before),
    ensures
        player.marked_on(after),
{
    assert forall|k: int| 0 <= k < after.cells().len() implies (#[trigger] after.cells()[k]
        == MobId::Player <==> k == after.index_of(
        player.position().x as int,
        player.position().y as int,
    )) by {
        assert(before.cells()[k] == MobId::Player <==> k == before.index_of(
            player.position().x as int,
            player.position().y as int,
        ));
    }
}

/// Writing anything but a monster into a cell that held no monster keeps
/// the grid in agreement with the arena.
pub proof fn lemma_agreement_survives_write(
    mobs: &Mobs,
    before: &Grid2D<MobId>,
    after: &Grid2D<MobId>,
    pos: GridCoord,
    val: MobId,
)
    requires
        before.wf(),
        after.wf(),
        after.width() == before.width(),
        after.height() == before.height(),
        after.cells() == cells_with(before, before.cells(), pos, val),
        !(val is Mob),
        before.lookup(pos.x as int, pos.y as int) matches Some(occupant) ==> !(occupant is Mob),
        mobs.agrees_with(before),
    ensures
        mobs.agrees_with(after),
{
    if before.in_rows(pos.y as int) {
        let spot = before.index_of(pos.x as int, pos.y as int);
        before.lemma_index_in_bounds(pos.x as int, pos.y as int);
        assert forall|id: int| #[trigger]
            mobs.holds(id) && mobs.mob(id).is_monster() implies after.lookup(
            mobs.mob(id).cell().x as int,
            mobs.mob(id).cell().y as int,
        ) == Some(MobId::Mob(id as usize)) by {
            let c = mobs.mob(id).cell();
            before.lemma_index_in_bounds(c.x as int, c.y as int);
            assert(before.cells()[before.index_of(c.x as int, c.y as int)] == MobId::Mob(
                id as usize,
            ));
        }
        assert forall|i: int| 0 <= i < after.cells().len() implies (
        #[trigger] after.cells()[i] matches MobId::Mob(j) ==> mobs.holds(j as int) && mobs.mob(
            j as int,
        ).is_monster() && after.in_rows(mobs.mob(j as int).cell().y as int) && after.index_of(
            mobs.mob(j as int).cell().x as int,
            mobs.mob(j as int).cell().y as int,
        ) == i) by {
            if i != spot {
                assert(after.cells()[i] == before.cells()[i]);
            }
        }
    } else {
        assert(after.cells() == before.cells());
    }
}

/// The cell below `pos` is solid: a wall, or the bottom of the grid.
pub open spec fn floored(level: &Level, pos: GridCoord) -> bool {
    level.solid_at(pos.x as int, pos.y + 1)
}

/// The cell above `pos` is solid: a wall, or the top of the grid.
pub open spec fn ceiled(level: &Level, pos: GridCoord) -> bool {
    level.solid_at(pos.x as int, pos.y - 1)
}

/// There is a wall to the left and to the right of the cell `(x, y)`, to
/// brace against.
pub open spec fn stems(level: &Level, x: int, y: int) -> bool {
    level.wall_at(x - 1, y) && level.wall_at(x + 1, y)
}

/// An entity at `pos` does not fall: it has a floor, or it braces between
/// two walls, or it straddles a drop whose walls it can brace against.
pub open spec fn supported(level: &Level, x: int, y: int) -> bool {
    level.solid_at(x, y + 1) || stems(level, x, y + 1) || stems(level, x, y)
}

/// An entity at `pos` can climb up: nothing solid is above, and in the cell
/// above it can brace or is supported.
pub open spec fn climbable_up(level: &Level, pos: GridCoord) -> bool {
    !ceiled(level, pos) && (stems(level, pos.x as int, pos.y - 1) || supported(
        level,
        pos.x as int,
        pos.y - 1,
    ))
}

/// An entity at `pos` can climb down: nothing solid is below, and in the
/// cell below it can brace.
pub open spec fn climbable_down(level: &Level, pos: GridCoord) -> bool {
    !floored(level, pos) && stems(level, pos.x as int, pos.y + 1)
}

/// The player can be in the cell at `pos`: it is on the grid and holds
/// nobody else.
pub open spec fn occupiable(mob_grid: &Grid2D<MobId>, pos: GridCoord) -> bool {
    mob_grid.lookup(pos.x as int, pos.y as int) matches Some(occupant) && !(occupant is Mob)
}

/// The four moves of an entity.
#[derive(Clone, Copy, PartialEq, Eq, Structural, Debug)]
pub enum MoveDirection {
    WalkForward,
    WalkBackward,
    ClimbUp,
    ClimbDown,
}

/// The cell that a move in direction `dir` leads to. An entity that faces
/// `facing` (1 or -1) walks forward towards smaller `x` times `facing`.
pub open spec fn move_target(pos: GridCoord, dir: MoveDirection, facing: i32) -> GridCoord {
    match dir {
        MoveDirection::WalkForward => pos.shifted(-facing, 0),
        MoveDirection::WalkBackward => pos.shifted(facing as int, 0),
        MoveDirection::ClimbUp => pos.shifted(0, -1),
        MoveDirection::ClimbDown => pos.shifted(0, 1),
    }
}

/// The level lets an entity at `pos` move in direction `dir`: a walk needs
/// a target that is not solid, a climb up needs `climbable_up`, a climb
/// down needs no more than a missing floor.
pub open spec fn move_allowed(level: &Level, pos: GridCoord, dir: MoveDirection, facing: i32) -> bool {
    match dir {
        MoveDirection::WalkForward => !level.solid_at(pos.x - facing, pos.y as int),
        MoveDirection::WalkBackward => !level.solid_at(pos.x + facing, pos.y as int),
        MoveDirection::ClimbUp => climbable_up(level, pos),
        MoveDirection::ClimbDown => !floored(level, pos),
    }
}

/// Where `try_move` leads: to the target cell if the level allows the move
/// and the cell is occupiable, nowhere otherwise.
pub open spec fn move_result(
    pos: GridCoord,
    dir: MoveDirection,
    facing: i32,
    level: &Level,
    mob_grid: &Grid2D<MobId>,
) -> Option<GridCoord> {
    let target = move_target(pos, dir, facing);
    if move_allowed(level, pos, dir, facing) && occupiable(mob_grid, target) {
        Some(target)
    } else {
        None
    }
}

/// The cell below `pos` if it is solid, which makes it the floor of `pos`;
/// nothing if `pos` is over a drop.
pub fn has_floor(pos: GridCoord, level: &Level) -> (floor: Option<GridCoord>)
    requires
        level.grid.wf(),
        pos.y < i32::MAX,
    ensures
        floor is Some <==> floored(level, pos),
        floor matches Some(f) ==> f == pos.shifted(0, 1),
{
    let down_pos = pos.offset(0, 1);
    match level.grid.get_in_rows(down_pos) {
        None => Some(down_pos),
        Some(x) => match x {
            GridCellType::Empty => None,
            GridCellType::Wall => Some(down_pos),
        },
    }
}

/// Whether the cell above `pos` is solid.
pub fn has_ceiling(pos: GridCoord, level: &Level) -> (b: bool)
    requires
        level.grid.wf(),
        pos.y > i32::MIN,
    ensures
        b <==> ceiled(level, pos),
{
    let up_pos = pos.offset(0, -1);
    match level.grid.get_in_rows(up_pos) {
        None => true,
        Some(x) => match x {
            GridCellType::Empty => false,
            GridCellType::Wall => true,
        },
    }
}

/// Whether an entity in the cell at `pos`, a cell of the grid, can brace
/// between a wall to its left and a wall to its right.
pub fn can_stem(pos: GridCoord, level: &Level) -> (b: bool)
    requires
        level.grid.wf(),
        level.grid.in_rows(pos.y as int),
        i32::MIN < pos.x < i32::MAX,
    ensures
        b <==> stems(level, pos.x as int, pos.y as int),
{
    let left_pos = pos.offset(-1, 0);
    let right_pos = pos.offset(1, 0);
    let left_wall: bool = match level.grid.get_in_rows(left_pos) {
        Some(c) => *c == GridCellType::Wall,
        None => false,
    };
    let right_wall: bool = match level.grid.get_in_rows(right_pos) {
        Some(c) => *c == GridCellType::Wall,
        None => false,
    };
    left_wall && right_wall
}

/// For a cell over a drop, whether an entity in it can brace against the
/// walls of the drop; nothing for a cell with a floor.
pub fn can_straddle_drop(pos: GridCoord, level: &Level) -> (r: Option<bool>)
    requires
        level.grid.wf(),
        pos.y < i32::MAX,
        i32::MIN < pos.x < i32::MAX,
    ensures
        r is None <==> floored(level, pos),
        r matches Some(b) ==> (b <==> stems(level, pos.x as int, pos.y + 1)),
{
    if has_floor(pos, level).is_some() {
        return None;
    }
    let down_pos = pos.offset(0, 1);
    Some(can_stem(down_pos, level))
}

/// Whether an entity in the cell at `pos`, a cell of the grid, can climb
/// up.
pub fn can_climb_up(pos: GridCoord, level: &Level) -> (b: bool)
    requires
        level.grid.wf(),
        level.grid.in_rows(pos.y as int),
        i32::MIN < pos.x < i32::MAX,
    ensures
        b <==> climbable_up(level, pos),
{
    if has_ceiling(pos, level) {
        return false;
    }
    let up_pos = pos.offset(0, -1);
    can_stem(up_pos, level) || is_supported_position(up_pos, level)
}

/// Whether an entity in the cell at `pos` can climb down.
pub fn can_climb_down(pos: GridCoord, level: &Level) -> (b: bool)
    requires
        level.grid.wf(),
        pos.y < i32::MAX,
        i32::MIN < pos.x < i32::MAX,
    ensures
        b <==> climbable_down(level, pos),
{
    if has_floor(pos, level).is_some() {
        return false;
    }
    let down = pos.offset(0, 1);
    can_stem(down, level)
}

/// Whether an entity in the cell at `pos`, a cell of the grid, is held in
/// place. If it is not, it falls.
pub fn is_supported_position(pos: GridCoord, level: &Level) -> (b: bool)
    requires
        level.grid.wf(),
        level.grid.in_rows(pos.y as int),
        i32::MIN < pos.x < i32::MAX,
    ensures
        b <==> supported(level, pos.x as int, pos.y as int),
{
    match can_straddle_drop(pos, level) {
        Some(x) => x || can_stem(pos, level),
        None => true,
    }
}

/// Whether the cell at `pos` is solid: a wall, or outside the grid.
pub fn is_wall(pos: GridCoord, level: &Level) -> (b: bool)
    requires
        level.grid.wf(),
    ensures
        b <==> level.solid_at(pos.x as int, pos.y as int),
{
    match level.grid.get_in_rows(pos) {
        Some(x) => match x {
            GridCellType::Empty => false,
            GridCellType::Wall => true,
        },
        None => true,
    }
}

/// Whether the player can be in the cell at `pos`.
pub fn is_room_occupiable(pos: GridCoord, mob_grid: &Grid2D<MobId>) -> (b: bool)
    requires
        mob_grid.wf(),
    ensures
        b <==> occupiable(mob_grid, pos),
{
    match mob_grid.get_in_rows(pos) {
        None => false,
        Some(x) => match x {
            MobId::NoMob => true,
            MobId::Mob(_) => false,
            MobId::Player => true,
        },
    }
}

/// Decides a move of an entity in the cell at `pos`, a cell of the grid,
/// that faces `facing`: the cell that the move leads to, or nothing if the
/// level or the occupancy grid forbids it. Nothing is changed.
pub fn try_move(
    pos: GridCoord,
    dir: MoveDirection,
    facing: i32,
    level: &Level,
    mob_grid: &Grid2D<MobId>,
) -> (target: Option<GridCoord>)
    requires
        facing == 1 || facing == -1,
        level.grid.wf(),
        mob_grid.wf(),
        level.grid.in_rows(pos.y as int),
        i32::MIN < pos.x < i32::MAX,
    ensures
        target == move_result(pos, dir, facing, level, mob_grid),
{
    match dir {
        MoveDirection::WalkForward => {
            let new_pos = pos.offset(-facing, 0);
            if !is_wall(new_pos, level) && is_room_occupiable(new_pos, mob_grid) {
                Some(new_pos)
            } else {
                None
            }
        },
        MoveDirection::WalkBackward => {
            let new_pos = pos.offset(facing, 0);
            if !is_wall(new_pos, level) && is_room_occupiable(new_pos, mob_grid) {
                Some(new_pos)
            } else {
                None
            }
        },
        MoveDirection::ClimbUp => {
            if can_climb_up(pos, level) {
                let new_pos = pos.offset(0, -1);
                if is_room_occupiable(new_pos, mob_grid) {
                    Some(new_pos)
                } else {
                    None
                }
            } else {
                None
            }
        },
        MoveDirection::ClimbDown => {
            if can_climb_down(pos, level) || !has_floor(pos, level).is_some() {
                let new_pos = pos.offset(0, 1);
                if is_room_occupiable(new_pos, mob_grid) {
                    Some(new_pos)
                } else {
                    None
                }
            } else {
                None
            }
        },
    }
}

} // verus!
