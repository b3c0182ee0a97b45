//! The level editor: what its events do to the level, the entities and the
//! occupancy grid.

use vstd::prelude::*;
use crate::animation::{boundary_cell_of, monsters_in_world};
use crate::coords::{GridCoord, SUBCELLS};
use crate::grid2d::{Grid2D, GridCellType, WallGridCell};
use crate::level::{apply_boundary_conditions_i32, Level};
use crate::mob::{MagicColor, MobData, MobId, Mobs};
use crate::player_movement::{lemma_marker_survives_write, PlayerPosition};

verus! {

/// The brushes of the editor, in the order in which it cycles through
/// them.
pub const BRUSH_COUNT: usize = 2;

/// The state of the level editor: the brush in use.
pub struct LevelEditor {
    pub current_brush_idx: usize,
}

/// What the user of the editor did.
#[derive(Clone, Copy, PartialEq, Eq, Structural, Debug)]
pub enum EditorEvent {
    /// Take the next brush.
    CycleBrush,
    /// Paint the cell with the brush in use.
    Paint(GridCoord),
    /// Put a decoration with this sprite index at this point of the world,
    /// in sub-cell units.
    PlaceFlavor(i64, i64, usize),
    /// Let the player start in this cell.
    SetPlayerStart(usize, usize),
    /// Make a monster of this colour in this cell.
    SpawnMonster(GridCoord, MagicColor),
    /// Kill the monster in this cell.
    KillMonster(GridCoord),
    /// Leave the editor.
    Leave,
    /// Save the level to its file.
    Save,
    /// Load the level from its file.
    Load,
}

/// What is left to do after the editor has handled an event.
#[derive(Clone, Copy, PartialEq, Eq, Structural, Debug)]
pub enum EditorAction {
    Nothing,
    LeaveEditor,
    SaveLevel,
    LoadLevel,
}

/// The brush with the given index.
pub open spec fn brush(idx: usize) -> WallGridCell {
    if idx == 0 {
        GridCellType::Empty
    } else {
        GridCellType::Wall
    }
}

/// The decoration stands in the cell.
pub open spec fn flavor_in_cell(sprite: (i64, i64, usize), cell: GridCoord) -> bool {
    sprite.0 as int / (SUBCELLS as int) == cell.x && sprite.1 as int / (SUBCELLS as int) == cell.y
}

/// The spawn cells without the given one.
pub open spec fn spawns_without(list: Seq<(i32, i32)>, cell: GridCoord) -> Seq<(i32, i32)> {
    list.filter(|p: (i32, i32)| !(p.0 == cell.x && p.1 == cell.y))
}

/// The decorations without those in the given cell.
pub open spec fn flavors_without(list: Seq<(i64, i64, usize)>, cell: GridCoord) -> Seq<
    (i64, i64, usize),
> {
    list.filter(|s: (i64, i64, usize)| !flavor_in_cell(s, cell))
}

/// The arena after the entity that the occupancy grid names in the cell
/// at `pos` has been killed.
pub open spec fn slots_after_kill(mobs: &Mobs, mob_grid: &Grid2D<MobId>, pos: GridCoord) -> Seq<
    Option<MobData>,
> {
    match mob_grid.lookup(pos.x as int, pos.y as int) {
        Some(MobId::Mob(id)) => if mobs.holds(id as int) {
            mobs.slots@.update(id as int, Some(MobData { is_alive: false, ..mobs.mob(id as int) }))
        } else {
            mobs.slots@
        },
        _ => mobs.slots@,
    }
}

/// A monster can be made in the cell at `pos`: it is on the grid and
/// nobody stands in it.
pub open spec fn can_spawn(mob_grid: &Grid2D<MobId>, pos: GridCoord) -> bool {
    mob_grid.lookup(pos.x as int, pos.y as int) == Some(MobId::NoMob)
}

impl LevelEditor {
    /// An editor with the wall brush in use.
    pub fn new() -> (editor: LevelEditor)
        ensures
            editor.current_brush_idx == 1,
    {
        LevelEditor { current_brush_idx: 1 }
    }

    /// The brush in use.
    pub fn current_brush(&self) -> (b: WallGridCell)
        ensures
            b == brush(self.current_brush_idx),
    {
        if self.current_brush_idx == 0 {
            GridCellType::Empty
        } else {
            GridCellType::Wall
        }
    }

    /// Takes the next brush, and the first after the last.
    pub fn cycle_brush(&mut self)
        ensures
            final(self).current_brush_idx == (old(self).current_brush_idx as int + 1) % (
            BRUSH_COUNT as int),
    {
        self.current_brush_idx = if self.current_brush_idx == usize::MAX {
            0
        } else {
            (self.current_brush_idx + 1) % BRUSH_COUNT
        };
    }

    /// Paints the cell at `cell` with the brush in use. Painting a cell
    /// empty also removes the decorations in it. A row outside the grid is
    /// left alone.
    pub fn paint(&self, world: &mut Level, cell: GridCoord)
        requires
            old(world).grid.wf(),
        ensures
            final(world).grid.wf(),
            final(world).grid.width() == old(world).grid.width(),
            final(world).grid.height() == old(world).grid.height(),
            final(world).grid.cells() == (if old(world).grid.in_rows(cell.y as int) {
                old(world).grid.cells().update(
                    old(world).grid.index_of(cell.x as int, cell.y as int),
                    brush(self.current_brush_idx),
                )
            } else {
                old(world).grid.cells()
            }),
            old(world).flavor_sprites is None ==> final(world).flavor_sprites is None,
            old(world).flavor_sprites matches Some(list) ==> final(world).flavor_sprites is Some
                && final(world).flavor_sprites.unwrap()@ == (if brush(self.current_brush_idx)
                == GridCellType::Empty {
                flavors_without(list@, cell)
            } else {
                list@
            }),
            final(world).player_start == old(world).player_start,
            final(world).win_room == old(world).win_room,
            final(world).mob_list == old(world).mob_list,
            final(world).filename == old(world).filename,
    {
        let current_brush = self.current_brush();
        let _ = world.grid.set_in_rows(cell, current_brush);
        if self.current_brush_idx == 0 {
            let kept: Option<Vec<(i64, i64, usize)>> = match &world.flavor_sprites {
                Some(flavor_sprites) => Some(sprites_outside(flavor_sprites, cell)),
                None => None,
            };
            match kept {
                Some(list) => {
                    world.flavor_sprites = Some(list);
                },
                None => {},
            }
        }
    }

    /// Puts a decoration with the given sprite index at the given point of
    /// the world, if the level takes decorations.
    pub fn place_flavor(&self, world: &mut Level, x: i64, y: i64, sprite_index: usize)
        ensures
            final(world).grid == old(world).grid,
            final(world).player_start == old(world).player_start,
            final(world).win_room == old(world).win_room,
            final(world).mob_list == old(world).mob_list,
            final(world).filename == old(world).filename,
            old(world).flavor_sprites is None ==> final(world).flavor_sprites is None,
            old(world).flavor_sprites matches Some(list) ==> final(world).flavor_sprites is Some
                && final(world).flavor_sprites.unwrap()@ == list@.push((x, y, sprite_index)),
    {
        match &mut world.flavor_sprites {
            Some(list) => {
                list.push((x, y, sprite_index));
            },
            None => {},
        }
    }

    /// Lets the player start in the given cell, if it is a cell of the
    /// grid.
    pub fn set_player_start(&self, world: &mut Level, cell: (usize, usize))
        ensures
            final(world).player_start == (if cell.0 < old(world).grid.width() && cell.1 < old(world).grid.height() {
                cell
            } else {
                old(world).player_start
            }),
            final(world).grid == old(world).grid,
            final(world).win_room == old(world).win_room,
            final(world).mob_list == old(world).mob_list,
            final(world).flavor_sprites == old(world).flavor_sprites,
            final(world).filename == old(world).filename,
            old(world).wf() ==> final(world).wf(),
    {
        let size = world.grid.get_size();
        if cell.0 < size.0 && cell.1 < size.1 {
            world.player_start = cell;
        }
    }

    /// Makes a monster of the given colour in the cell that `pos` addresses
    /// on the grid, if nobody stands there, and adds the cell to the spawn
    /// cells of the level. Says whether it did.
    pub fn spawn_monster(
        &self,
        world: &mut Level,
        mobs: &mut Mobs,
        mob_grid: &mut Grid2D<MobId>,
        pos: GridCoord,
        color: MagicColor,
    ) -> (placed: bool)
        requires
            old(mobs).wf(),
            old(mob_grid).wf(),
        ensures
            placed <==> old(mob_grid).lookup(pos.x as int, pos.y as int) == Some(MobId::NoMob),
            final(mobs).wf(),
            final(mob_grid).wf(),
            final(mob_grid).width() == old(mob_grid).width(),
            final(mob_grid).height() == old(mob_grid).height(),
            placed ==> {
                let cell = boundary_cell_of(pos, old(mob_grid));
                let id = old(mobs).next_slot();
                &&& final(mobs).slots@ == old(mobs).slots_with(id, Mobs::fresh_monster(cell, color))
                &&& final(mobs).mob_list@ == old(mobs).mob_list@.push(id as usize)
                &&& final(mob_grid).cells() == old(mob_grid).cells().update(
                    old(mob_grid).index_of(pos.x as int, pos.y as int),
                    MobId::Mob(id as usize),
                )
                &&& final(world).mob_list@ == old(world).mob_list@.push((cell.x, cell.y))
            },
            !placed ==> final(mobs).slots@ == old(mobs).slots@ && final(mobs).mob_list@ == old(mobs).mob_list@ && final(mob_grid).cells() == old(mob_grid).cells() && final(world).mob_list@ == old(world).mob_list@,
            final(world).grid == old(world).grid,
            final(world).player_start == old(world).player_start,
            final(world).win_room == old(world).win_room,
            final(world).flavor_sprites == old(world).flavor_sprites,
            final(world).filename == old(world).filename,
            old(mobs).agrees_with(old(mob_grid)) ==> final(mobs).agrees_with(final(mob_grid)),
            monsters_in_world(old(mobs), old(mob_grid)) ==> monsters_in_world(
                final(mobs),
                final(mob_grid),
            ),
            forall|player: PlayerPosition|
                player.marked_on(old(mob_grid)) ==> #[trigger] player.marked_on(final(mob_grid)),
    {
        let size = mob_grid.get_size();
        if pos.y < 0 || pos.y as usize >= size.1 {
            return false;
        }
        let cell = apply_boundary_conditions_i32(pos, size);
        proof {
            mob_grid.lemma_index_in_bounds(cell.x as int, cell.y as int);
            mob_grid.lemma_index_in_bounds(pos.x as int, pos.y as int);
            vstd::arithmetic::div_mod::lemma_mod_twice(pos.x as int, size.0 as int);
            assert(mob_grid.index_of(cell.x as int, cell.y as int) == mob_grid.index_of(
                pos.x as int,
                pos.y as int,
            ));
        }
        let placed: bool = mobs.new_monster(cell, mob_grid, color);
        if placed {
            world.mob_list.push((cell.x, cell.y));
            proof {
                let spot = old(mob_grid).index_of(cell.x as int, cell.y as int);
                let id = old(mobs).next_slot();
                assert forall|player: PlayerPosition| player.marked_on(old(mob_grid)) implies #[trigger]
                    player.marked_on(mob_grid) by {
                    lemma_marker_survives_write(
                        &player,
                        old(mob_grid),
                        mob_grid,
                        spot,
                        MobId::Mob(id as usize),
                    );
                }
                if monsters_in_world(old(mobs), old(mob_grid)) {
                    crate::mob::lemma_center_cell(cell);
                    assert forall|j: int| #[trigger]
                        mobs.holds(j) && mobs.mob(j).is_monster() implies 0 <= mobs.mob(j).pos.x
                        < mob_grid.width() * SUBCELLS && 0 <= mobs.mob(j).pos.y <= mob_grid.height()
                        * SUBCELLS by {
                        if j != id {
                            assert(old(mobs).holds(j));
                        }
                    }
                }
            }
        }
        placed
    }

    /// Kills the monster in the cell at `pos`: the cell leaves the spawn
    /// cells of the level, and the entity that the occupancy grid names
    /// there is dead, to be swept with the next frame.
    pub fn kill_monster(
        &self,
        world: &mut Level,
        mobs: &mut Mobs,
        mob_grid: &Grid2D<MobId>,
        pos: GridCoord,
    )
        requires
            old(mobs).wf(),
            mob_grid.wf(),
        ensures
            final(mobs).wf(),
            final(mobs).mob_list@ == old(mobs).mob_list@,
            final(mobs).slots@ == slots_after_kill(old(mobs), mob_grid, pos),
            final(world).mob_list@ == spawns_without(old(world).mob_list@, pos),
            final(world).grid == old(world).grid,
            final(world).player_start == old(world).player_start,
            final(world).win_room == old(world).win_room,
            final(world).flavor_sprites == old(world).flavor_sprites,
            final(world).filename == old(world).filename,
            old(mobs).agrees_with(mob_grid) ==> final(mobs).agrees_with(mob_grid),
            monsters_in_world(old(mobs), mob_grid) ==> monsters_in_world(final(mobs), mob_grid),
    {
        world.mob_list = spawns_outside(&world.mob_list, pos);
        match mob_grid.get_in_rows(pos) {
            Some(mob_to_die) => match mob_to_die {
                MobId::Mob(id) => {
                    match mobs.get(*id) {
                        Some(mob) => {
                            let dead = MobData { is_alive: false, ..mob };
                            mobs.replace(*id, dead);
                            proof {
                                if old(mobs).agrees_with(mob_grid) {
                                    old(mobs).lemma_replace_keeps_agreement(
                                        mobs,
                                        mob_grid,
                                        *id as int,
                                        dead,
                                    );
                                }
                                if monsters_in_world(old(mobs), mob_grid) {
                                    assert forall|j: int| #[trigger]
                                        mobs.holds(j) && mobs.mob(j).is_monster() implies 0
                                        <= mobs.mob(j).pos.x < mob_grid.width() * SUBCELLS && 0
                                        <= mobs.mob(j).pos.y <= mob_grid.height() * SUBCELLS by {
                                        assert(old(mobs).holds(j));
                                    }
                                }
                            }
                        },
                        None => {},
                    }
                },
                _ => {},
            },
            None => {},
        }
    }

    /// Handles an event of the editor. A level that takes no decorations
    /// yet takes them from now on. Then the event is handled as the
    /// function of its name says. Returns what is left to do: to leave the
    /// editor, or to save or load the level.
    pub fn handle(
        &mut self,
        event: EditorEvent,
        world: &mut Level,
        mobs: &mut Mobs,
        mob_grid: &mut Grid2D<MobId>,
    ) -> (action: EditorAction)
        requires
            old(world).grid.wf(),
            old(mobs).wf(),
            old(mob_grid).wf(),
        ensures
            action == (match event {
                EditorEvent::Leave => EditorAction::LeaveEditor,
                EditorEvent::Save => EditorAction::SaveLevel,
                EditorEvent::Load => EditorAction::LoadLevel,
                _ => EditorAction::Nothing,
            }),
            final(self).current_brush_idx == (if event == EditorEvent::CycleBrush {
                ((old(self).current_brush_idx as int + 1) % (BRUSH_COUNT as int)) as usize
            } else {
                old(self).current_brush_idx
            }),
            final(world).grid.wf(),
            final(world).grid.width() == old(world).grid.width(),
            final(world).grid.height() == old(world).grid.height(),
            final(world).flavor_sprites is Some,
            final(world).win_room == old(world).win_room,
            final(world).filename == old(world).filename,
            !(event is Paint) ==> final(world).grid == old(world).grid,
            event matches EditorEvent::Paint(cell) ==> final(world).grid.cells() == (if old(world).grid.in_rows(cell.y as int) {
                old(world).grid.cells().update(
                    old(world).grid.index_of(cell.x as int, cell.y as int),
                    brush(old(self).current_brush_idx),
                )
            } else {
                old(world).grid.cells()
            }),
            final(world).flavor_sprites.unwrap()@ == ({
                let list = match old(world).flavor_sprites {
                    Some(list) => list@,
                    None => Seq::empty(),
                };
                match event {
                    EditorEvent::Paint(cell) => if brush(old(self).current_brush_idx)
                        == GridCellType::Empty {
                        flavors_without(list, cell)
                    } else {
                        list
                    },
                    EditorEvent::PlaceFlavor(x, y, sprite_index) => list.push((x, y, sprite_index)),
                    _ => list,
                }
            }),
            final(world).player_start == (match event {
                EditorEvent::SetPlayerStart(x, y) => if x < old(world).grid.width() && y < old(world).grid.height() {
                    (x, y)
                } else {
                    old(world).player_start
                },
                _ => old(world).player_start,
            }),
            final(world).mob_list@ == (match event {
                EditorEvent::SpawnMonster(pos, _) => if old(mob_grid).lookup(
                    pos.x as int,
                    pos.y as int,
                ) == Some(MobId::NoMob) {
                    old(world).mob_list@.push(
                        (boundary_cell_of(pos, old(mob_grid)).x, boundary_cell_of(pos, old(mob_grid)).y),
                    )
                } else {
                    old(world).mob_list@
                },
                EditorEvent::KillMonster(pos) => spawns_without(old(world).mob_list@, pos),
                _ => old(world).mob_list@,
            }),
            final(mobs).wf(),
            final(mob_grid).wf(),
            final(mob_grid).width() == old(mob_grid).width(),
            final(mob_grid).height() == old(mob_grid).height(),
            final(mobs).slots@ == (match event {
                EditorEvent::SpawnMonster(pos, color) => if can_spawn(old(mob_grid), pos) {
                    old(mobs).slots_with(
                        old(mobs).next_slot(),
                        Mobs::fresh_monster(boundary_cell_of(pos, old(mob_grid)), color),
                    )
                } else {
                    old(mobs).slots@
                },
                EditorEvent::KillMonster(pos) => slots_after_kill(old(mobs), old(mob_grid), pos),
                _ => old(mobs).slots@,
            }),
            final(mobs).mob_list@ == (match event {
                EditorEvent::SpawnMonster(pos, _) => if can_spawn(old(mob_grid), pos) {
                    old(mobs).mob_list@.push(old(mobs).next_slot() as usize)
                } else {
                    old(mobs).mob_list@
                },
                _ => old(mobs).mob_list@,
            }),
            final(mob_grid).cells() == (match event {
                EditorEvent::SpawnMonster(pos, _) => if can_spawn(old(mob_grid), pos) {
                    old(mob_grid).cells().update(
                        old(mob_grid).index_of(pos.x as int, pos.y as int),
                        MobId::Mob(old(mobs).next_slot() as usize),
                    )
                } else {
                    old(mob_grid).cells()
                },
                _ => old(mob_grid).cells(),
            }),
            old(mobs).agrees_with(old(mob_grid)) ==> final(mobs).agrees_with(final(mob_grid)),
            monsters_in_world(old(mobs), old(mob_grid)) ==> monsters_in_world(
                final(mobs),
                final(mob_grid),
            ),
            forall|player: PlayerPosition|
                player.marked_on(old(mob_grid)) ==> #[trigger] player.marked_on(final(mob_grid)),
    {
        if world.flavor_sprites.is_none() {
            world.flavor_sprites = Some(Vec::new());
        }
        match event {
            EditorEvent::CycleBrush => {
                self.cycle_brush();
                EditorAction::Nothing
            },
            EditorEvent::Paint(cell) => {
                self.paint(world, cell);
                EditorAction::Nothing
            },
            EditorEvent::PlaceFlavor(x, y, sprite_index) => {
                self.place_flavor(world, x, y, sprite_index);
                EditorAction::Nothing
            },
            EditorEvent::SetPlayerStart(x, y) => {
                self.set_player_start(world, (x, y));
                EditorAction::Nothing
            },
            EditorEvent::SpawnMonster(pos, color) => {
                let _ = self.spawn_monster(world, mobs, mob_grid, pos, color);
                EditorAction::Nothing
            },
            EditorEvent::KillMonster(pos) => {
                self.kill_monster(world, mobs, mob_grid, pos);
                EditorAction::Nothing
            },
            EditorEvent::Leave => EditorAction::LeaveEditor,
            EditorEvent::Save => EditorAction::SaveLevel,
            EditorEvent::Load => EditorAction::LoadLevel,
        }
    }
}

/// The decorations that do not stand in the cell, in their order.
fn sprites_outside(list: &Vec<(i64, i64, usize)>, cell: GridCoord) -> (kept: Vec<(i64, i64, usize)>)
    ensures
        kept@ == flavors_without(list@, cell),
{
    let mut kept: Vec<(i64, i64, usize)> = Vec::new();
    let n: usize = list.len();
    let mut i: usize = 0;
    let ghost outside = |s: (i64, i64, usize)| !flavor_in_cell(s, cell);
    while i < n
        invariant
            i <= n,
            n == list@.len(),
            outside == (|s: (i64, i64, usize)| !flavor_in_cell(s, cell)),
            kept@ == list@.take(i as int).filter(outside),
        decreases n - i,
    {
        let s: (i64, i64, usize) = list[i];
        let cx: i64 = crate::coords::floor_div(s.0, SUBCELLS);
        let cy: i64 = crate::coords::floor_div(s.1, SUBCELLS);
        proof {
            let head = list@.take(i as int + 1);
            assert(head.drop_last() == list@.take(i as int));
            assert(head.last() == s);
            reveal_with_fuel(Seq::filter, 1);
        }
        if !(cx == cell.x as i64 && cy == cell.y as i64) {
            kept.push(s);
        }
        i += 1;
    }
    proof {
        assert(list@.take(n as int) == list@);
    }
    kept
}

/// The spawn cells other than the given one, in their order.
fn spawns_outside(list: &Vec<(i32, i32)>, cell: GridCoord) -> (kept: Vec<(i32, i32)>)
    ensures
        kept@ == spawns_without(list@, cell),
{
    let mut kept: Vec<(i32, i32)> = Vec::new();
    let n: usize = list.len();
    let mut i: usize = 0;
    let ghost other = |p: (i32, i32)| !(p.0 == cell.x && p.1 == cell.y);
    while i < n
        invariant
            i <= n,
            n == list@.len(),
            other == (|p: (i32, i32)| !(p.0 == cell.x && p.1 == cell.y)),
            kept@ == list@.take(i as int).filter(other),
        decreases n - i,
    {
        let p: (i32, i32) = list[i];
        proof {
            let head = list@.take(i as int + 1);
            assert(head.drop_last() == list@.take(i as int));
            assert(head.last() == p);
            reveal_with_fuel(Seq::filter, 1);
        }
        if !(p.0 == cell.x && p.1 == cell.y) {
            kept.push(p);
        }
        i += 1;
    }
    proof {
        assert(list@.take(n as int) == list@);
    }
    kept
}

} // verus!
