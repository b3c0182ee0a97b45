//! Collisions of bullets with their targets and the damage they do.

use vstd::prelude::*;
use crate::mob::{MagicColor, MobData, MobId, Mobs, MONSTER_HP};

verus! {

/// How close to the player a bullet must come to hit, in sub-cell units:
/// four tenths of a cell.
pub const PLAYER_HIT_DISTANCE: i64 = 26214;

/// Hit points that a bullet takes from a monster of the other colour, or
/// gives to a monster of its own colour.
pub const PLAYER_TO_MONSTER_DAMAGE: i32 = 33;

/// Hit points that a bullet takes from a player of the other colour. A
/// player of its own colour gains a quarter of that.
pub const MONSTER_TO_PLAYER_DAMAGE: i32 = 100;

/// What collided.
#[derive(Clone, Copy, PartialEq, Eq, Structural, Debug)]
pub enum CollisionType {
    /// A bullet of the given colour hit the given occupant of a cell.
    Bullet(MobId, MagicColor),
}

/// A collision that waits for its damage to be done.
#[derive(Clone, Copy, PartialEq, Eq, Structural, Debug)]
pub struct Collision {
    pub collision_type: CollisionType,
}

/// What a hit left and what it took.
#[derive(Clone, Copy, PartialEq, Eq, Structural, Debug)]
pub struct DamageReport {
    pub remaining_hp: i32,
    pub hit_damage: i32,
}

/// What a hit did to the player, for the screen to show.
#[derive(Clone, Copy, PartialEq, Eq, Structural, Debug)]
pub enum DamageIndicator {
    PlayerHit,
    PlayerHeal,
    Other,
}

/// `v`, but not below `lo` and not above `hi`.
pub open spec fn clamped(v: int, lo: int, hi: int) -> int {
    if v < lo {
        lo
    } else if v > hi {
        hi
    } else {
        v
    }
}

/// An entity after a bullet of colour `bullet_color` has hit it: a bullet of
/// its own colour heals it, a bullet of the other colour hurts it, within
/// `0 ..= MONSTER_HP`; without hit points it is dead. A hit does not bring
/// the dead back.
pub open spec fn hit_monster(mob: MobData, bullet_color: MagicColor) -> MobData {
    let raw = if mob.color != bullet_color {
        mob.hp - PLAYER_TO_MONSTER_DAMAGE
    } else {
        mob.hp + PLAYER_TO_MONSTER_DAMAGE
    };
    let hp = clamped(raw, 0, MONSTER_HP as int) as i32;
    MobData { hp, is_alive: mob.is_alive && hp > 0, ..mob }
}

/// The hit points of the player after a bullet of colour `bullet_color` has
/// hit: a bullet of the player's colour heals by a quarter of
/// `MONSTER_TO_PLAYER_DAMAGE`, a bullet of the other colour takes all of
/// it, within `0 ..= max_player_hp`.
pub open spec fn hit_player(
    player_hp: i32,
    max_player_hp: i32,
    player_color: MagicColor,
    bullet_color: MagicColor,
) -> i32 {
    let raw = if player_color != bullet_color {
        player_hp - MONSTER_TO_PLAYER_DAMAGE
    } else {
        player_hp + MONSTER_TO_PLAYER_DAMAGE / 4
    };
    clamped(raw, 0, max_player_hp as int) as i32
}

/// The arena and the hit points of the player after the damage of one
/// collision: a monster that is hit changes as `hit_monster` says, the
/// player's hit points change as `hit_player` says, and a hit on a slot
/// that holds nobody, or on nobody, changes nothing.
pub open spec fn damaged(
    slots: Seq<Option<MobData>>,
    player_hp: i32,
    collision: Collision,
    max_player_hp: i32,
    player_color: MagicColor,
) -> (Seq<Option<MobData>>, i32) {
    match collision.target() {
        MobId::NoMob => (slots, player_hp),
        MobId::Mob(id) => {
            if id < slots.len() && slots[id as int] is Some {
                (
                    slots.update(
                        id as int,
                        Some(hit_monster(slots[id as int].unwrap(), collision.color())),
                    ),
                    player_hp,
                )
            } else {
                (slots, player_hp)
            }
        },
        MobId::Player => (
            slots,
            hit_player(player_hp, max_player_hp, player_color, collision.color()),
        ),
    }
}

/// The arena and the hit points of the player after the damage of the
/// first `n` of the collisions, one after the other.
pub open spec fn damaged_by(
    slots: Seq<Option<MobData>>,
    player_hp: i32,
    collisions: Seq<Collision>,
    n: int,
    max_player_hp: i32,
    player_color: MagicColor,
) -> (Seq<Option<MobData>>, i32)
    decreases n,
{
    if n <= 0 {
        (slots, player_hp)
    } else {
        let earlier = damaged_by(slots, player_hp, collisions, n - 1, max_player_hp, player_color);
        damaged(earlier.0, earlier.1, collisions[n - 1], max_player_hp, player_color)
    }
}

impl Collision {
    /// Whom the bullet hit.
    pub open spec fn target(&self) -> MobId {
        match self.collision_type {
            CollisionType::Bullet(target, _) => target,
        }
    }

    /// The colour of the bullet.
    pub open spec fn color(&self) -> MagicColor {
        match self.collision_type {
            CollisionType::Bullet(_, color) => color,
        }
    }

    pub fn new_with_bullet(target: MobId, color: MagicColor) -> (c: Self)
        ensures
            c.collision_type == CollisionType::Bullet(target, color),
    {
        Collision { collision_type: CollisionType::Bullet(target, color) }
    }

    /// Does the damage of the collision. A monster that is hit changes as
    /// `hit_monster` says; a slot that holds nobody is left alone. The
    /// player's hit points change as `hit_player` says. Nothing else
    /// changes.
    pub fn damage_target(
        &self,
        mobs: &mut Mobs,
        player_hp: &mut i32,
        max_player_hp: i32,
        player_color: MagicColor,
    ) -> (shown: DamageIndicator)
        requires
            max_player_hp >= 0,
        ensures
            final(mobs).mob_list@ == old(mobs).mob_list@,
            old(mobs).wf() ==> final(mobs).wf(),
            (final(mobs).slots@, *final(player_hp)) == damaged(
                old(mobs).slots@,
                *old(player_hp),
                *self,
                max_player_hp,
                player_color,
            ),
            match self.target() {
                MobId::NoMob => {
                    &&& shown == DamageIndicator::Other
                    &&& final(mobs).slots@ == old(mobs).slots@
                    &&& *final(player_hp) == *old(player_hp)
                },
                MobId::Mob(id) => {
                    &&& shown == DamageIndicator::Other
                    &&& *final(player_hp) == *old(player_hp)
                    &&& final(mobs).slots@ == (if old(mobs).holds(id as int) {
                        old(mobs).slots@.update(
                            id as int,
                            Some(hit_monster(old(mobs).mob(id as int), self.color())),
                        )
                    } else {
                        old(mobs).slots@
                    })
                },
                MobId::Player => {
                    &&& shown == (if player_color != self.color() {
                        DamageIndicator::PlayerHit
                    } else {
                        DamageIndicator::PlayerHeal
                    })
                    &&& final(mobs).slots@ == old(mobs).slots@
                    &&& *final(player_hp) == hit_player(
                        *old(player_hp),
                        max_player_hp,
                        player_color,
                        self.color(),
                    )
                },
            },
            forall|grid: crate::grid2d::Grid2D<MobId>|
                old(mobs).agrees_with(&grid) ==> #[trigger] final(mobs).agrees_with(&grid),
    {
        match self.collision_type {
            CollisionType::Bullet(m, bullet_color) => {
                match m {
                    MobId::NoMob => DamageIndicator::Other,
                    MobId::Mob(id) => {
                        match mobs.get(id) {
                            Some(mob) => {
                                let raw: i64 = if !same_color(mob.color, bullet_color) {
                                    mob.hp as i64 - PLAYER_TO_MONSTER_DAMAGE as i64
                                } else {
                                    mob.hp as i64 + PLAYER_TO_MONSTER_DAMAGE as i64
                                };
                                let hp: i32 = clamp_to(raw, 0, MONSTER_HP);
                                let hurt = MobData { hp, is_alive: mob.is_alive && hp > 0, ..mob };
                                mobs.replace(id, hurt);
                                proof {
                                    assert forall|grid: crate::grid2d::Grid2D<MobId>|
                                        old(mobs).agrees_with(&grid) implies #[trigger]
                                        mobs.agrees_with(&grid) by {
                                        old(mobs).lemma_replace_keeps_agreement(
                                            mobs,
                                            &grid,
                                            id as int,
                                            hurt,
                                        );
                                    }
                                }
                            },
                            None => {},
                        }
                        DamageIndicator::Other
                    },
                    MobId::Player => {
                        let (raw, indicator): (i64, DamageIndicator) = if !same_color(
                            player_color,
                            bullet_color,
                        ) {
                            (
                                *player_hp as i64 - MONSTER_TO_PLAYER_DAMAGE as i64,
                                DamageIndicator::PlayerHit,
                            )
                        } else {
                            (
                                *player_hp as i64 + (MONSTER_TO_PLAYER_DAMAGE / 4) as i64,
                                DamageIndicator::PlayerHeal,
                            )
                        };
                        *player_hp = clamp_to(raw, 0, max_player_hp);
                        indicator
                    },
                }
            },
        }
    }
}

/// Whether two colours are the same.
pub fn same_color(a: MagicColor, b: MagicColor) -> (same: bool)
    ensures
        same <==> a == b,
{
    match (a, b) {
        (MagicColor::White, MagicColor::White) => true,
        (MagicColor::Black, MagicColor::Black) => true,
        _ => false,
    }
}

/// `v`, but not below `lo` and not above `hi`.
fn clamp_to(v: i64, lo: i32, hi: i32) -> (r: i32)
    requires
        lo <= hi,
    ensures
        r == clamped(v as int, lo as int, hi as int),
{
    if v < lo as i64 {
        lo
    } else if v > hi as i64 {
        hi
    } else {
        v as i32
    }
}

/// The colour rule for monsters. A hit of the monster's own colour raises
/// its hit points, by the full amount or up to `MONSTER_HP`. A hit of the
/// other colour lowers them, by the full amount or down to zero. A monster
/// left without hit points is dead.
pub proof fn lemma_color_rule(mob: MobData, bullet_color: MagicColor)
    requires
        0 <= mob.hp <= MONSTER_HP,
    ensures
        mob.color == bullet_color ==> hit_monster(mob, bullet_color).hp >= mob.hp && hit_monster(
            mob,
            bullet_color,
        ).hp == (if mob.hp + PLAYER_TO_MONSTER_DAMAGE > MONSTER_HP {
            MONSTER_HP as int
        } else {
            mob.hp + PLAYER_TO_MONSTER_DAMAGE
        }),
        mob.color != bullet_color ==> hit_monster(mob, bullet_color).hp <= mob.hp && hit_monster(
            mob,
            bullet_color,
        ).hp == (if mob.hp < PLAYER_TO_MONSTER_DAMAGE {
            0
        } else {
            mob.hp - PLAYER_TO_MONSTER_DAMAGE
        }),
        mob.color != bullet_color && mob.hp > 0 ==> hit_monster(mob, bullet_color).hp < mob.hp,
        mob.color == bullet_color && mob.hp < MONSTER_HP ==> hit_monster(mob, bullet_color).hp
            > mob.hp,
        hit_monster(mob, bullet_color).hp <= 0 ==> !hit_monster(mob, bullet_color).is_alive,
        0 <= hit_monster(mob, bullet_color).hp <= MONSTER_HP,
{
}

/// A monster that a hit has left without hit points is gone from the roster
/// after the next sweep: the sweep keeps exactly the entries that
/// `alive_pred` accepts, and the monster's entry is not among them.
pub proof fn lemma_killed_monster_is_swept(mobs: Mobs, id: usize, bullet_color: MagicColor, after: Mobs)
    requires
        mobs.wf(),
        mobs.holds(id as int),
        after.mob_list@ == mobs.mob_list@,
        after.slots@ == mobs.slots@.update(
            id as int,
            Some(hit_monster(mobs.mob(id as int), bullet_color)),
        ),
        hit_monster(mobs.mob(id as int), bullet_color).hp <= 0,
    ensures
        !after.mob(id as int).is_alive,
        !after.mob_list@.filter(after.alive_pred()).contains(id),
{
    let kept = after.mob_list@.filter(after.alive_pred());
    if kept.contains(id) {
        let i = choose|i: int| 0 <= i < kept.len() && kept[i] == id;
        after.mob_list@.lemma_filter_pred(after.alive_pred(), i);
    }
}

} // verus!
