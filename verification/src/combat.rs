//! Weapon hits: the projectile strikes the first enemy it touches, the melee
//! swing every enemy it touches; and the floating damage numbers.

use vstd::prelude::*;
use crate::enemy::{Enemy, is_first_set};
use crate::player::Facing;
use crate::text::{push_signed_decimal, signed_decimal};

verus! {

/// Damage of one melee swing.
pub const MELEE_DAMAGE: i32 = 10;

/// The enemies after those flagged in `hits` take `damage`; the rest stay.
pub open spec fn enemies_after_hits(enemies: Seq<Enemy>, hits: Seq<bool>, damage: int) -> Seq<Enemy> {
    Seq::new(enemies.len(), |i: int|
        if hits[i] { Enemy { hp: (enemies[i].hp - damage) as i32, ..enemies[i] } } else { enemies[i] })
}

/// A projectile against the enemies: `overlapping[i]` tells whether it touches
/// enemy `i`. The first enemy that it touches loses `damage` hit points and
/// its index is returned (the projectile is then used up); with none touched,
/// nothing changes.
pub fn projectile_hits_enemy(enemies: &mut Vec<Enemy>, overlapping: &Vec<bool>, damage: i32) -> (hit: Option<usize>)
    requires
        overlapping@.len() == old(enemies)@.len(),
        forall|i: int| is_first_set(overlapping@, i)
            ==> i32::MIN <= old(enemies)@[i].hp - damage <= i32::MAX,
    ensures
        final(enemies)@.len() == old(enemies)@.len(),
        match hit {
            Some(i) => is_first_set(overlapping@, i as int)
                && final(enemies)@ == old(enemies)@.update(i as int,
                    Enemy { hp: (old(enemies)@[i as int].hp - damage) as i32, ..old(enemies)@[i as int] }),
            None => (forall|i: int| 0 <= i < overlapping@.len() ==> !overlapping@[i])
                && final(enemies)@ == old(enemies)@,
        },
{
    let mut i: usize = 0;
    while i < enemies.len()
        invariant
            overlapping@.len() == enemies@.len(),
            enemies@ == old(enemies)@,
            i <= enemies@.len(),
            forall|j: int| 0 <= j < i ==> !overlapping@[j],
            forall|k: int| is_first_set(overlapping@, k)
                ==> i32::MIN <= old(enemies)@[k].hp - damage <= i32::MAX,
        decreases enemies@.len() - i,
    {
        if overlapping[i] {
            assert(is_first_set(overlapping@, i as int));
            let mut e = enemies[i];
            e.hp = e.hp - damage;
            enemies.set(i, e);
            return Some(i);
        }
        i = i + 1;
    }
    None
}

/// Every enemy that a hit touches loses exactly `damage` hit points and
/// keeps its other values, the last one included; every other enemy stays as
/// it was; no enemy is added or dropped.
pub proof fn lemma_hits_damage_each_touched(enemies: Seq<Enemy>, hits: Seq<bool>, damage: int)
    requires
        hits.len() == enemies.len(),
        forall|i: int| 0 <= i < hits.len() && hits[i] ==> i32::MIN <= enemies[i].hp - damage <= i32::MAX,
    ensures
        enemies_after_hits(enemies, hits, damage).len() == enemies.len(),
        forall|i: int| 0 <= i < enemies.len() && hits[i] ==> {
            &&& #[trigger] enemies_after_hits(enemies, hits, damage)[i].hp == enemies[i].hp - damage
            &&& enemies_after_hits(enemies, hits, damage)[i].max_hp == enemies[i].max_hp
            &&& enemies_after_hits(enemies, hits, damage)[i].contact_damage == enemies[i].contact_damage
        },
        forall|i: int| 0 <= i < enemies.len() && !hits[i] ==> #[trigger] enemies_after_hits(enemies, hits, damage)[i] == enemies[i],
{
}

/// A melee swing against the enemies: every enemy that it touches
/// (`overlapping[i]`) loses `damage` hit points. Returns whether any was
/// touched, in which case the swing is used up.
pub fn melee_hits_enemy(enemies: &mut Vec<Enemy>, overlapping: &Vec<bool>, damage: i32) -> (any_hit: bool)
    requires
        overlapping@.len() == old(enemies)@.len(),
        forall|i: int| 0 <= i < overlapping@.len() && overlapping@[i]
            ==> i32::MIN <= old(enemies)@[i].hp - damage <= i32::MAX,
    ensures
        final(enemies)@ == enemies_after_hits(old(enemies)@, overlapping@, damage as int),
        final(enemies)@.len() == old(enemies)@.len(),
        forall|i: int| 0 <= i < old(enemies)@.len() && overlapping@[i] ==> {
            &&& final(enemies)@[i].hp == old(enemies)@[i].hp - damage
            &&& final(enemies)@[i].max_hp == old(enemies)@[i].max_hp
            &&& final(enemies)@[i].contact_damage == old(enemies)@[i].contact_damage
        },
        forall|i: int| 0 <= i < old(enemies)@.len() && !overlapping@[i] ==> final(enemies)@[i] == old(enemies)@[i],
        any_hit == exists|i: int| 0 <= i < overlapping@.len() && overlapping@[i],
{
    let mut any_hit = false;
    let mut i: usize = 0;
    while i < enemies.len()
        invariant
            overlapping@.len() == enemies@.len(),
            enemies@.len() == old(enemies)@.len(),
            i <= enemies@.len(),
            forall|j: int| 0 <= j < i ==> enemies@[j] == enemies_after_hits(old(enemies)@, overlapping@, damage as int)[j],
            forall|j: int| i <= j < enemies@.len() ==> enemies@[j] == old(enemies)@[j],
            forall|k: int| 0 <= k < overlapping@.len() && overlapping@[k]
                ==> i32::MIN <= old(enemies)@[k].hp - damage <= i32::MAX,
            any_hit == exists|j: int| 0 <= j < i && overlapping@[j],
        decreases enemies@.len() - i,
    {
        if overlapping[i] {
            let mut e = enemies[i];
            e.hp = e.hp - damage;
            enemies.set(i, e);
            any_hit = true;
        }
        i = i + 1;
    }
    assert(enemies@ =~= enemies_after_hits(old(enemies)@, overlapping@, damage as int));
    any_hit
}

/// The melee swing: when the attack key or button was just pressed and the
/// melee cooldown has finished, a swing goes out in the facing direction,
/// whose unit step is returned; the cooldown then starts over.
pub fn melee_attack(pressed: bool, cooldown_finished: bool, facing: Facing) -> (swing: Option<(i32, i32)>)
    ensures
        swing is Some <==> pressed && cooldown_finished,
        swing matches Some(d) ==> d == facing.unit_step(),
{
    if pressed && cooldown_finished {
        Some(facing.unit_vector())
    } else {
        None
    }
}

/// The text of a floating damage number.
pub fn damage_number_text(amount: i32) -> (s: String)
    ensures
        s@ == signed_decimal(amount as int),
{
    let mut s = String::new();
    push_signed_decimal(&mut s, amount);
    s
}

} // verus!
