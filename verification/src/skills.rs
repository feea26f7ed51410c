//! The active skill: a bolt cast in the facing direction, with a cooldown.

use vstd::prelude::*;
use crate::player::Facing;

verus! {

/// Damage of one bolt.
pub const PROJECTILE_DAMAGE: i32 = 12;

/// Casting the bolt: when the skill key was just pressed and the skill
/// cooldown has finished, a bolt goes out in the facing direction, whose unit
/// step is returned; the cooldown then starts over.
pub fn cast_projectile(just_pressed: bool, cooldown_finished: bool, facing: Facing) -> (bolt: Option<(i32, i32)>)
    ensures
        bolt is Some <==> just_pressed && cooldown_finished,
        bolt matches Some(d) ==> d == facing.unit_step(),
{
    if just_pressed && cooldown_finished {
        Some(facing.unit_vector())
    } else {
        None
    }
}

} // verus!
