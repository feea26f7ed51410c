//! The player: facing from the movement keys, the sprite frame for each
//! facing, and the fall-and-respawn cycle.

use vstd::prelude::*;
use crate::DeathState;
use crate::map::{TileCoord, is_layout_wall};

verus! {

/// The four directions that the player can face.
#[derive(Clone, Copy, Debug, PartialEq, Eq, Structural)]
pub enum Facing {
    Up,
    Down,
    Left,
    Right,
}

/// The player's combat values and facing.
#[derive(Clone, Copy, Debug, PartialEq, Eq, Structural)]
pub struct Player {
    pub facing: Facing,
    pub hp: i32,
    pub max_hp: i32,
    pub alive: bool,
}

/// The tile where the player starts and respawns.
pub open spec fn start_tile() -> TileCoord {
    TileCoord { x: 5, y: 6 }
}

/// The player as it enters the map, and the tile where it enters, which is
/// no wall.
pub fn spawn_player() -> (r: (Player, TileCoord))
    ensures
        r.0 == (Player { facing: Facing::Down, hp: 100, max_hp: 100, alive: true }),
        r.1 == start_tile(),
        !is_layout_wall(r.1),
{
    (Player { facing: Facing::Down, hp: 100, max_hp: 100, alive: true }, TileCoord { x: 5, y: 6 })
}

/// Axis input from a pair of opposite keys: +1, -1 or 0.
pub open spec fn axis(plus: bool, minus: bool) -> int {
    (if plus { 1int } else { 0int }) - (if minus { 1int } else { 0int })
}

/// The facing after a frame with the given movement keys held: with no net
/// input the facing stays; otherwise the dominant axis decides, and on a
/// diagonal the vertical one.
pub open spec fn facing_for_input(current: Facing, up: bool, down: bool, left: bool, right: bool) -> Facing {
    let dx = axis(right, left);
    let dy = axis(up, down);
    if dx == 0 && dy == 0 {
        current
    } else if (if dx < 0 { -dx } else { dx }) > (if dy < 0 { -dy } else { dy }) {
        if dx > 0 { Facing::Right } else { Facing::Left }
    } else {
        if dy > 0 { Facing::Up } else { Facing::Down }
    }
}

/// Facing from the keys: with no net input the facing stays; any net
/// vertical input decides, diagonals included (up before down cancels to
/// none); otherwise the net horizontal input decides.
pub proof fn lemma_facing_keys(current: Facing, up: bool, down: bool, left: bool, right: bool)
    ensures
        up == down && left == right ==> facing_for_input(current, up, down, left, right) == current,
        up && !down ==> facing_for_input(current, up, down, left, right) == Facing::Up,
        down && !up ==> facing_for_input(current, up, down, left, right) == Facing::Down,
        up == down && left && !right ==> facing_for_input(current, up, down, left, right) == Facing::Left,
        up == down && right && !left ==> facing_for_input(current, up, down, left, right) == Facing::Right,
{
}

/// The facing after a frame of player movement with the given keys held
/// (up: W or Up arrow, down: S or Down arrow, left: A or Left arrow, right: D
/// or Right arrow).
pub fn facing_after_input(current: Facing, up: bool, down: bool, left: bool, right: bool) -> (f: Facing)
    ensures
        f == facing_for_input(current, up, down, left, right),
        up == down && left == right ==> f == current,
        up && !down ==> f == Facing::Up,
        down && !up ==> f == Facing::Down,
        up == down && left && !right ==> f == Facing::Left,
        up == down && right && !left ==> f == Facing::Right,
{
    let mut dx: i32 = 0;
    let mut dy: i32 = 0;
    if up {
        dy = dy + 1;
    }
    if down {
        dy = dy - 1;
    }
    if left {
        dx = dx - 1;
    }
    if right {
        dx = dx + 1;
    }
    if dx == 0 && dy == 0 {
        return current;
    }
    let ax: i32 = if dx < 0 { -dx } else { dx };
    let ay: i32 = if dy < 0 { -dy } else { dy };
    if ax > ay {
        if dx > 0 { Facing::Right } else { Facing::Left }
    } else {
        if dy > 0 { Facing::Up } else { Facing::Down }
    }
}

impl Facing {
    /// The unit step in this direction, with y pointing up.
    pub open spec fn unit_step(self) -> (i32, i32) {
        match self {
            Facing::Up => (0i32, 1i32),
            Facing::Down => (0i32, -1i32),
            Facing::Left => (-1i32, 0i32),
            Facing::Right => (1i32, 0i32),
        }
    }

    /// The frame of the player sprite sheet for this facing: Up, Down, Left,
    /// Right in that order.
    pub open spec fn frame_index(self) -> u32 {
        match self {
            Facing::Up => 0u32,
            Facing::Down => 1u32,
            Facing::Left => 2u32,
            Facing::Right => 3u32,
        }
    }

    /// The frame of the player sprite sheet drawn for this facing: Up, Down,
    /// Left, Right in that order.
    pub fn atlas_index(&self) -> (i: usize)
        ensures
            i == self.frame_index(),
            i < 4,
    {
        match self {
            Facing::Up => 0,
            Facing::Down => 1,
            Facing::Left => 2,
            Facing::Right => 3,
        }
    }

    /// The unit step in this direction, with y pointing up.
    pub fn unit_vector(&self) -> (v: (i32, i32))
        ensures
            v == self.unit_step(),
    {
        match self {
            Facing::Up => (0, 1),
            Facing::Down => (0, -1),
            Facing::Left => (-1, 0),
            Facing::Right => (1, 0),
        }
    }
}

/// The death state after the fall check: fallen if it was, or if the
/// player's hit points are used up.
pub open spec fn after_fall_check(death: DeathState, player: Player) -> DeathState {
    DeathState { dead: death.dead || player.hp <= 0 }
}

/// The death state, the player, and whether it came back, after the respawn
/// check with the respawn timer `finished` or not.
pub open spec fn after_respawn_check(death: DeathState, player: Player, finished: bool) -> (DeathState, Player, bool) {
    if death.dead && finished {
        (DeathState { dead: false }, Player { hp: player.max_hp, ..player }, true)
    } else {
        (death, player, false)
    }
}

/// Each facing's step is one tile long along one axis, points its way (y
/// counting upwards), and differs from every other facing's; each facing has
/// its own sheet frame among the four.
pub proof fn lemma_facing_steps(f: Facing, g: Facing)
    ensures
        f == Facing::Up ==> f.unit_step().0 == 0 && f.unit_step().1 > 0,
        f == Facing::Down ==> f.unit_step().0 == 0 && f.unit_step().1 < 0,
        f == Facing::Left ==> f.unit_step().0 < 0 && f.unit_step().1 == 0,
        f == Facing::Right ==> f.unit_step().0 > 0 && f.unit_step().1 == 0,
        f.unit_step().0 * f.unit_step().0 + f.unit_step().1 * f.unit_step().1 == 1,
        f != g ==> f.unit_step() != g.unit_step() && f.frame_index() != g.frame_index(),
        f.frame_index() < 4,
{
}

/// The first half of a frame of the death cycle: a living player whose hit
/// points are used up falls. Returns whether it fell now, in which case the
/// respawn timer starts over.
pub fn begin_fall(death: &mut DeathState, player: &Player) -> (fell: bool)
    ensures
        fell == (!old(death).dead && player.hp <= 0),
        *final(death) == after_fall_check(*old(death), *player),
{
    if !death.dead && player.hp <= 0 {
        death.dead = true;
        true
    } else {
        false
    }
}

/// The second half of a frame of the death cycle, after the respawn timer has
/// ticked: a fallen player whose timer has `finished` comes back with full hit
/// points. Returns whether it came back, in which case it moves to the start.
pub fn respawn_if_ready(death: &mut DeathState, player: &mut Player, finished: bool) -> (respawned: bool)
    ensures
        (*final(death), *final(player), respawned) == after_respawn_check(*old(death), *old(player), finished),
{
    if death.dead && finished {
        player.hp = player.max_hp;
        death.dead = false;
        true
    } else {
        false
    }
}

/// The death cycle: a player whose hit points are used up falls, stays down
/// while the respawn timer runs, and once it finishes is back on its feet
/// with full hit points.
pub proof fn lemma_fall_then_respawn(death: DeathState, player: Player)
    requires
        player.hp <= 0,
    ensures
        after_fall_check(death, player).dead,
        after_respawn_check(after_fall_check(death, player), player, false)
            == (after_fall_check(death, player), player, false),
        after_respawn_check(after_fall_check(death, player), player, true)
            == (DeathState { dead: false }, Player { hp: player.max_hp, ..player }, true),
{
}

} // verus!
