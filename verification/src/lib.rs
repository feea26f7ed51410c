//! Game rules of Asteria Meadow, a small top-down RPG: the tile map and its
//! collision grid, facing and movement decisions, contact and weapon damage,
//! experience and level-ups, the guide's quest and dialogue, HUD texts, and the
//! placeholder pixel sprites.
//!
//! Everything here works on plain values; the engine side (windows, input,
//! timers, floating-point positions, rendering) lives in the application.

pub mod assets;
pub mod combat;
pub mod enemy;
pub mod map;
pub mod npc;
pub mod player;
pub mod skills;
pub mod text;
pub mod ui;

use vstd::prelude::*;

verus! {

/// The window title.
pub const GAME_TITLE: &'static str = "Asteria Meadow";

/// Level and experience of the player.
#[derive(Clone, Copy, Debug, PartialEq, Eq, Structural)]
pub struct Progression {
    pub level: u32,
    pub xp: u32,
    pub xp_to_next: u32,
}

impl Default for Progression {
    fn default() -> (p: Self)
        ensures
            p.level == 0 && p.xp == 0 && p.xp_to_next == 0,
    {
        Progression { level: 0, xp: 0, xp_to_next: 0 }
    }
}

/// Whether the dialog box is shown, and what it says.
#[derive(Debug)]
pub struct DialogState {
    pub open: bool,
    pub text: String,
}

impl Default for DialogState {
    fn default() -> (d: Self)
        ensures
            !d.open && d.text@ == Seq::<char>::empty(),
    {
        DialogState { open: false, text: String::new() }
    }
}

/// Whether the player has fallen and waits to respawn.
#[derive(Clone, Copy, Debug, PartialEq, Eq, Structural)]
pub struct DeathState {
    pub dead: bool,
}

impl Default for DeathState {
    fn default() -> (d: Self)
        ensures
            !d.dead,
    {
        DeathState { dead: false }
    }
}

} // verus!
