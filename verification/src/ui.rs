//! HUD and overlay texts and decisions.

use vstd::prelude::*;
use crate::{DialogState, Progression};
use crate::npc::QuestState;
use crate::text::{decimal, push_decimal};

verus! {

/// The quest part of the HUD line.
pub open spec fn quest_status(quest: Option<QuestState>) -> Seq<char> {
    match quest {
        Some(q) => if q.accepted && !q.completed {
            "Quest: "@ + decimal(q.progress as nat) + "/"@ + decimal(q.target as nat)
        } else if q.completed {
            "Quest: Complete!"@
        } else {
            "Quest: —"@
        },
        None => "Quest: —"@,
    }
}

/// The quest part of the HUD line: progress while the quest runs, a note once
/// it is complete, a dash otherwise.
pub fn quest_status_text(quest: Option<&QuestState>) -> (s: String)
    ensures
        s@ == quest_status(match quest { Some(q) => Some(*q), None => None }),
{
    match quest {
        Some(q) => {
            if q.accepted && !q.completed {
                let mut s = String::from_str("Quest: ");
                push_decimal(&mut s, q.progress);
                s.append("/");
                push_decimal(&mut s, q.target);
                s
            } else if q.completed {
                String::from_str("Quest: Complete!")
            } else {
                String::from_str("Quest: —")
            }
        },
        None => String::from_str("Quest: —"),
    }
}

/// The HUD line with level, experience and quest.
pub open spec fn level_line(p: Progression, quest: Option<QuestState>) -> Seq<char> {
    "Lvl "@ + decimal(p.level as nat) + "  XP "@ + decimal(p.xp as nat) + "/"@ + decimal(p.xp_to_next as nat)
        + "  "@ + quest_status(quest)
}

/// The HUD line with level, experience and quest.
pub fn level_text(progression: &Progression, quest: Option<&QuestState>) -> (s: String)
    ensures
        s@ == level_line(*progression, match quest { Some(q) => Some(*q), None => None }),
{
    let mut s = String::from_str("Lvl ");
    push_decimal(&mut s, progression.level);
    s.append("  XP ");
    push_decimal(&mut s, progression.xp);
    s.append("/");
    push_decimal(&mut s, progression.xp_to_next);
    s.append("  ");
    let q = quest_status_text(quest);
    s.append(q.as_str());
    s
}

/// The dialog box: shown while the dialog is open, with the dialog text and
/// a closing hint; `None` while it is closed (the box hides and keeps its
/// text).
pub fn sync_dialog_visibility(dialog: &DialogState) -> (shown: Option<String>)
    ensures
        shown is Some <==> dialog.open,
        shown matches Some(s) ==> s@ == dialog.text@ + "\n(Press E or Space to close)"@,
{
    if dialog.open {
        let mut s = String::from_str(dialog.text.as_str());
        s.append("\n(Press E or Space to close)");
        Some(s)
    } else {
        None
    }
}

/// What happens to the death overlay in a frame.
#[derive(Clone, Copy, Debug, PartialEq, Eq, Structural)]
pub enum OverlayAction {
    Spawn,
    Despawn,
    Keep,
}

/// The death overlay follows the death state: it appears when the player has
/// fallen and none is shown, and goes when the player is back.
pub fn sync_death_overlay(dead: bool, overlay_exists: bool) -> (a: OverlayAction)
    ensures
        a == (if dead && !overlay_exists {
            OverlayAction::Spawn
        } else if !dead && overlay_exists {
            OverlayAction::Despawn
        } else {
            OverlayAction::Keep
        }),
{
    if dead && !overlay_exists {
        OverlayAction::Spawn
    } else if !dead && overlay_exists {
        OverlayAction::Despawn
    } else {
        OverlayAction::Keep
    }
}

} // verus!
