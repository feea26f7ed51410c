//! The guide and the quest that it gives: accepting, counting defeats,
//! completing, and the reward.

use vstd::prelude::*;
use crate::{DialogState, Progression};
use crate::text::{decimal, push_decimal};
use crate::map::{TileCoord, is_layout_wall};

verus! {

/// Number of slimes that the guide's quest asks for.
pub const QUEST_TARGET: u32 = 5;

/// Experience that the guide gives for a completed quest.
pub const QUEST_REWARD_XP: u32 = 10;

/// A character that the player can talk to.
#[derive(Clone, Copy, Debug, PartialEq, Eq)]
pub struct Npc {
    pub name: &'static str,
}

/// The guide as it enters the map, and the tile where it stands, which is no
/// wall.
pub fn spawn_npc() -> (r: (Npc, TileCoord))
    ensures
        r.0.name@ == "Guide"@,
        r.1 == (TileCoord { x: 8, y: 6 }),
        !is_layout_wall(r.1),
{
    (Npc { name: "Guide" }, TileCoord { x: 8, y: 6 })
}

/// The state of the guide's quest.
#[derive(Clone, Copy, Debug, PartialEq, Eq, Structural)]
pub struct QuestState {
    pub accepted: bool,
    pub target: u32,
    pub progress: u32,
    pub completed: bool,
}

impl Default for QuestState {
    fn default() -> (q: Self)
        ensures
            !q.accepted && q.target == 0 && q.progress == 0 && !q.completed,
    {
        QuestState { accepted: false, target: 0, progress: 0, completed: false }
    }
}

/// The quest after one more defeat: an accepted quest that is not yet at its
/// target counts it, and completes when the count reaches the target.
pub open spec fn quest_after_defeat(q: QuestState) -> QuestState {
    if q.accepted && q.progress < q.target {
        QuestState {
            progress: (q.progress + 1) as u32,
            completed: if q.progress + 1 >= q.target { true } else { q.completed },
            ..q
        }
    } else {
        q
    }
}

/// The quest after `k` defeats, one after another.
pub open spec fn quest_after_defeats(q: QuestState, k: nat) -> QuestState
    decreases k,
{
    if k == 0 {
        q
    } else {
        quest_after_defeat(quest_after_defeats(q, (k - 1) as nat))
    }
}

/// Counts one defeat towards the quest.
pub fn record_defeat(quest: &mut QuestState)
    ensures
        *final(quest) == quest_after_defeat(*old(quest)),
{
    if quest.accepted && quest.progress < quest.target {
        quest.progress = quest.progress + 1;
        if quest.progress >= quest.target {
            quest.completed = true;
        }
    }
}

/// The guide's greeting when it hands out the quest.
pub open spec fn welcome_line(name: Seq<char>, target: nat) -> Seq<char> {
    name + ": Welcome to Asteria Meadow!\nI have a task for you: defeat "@ + decimal(target)
        + " slimes.\nReturn when done for a small reward."@
}

/// The guide's words while the quest runs.
pub open spec fn progress_line(name: Seq<char>, progress: nat, target: nat) -> Seq<char> {
    name + ": Progress: "@ + decimal(progress) + "/"@ + decimal(target) + ". Keep going!"@
}

/// The guide's words when it hands out the reward.
pub open spec fn reward_line(name: Seq<char>) -> Seq<char> {
    name + ": Well done! Take this bonus XP."@
}

/// What the guide says when the dialog opens on quest state `q`.
pub open spec fn talk_line(name: Seq<char>, q: QuestState) -> Seq<char> {
    if !q.accepted && !q.completed {
        welcome_line(name, QUEST_TARGET as nat)
    } else if q.accepted && !q.completed {
        progress_line(name, q.progress as nat, q.target as nat)
    } else {
        reward_line(name)
    }
}

/// The quest after the dialog opens: a fresh quest is accepted with its
/// target; a completed one is rewarded and stops counting as completed.
pub open spec fn quest_after_talk(q: QuestState) -> QuestState {
    if !q.accepted && !q.completed {
        QuestState { accepted: true, target: QUEST_TARGET, progress: 0, ..q }
    } else if q.accepted && !q.completed {
        q
    } else {
        QuestState { completed: false, ..q }
    }
}

/// Whether opening the dialog on quest state `q` hands out the reward.
pub open spec fn talk_rewards(q: QuestState) -> bool {
    q.completed
}

/// Talking to `npc`: when the player is `near` and the talk key was `pressed`,
/// the dialog opens or closes. Opening it accepts the quest, reports its
/// progress, or hands out the reward, and sets the dialog text; closing it
/// clears the text. The reward adds to the experience directly, with no
/// level-up.
pub fn handle_interact(
    dialog: &mut DialogState,
    quest: &mut QuestState,
    progression: &mut Progression,
    npc: &Npc,
    near: bool,
    pressed: bool,
)
    requires
        near && pressed && !old(dialog).open && talk_rewards(*old(quest))
            ==> old(progression).xp + QUEST_REWARD_XP <= u32::MAX,
    ensures
        !(near && pressed) ==> {
            &&& *final(dialog) == *old(dialog)
            &&& *final(quest) == *old(quest)
            &&& *final(progression) == *old(progression)
        },
        near && pressed ==> final(dialog).open == !old(dialog).open,
        near && pressed && old(dialog).open ==> {
            &&& final(dialog).text@ == Seq::<char>::empty()
            &&& *final(quest) == *old(quest)
            &&& *final(progression) == *old(progression)
        },
        near && pressed && !old(dialog).open ==> {
            &&& final(dialog).text@ == talk_line(npc.name@, *old(quest))
            &&& *final(quest) == quest_after_talk(*old(quest))
            &&& final(progression).level == old(progression).level
            &&& final(progression).xp_to_next == old(progression).xp_to_next
            &&& final(progression).xp == old(progression).xp
                + (if talk_rewards(*old(quest)) { QUEST_REWARD_XP } else { 0 })
        },
        near && pressed && !old(dialog).open && old(quest).accepted && !old(quest).completed
            ==> *final(quest) == *old(quest) && *final(progression) == *old(progression),
        near && pressed && !old(dialog).open && !old(quest).accepted && !old(quest).completed
            ==> final(quest).accepted && final(quest).target == 5 && final(quest).progress == 0 && !final(quest).completed,
        near && pressed && !old(dialog).open && old(quest).completed
            ==> !final(quest).completed && final(quest).accepted == old(quest).accepted
                && final(quest).progress == old(quest).progress && final(quest).target == old(quest).target
                && final(progression).xp == old(progression).xp + 10,
        old(quest).accepted ==> final(quest).progress == old(quest).progress,
{
    if !(near && pressed) {
        return;
    }
    dialog.open = !dialog.open;
    if dialog.open {
        if !quest.accepted && !quest.completed {
            quest.accepted = true;
            quest.target = QUEST_TARGET;
            quest.progress = 0;
            let mut text = String::from_str(npc.name);
            text.append(": Welcome to Asteria Meadow!\nI have a task for you: defeat ");
            push_decimal(&mut text, quest.target);
            text.append(" slimes.\nReturn when done for a small reward.");
            dialog.text = text;
        } else if quest.accepted && !quest.completed {
            let mut text = String::from_str(npc.name);
            text.append(": Progress: ");
            push_decimal(&mut text, quest.progress);
            text.append("/");
            push_decimal(&mut text, quest.target);
            text.append(". Keep going!");
            dialog.text = text;
        } else if quest.completed {
            let mut text = String::from_str(npc.name);
            text.append(": Well done! Take this bonus XP.");
            dialog.text = text;
            progression.xp = progression.xp + QUEST_REWARD_XP;
            quest.completed = false;
        }
    } else {
        dialog.text = String::new();
    }
}

/// The quest's counts are consistent: the progress never passes the target,
/// and a completed quest is an accepted one whose progress reached the target.
pub open spec fn quest_consistent(q: QuestState) -> bool {
    &&& q.progress <= q.target
    &&& q.completed ==> q.accepted && q.progress == q.target
}

/// Defeats and talking to the guide keep the quest's counts consistent.
pub proof fn lemma_quest_stays_consistent(q: QuestState)
    requires
        quest_consistent(q),
    ensures
        quest_consistent(quest_after_defeat(q)),
        quest_consistent(quest_after_talk(q)),
{
}

/// After `k` defeats an accepted quest has counted `k` more, up to its target,
/// and is completed once the count reaches the target; defeats do nothing to
/// a quest that was not accepted.
pub proof fn lemma_quest_after_defeats(q: QuestState, k: nat)
    requires
        quest_consistent(q),
    ensures
        q.accepted ==> quest_after_defeats(q, k).progress == (if q.progress + k <= q.target { q.progress + k } else { q.target as int }),
        q.accepted ==> (quest_after_defeats(q, k).completed <==> (q.completed || (q.progress < q.target && q.progress + k >= q.target))),
        q.accepted ==> quest_after_defeats(q, k).accepted && quest_after_defeats(q, k).target == q.target,
        !q.accepted ==> quest_after_defeats(q, k) == q,
        quest_consistent(quest_after_defeats(q, k)),
    decreases k,
{
    if k > 0 {
        lemma_quest_after_defeats(q, (k - 1) as nat);
    }
}

/// The guide's reward comes once: after it is handed out, no number of
/// further defeats completes the quest again.
pub proof fn lemma_reward_once(q: QuestState, k: nat)
    requires
        quest_consistent(q),
        q.completed,
    ensures
        !quest_after_defeats(quest_after_talk(q), k).completed,
{
    lemma_quest_after_defeats(quest_after_talk(q), k);
}

/// A freshly accepted quest completes with the target's defeat and not
/// before.
pub proof fn lemma_fresh_quest_completes_at_target(q: QuestState, k: nat)
    requires
        !q.accepted && !q.completed,
    ensures
        quest_after_defeats(quest_after_talk(q), k).completed <==> k >= QUEST_TARGET,
        quest_after_defeats(quest_after_talk(q), k).progress == (if k <= QUEST_TARGET { k } else { QUEST_TARGET as nat }),
{
    lemma_quest_after_defeats(quest_after_talk(q), k);
}

/// Talking to the guide while the quest runs changes nothing about the quest;
/// talking never lowers the progress of an accepted quest; only a fresh quest
/// is (re)started, with progress zero and target five; and handing out the
/// reward only clears the completion mark.
pub proof fn lemma_talk_keeps_progress(q: QuestState)
    ensures
        q.accepted && !q.completed ==> quest_after_talk(q) == q,
        q.accepted ==> quest_after_talk(q).progress == q.progress
            && quest_after_talk(q).target == q.target && quest_after_talk(q).accepted,
        !q.accepted && !q.completed ==> quest_after_talk(q).accepted && quest_after_talk(q).progress == 0
            && quest_after_talk(q).target == 5 && !quest_after_talk(q).completed,
        q.completed ==> !quest_after_talk(q).completed && quest_after_talk(q).progress == q.progress
            && quest_after_talk(q).target == q.target && quest_after_talk(q).accepted == q.accepted,
        talk_rewards(q) <==> q.completed,
{
}

/// A defeat counts exactly one more towards an accepted quest below its
/// target, completing it when the count reaches the target, and changes
/// nothing otherwise.
pub proof fn lemma_defeat_counts_one(q: QuestState)
    ensures
        q.accepted && q.progress < q.target ==> quest_after_defeat(q).progress == q.progress + 1
            && quest_after_defeat(q).accepted && quest_after_defeat(q).target == q.target
            && (quest_after_defeat(q).completed <==> (q.completed || q.progress + 1 >= q.target)),
        !(q.accepted && q.progress < q.target) ==> quest_after_defeat(q) == q,
{
}

} // verus!
