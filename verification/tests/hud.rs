use asteria_meadow::npc::QuestState;
use asteria_meadow::ui::{level_text, quest_status_text, sync_death_overlay, sync_dialog_visibility, OverlayAction};
use asteria_meadow::{DialogState, Progression, GAME_TITLE};

#[test]
fn title() {
    assert_eq!(GAME_TITLE, "Asteria Meadow");
}

#[test]
fn quest_line_states() {
    assert_eq!(quest_status_text(None), "Quest: —");
    assert_eq!(quest_status_text(Some(&QuestState::default())), "Quest: —");
    let running = QuestState { accepted: true, target: 5, progress: 3, completed: false };
    assert_eq!(quest_status_text(Some(&running)), "Quest: 3/5");
    let done = QuestState { completed: true, progress: 5, ..running };
    assert_eq!(quest_status_text(Some(&done)), "Quest: Complete!");
}

#[test]
fn level_line() {
    let p = Progression { level: 1, xp: 0, xp_to_next: 10 };
    assert_eq!(level_text(&p, None), "Lvl 1  XP 0/10  Quest: —");
    let p = Progression { level: 12, xp: 345, xp_to_next: 6789 };
    let q = QuestState { accepted: true, target: 5, progress: 0, completed: false };
    assert_eq!(level_text(&p, Some(&q)), "Lvl 12  XP 345/6789  Quest: 0/5");
}

#[test]
fn dialog_box_follows_state() {
    let closed = DialogState::default();
    assert_eq!(sync_dialog_visibility(&closed), None);
    let open = DialogState { open: true, text: "Guide: hello".to_string() };
    assert_eq!(sync_dialog_visibility(&open), Some("Guide: hello\n(Press E or Space to close)".to_string()));
}

#[test]
fn death_overlay_follows_state() {
    assert_eq!(sync_death_overlay(true, false), OverlayAction::Spawn);
    assert_eq!(sync_death_overlay(true, true), OverlayAction::Keep);
    assert_eq!(sync_death_overlay(false, true), OverlayAction::Despawn);
    assert_eq!(sync_death_overlay(false, false), OverlayAction::Keep);
}
