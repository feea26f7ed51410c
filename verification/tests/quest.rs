use asteria_meadow::enemy::sync_enemy_markers;
use asteria_meadow::map::{collides_with_walls, gate_tile, is_wall, open_gate_when_quest_done, spawn_map, TileCoord, TileMap};
use asteria_meadow::npc::{handle_interact, record_defeat, spawn_npc, Npc, QuestState, QUEST_REWARD_XP, QUEST_TARGET};
use asteria_meadow::{DialogState, Progression};

fn guide() -> Npc {
    Npc { name: "Guide" }
}

fn fresh() -> (DialogState, QuestState, Progression) {
    (DialogState::default(), QuestState::default(), Progression { level: 1, xp: 0, xp_to_next: 10 })
}

#[test]
fn spawn_npc_is_the_guide() {
    let (npc, tile) = spawn_npc();
    assert_eq!(npc.name, "Guide");
    assert_eq!((tile.x, tile.y), (8, 6));
}

#[test]
fn first_talk_accepts_the_quest() {
    let (mut dialog, mut quest, mut prog) = fresh();
    handle_interact(&mut dialog, &mut quest, &mut prog, &guide(), true, true);
    assert!(dialog.open);
    assert_eq!(
        dialog.text,
        "Guide: Welcome to Asteria Meadow!\nI have a task for you: defeat 5 slimes.\nReturn when done for a small reward."
    );
    assert_eq!(quest, QuestState { accepted: true, target: QUEST_TARGET, progress: 0, completed: false });
    assert_eq!(prog.xp, 0);
}

#[test]
fn talk_needs_nearness_and_key() {
    let (mut dialog, mut quest, mut prog) = fresh();
    handle_interact(&mut dialog, &mut quest, &mut prog, &guide(), false, true);
    handle_interact(&mut dialog, &mut quest, &mut prog, &guide(), true, false);
    assert!(!dialog.open);
    assert_eq!(dialog.text, "");
    assert_eq!(quest, QuestState::default());
}

#[test]
fn second_press_closes_and_clears() {
    let (mut dialog, mut quest, mut prog) = fresh();
    handle_interact(&mut dialog, &mut quest, &mut prog, &guide(), true, true);
    handle_interact(&mut dialog, &mut quest, &mut prog, &guide(), true, true);
    assert!(!dialog.open);
    assert_eq!(dialog.text, "");
    assert!(quest.accepted);
}

#[test]
fn talk_reports_progress() {
    let (mut dialog, mut quest, mut prog) = fresh();
    handle_interact(&mut dialog, &mut quest, &mut prog, &guide(), true, true);
    handle_interact(&mut dialog, &mut quest, &mut prog, &guide(), true, true);
    record_defeat(&mut quest);
    record_defeat(&mut quest);
    handle_interact(&mut dialog, &mut quest, &mut prog, &guide(), true, true);
    assert_eq!(dialog.text, "Guide: Progress: 2/5. Keep going!");
}

#[test]
fn completed_quest_rewards_once() {
    let (mut dialog, mut quest, mut prog) = fresh();
    handle_interact(&mut dialog, &mut quest, &mut prog, &guide(), true, true);
    handle_interact(&mut dialog, &mut quest, &mut prog, &guide(), true, true);
    for _ in 0..7 {
        record_defeat(&mut quest);
    }
    assert_eq!(quest, QuestState { accepted: true, target: 5, progress: 5, completed: true });
    handle_interact(&mut dialog, &mut quest, &mut prog, &guide(), true, true);
    assert_eq!(dialog.text, "Guide: Well done! Take this bonus XP.");
    assert_eq!(prog, Progression { level: 1, xp: QUEST_REWARD_XP, xp_to_next: 10 });
    assert!(!quest.completed);
    for _ in 0..3 {
        record_defeat(&mut quest);
    }
    assert!(!quest.completed);
    handle_interact(&mut dialog, &mut quest, &mut prog, &guide(), true, true);
    handle_interact(&mut dialog, &mut quest, &mut prog, &guide(), true, true);
    assert_eq!(dialog.text, "Guide: Progress: 5/5. Keep going!");
    assert_eq!(prog.xp, QUEST_REWARD_XP);
}

#[test]
fn defeats_before_accepting_do_not_count() {
    let mut quest = QuestState::default();
    record_defeat(&mut quest);
    assert_eq!(quest, QuestState::default());
}

#[test]
fn markers_show_while_quest_runs() {
    assert!(!sync_enemy_markers(None));
    assert!(!sync_enemy_markers(Some(&QuestState::default())));
    let running = QuestState { accepted: true, target: 5, progress: 2, completed: false };
    assert!(sync_enemy_markers(Some(&running)));
    let done = QuestState { completed: true, progress: 5, ..running };
    assert!(!sync_enemy_markers(Some(&done)));
}

#[test]
fn barrier_opens_when_quest_complete() {
    let mut m = TileMap::default();
    spawn_map(&mut m);
    let walls_before = m.walls.clone();
    assert!(is_wall(&m, gate_tile()));

    assert!(!open_gate_when_quest_done(&mut m, None));
    let running = QuestState { accepted: true, target: 5, progress: 2, completed: false };
    assert!(!open_gate_when_quest_done(&mut m, Some(&running)));
    assert_eq!(m.walls, walls_before);
    assert!(is_wall(&m, gate_tile()));

    let done = QuestState { completed: true, progress: 5, ..running };
    assert!(open_gate_when_quest_done(&mut m, Some(&done)));
    assert!(!is_wall(&m, gate_tile()));
    assert_eq!(m.walls.len(), walls_before.len() - 1);
    for w in &walls_before {
        if *w != gate_tile() {
            assert!(is_wall(&m, *w));
        }
    }
    let g = gate_tile();
    assert!(!collides_with_walls(&m, [g, g, g, g]));
    assert!(collides_with_walls(&m, [TileCoord { x: 19, y: 12 }, g, g, g]));

    // opening again changes nothing more
    assert!(open_gate_when_quest_done(&mut m, Some(&done)));
    assert_eq!(m.walls.len(), walls_before.len() - 1);
}

#[test]
fn fresh_quest_completes_with_fifth_defeat() {
    let (mut dialog, mut quest, mut prog) = fresh();
    handle_interact(&mut dialog, &mut quest, &mut prog, &guide(), true, true);
    for k in 1..=4 {
        record_defeat(&mut quest);
        assert_eq!(quest.progress, k);
        assert!(!quest.completed);
    }
    record_defeat(&mut quest);
    assert!(quest.completed);
    assert_eq!(quest.progress, 5);
    assert!(quest.progress <= quest.target);
}
