use asteria_meadow::enemy::{add_xp, cleanup_dead_enemies, Enemy, DEFEAT_XP};
use asteria_meadow::npc::QuestState;
use asteria_meadow::Progression;

fn start() -> Progression {
    Progression { level: 1, xp: 0, xp_to_next: 10 }
}

#[test]
fn add_xp_below_threshold_keeps_level() {
    let mut p = start();
    add_xp(&mut p, 7);
    assert_eq!(p, Progression { level: 1, xp: 7, xp_to_next: 10 });
}

#[test]
fn add_xp_levels_up_and_raises_threshold() {
    let mut p = start();
    add_xp(&mut p, 7);
    add_xp(&mut p, 7);
    // 14 - 10 = 4; the next threshold is ceil(10 * 1.25) + 3 = 16.
    assert_eq!(p, Progression { level: 2, xp: 4, xp_to_next: 16 });
}

#[test]
fn add_xp_crosses_several_levels() {
    let mut p = start();
    add_xp(&mut p, 100);
    // thresholds 10, 16, 23, 32 are spent; 43 is next.
    assert_eq!(p, Progression { level: 5, xp: 19, xp_to_next: 43 });
}

#[test]
fn add_xp_threshold_rounds_up() {
    let mut p = Progression { level: 3, xp: 20, xp_to_next: 23 };
    add_xp(&mut p, 3);
    // ceil(23 * 1.25) = ceil(28.75) = 29, plus 3.
    assert_eq!(p, Progression { level: 4, xp: 0, xp_to_next: 32 });
}

#[test]
fn add_xp_from_zero_threshold() {
    let mut p = Progression::default();
    add_xp(&mut p, 0);
    assert_eq!(p, Progression { level: 1, xp: 0, xp_to_next: 3 });
}

#[test]
fn xp_gains_compose() {
    for a in 0..60u32 {
        for b in 0..60u32 {
            let mut two_steps = start();
            add_xp(&mut two_steps, a);
            add_xp(&mut two_steps, b);
            let mut one_step = start();
            add_xp(&mut one_step, a + b);
            assert_eq!(two_steps, one_step, "a = {}, b = {}", a, b);
        }
    }
}

#[test]
fn xp_stays_below_threshold_after_gain() {
    for a in 0..200u32 {
        let mut p = start();
        add_xp(&mut p, a);
        assert!(p.xp < p.xp_to_next);
        assert!(p.level >= 1);
    }
}

fn slime_with_hp(hp: i32) -> Enemy {
    Enemy { hp, max_hp: 30, contact_damage: 8 }
}

#[test]
fn cleanup_removes_defeated_enemies_and_rewards() {
    let mut p = start();
    let mut quest = QuestState { accepted: true, target: 5, progress: 1, completed: false };
    let enemies = vec![slime_with_hp(0), slime_with_hp(5), slime_with_hp(-3)];
    let dead = cleanup_dead_enemies(&mut p, &mut quest, &enemies);
    assert_eq!(dead, vec![true, false, true]);
    assert_eq!(p, Progression { level: 2, xp: 4, xp_to_next: 16 });
    assert_eq!(quest, QuestState { accepted: true, target: 5, progress: 3, completed: false });
    assert_eq!(DEFEAT_XP, 7);
}

#[test]
fn cleanup_without_defeats_changes_nothing() {
    let mut p = Progression { level: 1, xp: 12, xp_to_next: 10 };
    let mut quest = QuestState { accepted: true, target: 5, progress: 4, completed: false };
    let enemies = vec![slime_with_hp(30), slime_with_hp(1)];
    let dead = cleanup_dead_enemies(&mut p, &mut quest, &enemies);
    assert_eq!(dead, vec![false, false]);
    assert_eq!(p, Progression { level: 1, xp: 12, xp_to_next: 10 });
    assert_eq!(quest.progress, 4);
}

#[test]
fn cleanup_completes_quest_at_target() {
    let mut p = start();
    let mut quest = QuestState { accepted: true, target: 5, progress: 4, completed: false };
    let enemies = vec![slime_with_hp(-1), slime_with_hp(0)];
    cleanup_dead_enemies(&mut p, &mut quest, &enemies);
    assert_eq!(quest, QuestState { accepted: true, target: 5, progress: 5, completed: true });
}

#[test]
fn cleanup_without_accepted_quest_counts_nothing() {
    let mut p = start();
    let mut quest = QuestState::default();
    cleanup_dead_enemies(&mut p, &mut quest, &vec![slime_with_hp(0)]);
    assert_eq!(quest, QuestState::default());
    assert_eq!(p.xp, 7);
}

#[test]
fn threshold_growth_matches_single_precision_quarter_rounded_up() {
    let mut t: u32 = 0;
    while t <= 3_355_443 {
        let mut p = Progression { level: 0, xp: t, xp_to_next: t };
        add_xp(&mut p, 0);
        let expected = (t as f32 * 1.25).ceil() as u32 + 3;
        assert_eq!(p.xp_to_next, expected, "t = {}", t);
        assert_eq!((p.level, p.xp), (1, 0));
        t += if t < 10_000 { 1 } else { 997 };
    }
}
