use asteria_meadow::combat::{damage_number_text, melee_attack, melee_hits_enemy, projectile_hits_enemy, MELEE_DAMAGE};
use asteria_meadow::enemy::{enemy_contact_damage, respawn_enemies, slime, spawn_enemy, Enemy};
use asteria_meadow::player::{Facing, Player};
use asteria_meadow::skills::{cast_projectile, PROJECTILE_DAMAGE};

fn player(hp: i32) -> Player {
    Player { facing: Facing::Down, hp, max_hp: 100, alive: true }
}

fn enemy(hp: i32, contact_damage: i32) -> Enemy {
    Enemy { hp, max_hp: 30, contact_damage }
}

#[test]
fn spawn_enemy_is_a_slime() {
    let (e, tile) = spawn_enemy();
    assert_eq!(e, slime());
    assert_eq!(e, Enemy { hp: 30, max_hp: 30, contact_damage: 8 });
    assert_eq!((tile.x, tile.y), (20, 10));
}

#[test]
fn contact_damage_from_first_touching_enemy_only() {
    let mut p = player(100);
    let enemies = vec![enemy(30, 8), enemy(30, 20), enemy(30, 40)];
    let reset = enemy_contact_damage(&mut p, true, &enemies, &vec![false, true, true]);
    assert!(reset);
    assert_eq!(p.hp, 80);
}

#[test]
fn contact_damage_waits_for_cooldown() {
    let mut p = player(100);
    let enemies = vec![enemy(30, 8)];
    let reset = enemy_contact_damage(&mut p, false, &enemies, &vec![true]);
    assert!(!reset);
    assert_eq!(p, player(100));
}

#[test]
fn contact_damage_needs_touch() {
    let mut p = player(100);
    let enemies = vec![enemy(30, 8), enemy(30, 8)];
    let reset = enemy_contact_damage(&mut p, true, &enemies, &vec![false, false]);
    assert!(!reset);
    assert_eq!(p.hp, 100);
}

#[test]
fn contact_damage_stops_at_zero() {
    let mut p = player(5);
    let reset = enemy_contact_damage(&mut p, true, &vec![enemy(30, 8)], &vec![true]);
    assert!(reset);
    assert_eq!(p.hp, 0);
}

#[test]
fn projectile_hits_first_touching_enemy() {
    let mut enemies = vec![enemy(30, 8), enemy(30, 8), enemy(30, 8)];
    let hit = projectile_hits_enemy(&mut enemies, &vec![false, true, true], PROJECTILE_DAMAGE);
    assert_eq!(hit, Some(1));
    assert_eq!(enemies, vec![enemy(30, 8), enemy(18, 8), enemy(30, 8)]);
}

#[test]
fn projectile_misses_without_touch() {
    let mut enemies = vec![enemy(30, 8)];
    let hit = projectile_hits_enemy(&mut enemies, &vec![false], PROJECTILE_DAMAGE);
    assert_eq!(hit, None);
    assert_eq!(enemies, vec![enemy(30, 8)]);
}

#[test]
fn melee_hits_every_touching_enemy() {
    let mut enemies = vec![enemy(30, 8), enemy(5, 8), enemy(30, 8)];
    let any = melee_hits_enemy(&mut enemies, &vec![true, true, false], MELEE_DAMAGE);
    assert!(any);
    assert_eq!(enemies, vec![enemy(20, 8), enemy(-5, 8), enemy(30, 8)]);
}

#[test]
fn melee_without_touch_hits_nothing() {
    let mut enemies = vec![enemy(30, 8)];
    assert!(!melee_hits_enemy(&mut enemies, &vec![false], MELEE_DAMAGE));
    assert_eq!(enemies, vec![enemy(30, 8)]);
}

#[test]
fn attacks_go_the_facing_way_when_ready() {
    assert_eq!(melee_attack(true, true, Facing::Left), Some((-1, 0)));
    assert_eq!(melee_attack(true, false, Facing::Left), None);
    assert_eq!(melee_attack(false, true, Facing::Left), None);
    assert_eq!(cast_projectile(true, true, Facing::Up), Some((0, 1)));
    assert_eq!(cast_projectile(true, true, Facing::Down), Some((0, -1)));
    assert_eq!(cast_projectile(true, true, Facing::Right), Some((1, 0)));
    assert_eq!(cast_projectile(true, false, Facing::Up), None);
}

#[test]
fn damage_numbers_read_as_decimals() {
    assert_eq!(damage_number_text(10), "10");
    assert_eq!(damage_number_text(0), "0");
    assert_eq!(damage_number_text(1234), "1234");
    assert_eq!(damage_number_text(-7), "-7");
    assert_eq!(damage_number_text(i32::MIN), "-2147483648");
    assert_eq!(damage_number_text(i32::MAX), "2147483647");
}

#[test]
fn spawner_brings_slime_back_on_a_free_spot() {
    assert!(respawn_enemies(true, false));
    assert!(!respawn_enemies(true, true));
    assert!(!respawn_enemies(false, false));
    assert!(!respawn_enemies(false, true));
}
