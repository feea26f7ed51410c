//! Enemy rules: contact damage, defeat rewards and experience.

use vstd::prelude::*;
use crate::Progression;
use crate::player::Player;
use crate::map::{TileCoord, is_layout_wall};
use crate::npc::{QuestState, quest_after_defeats, record_defeat};

verus! {

/// Experience awarded for each defeated enemy.
pub const DEFEAT_XP: u32 = 7;

/// The combat values of an enemy.
#[derive(Clone, Copy, Debug, PartialEq, Eq, Structural)]
pub struct Enemy {
    pub hp: i32,
    pub max_hp: i32,
    pub contact_damage: i32,
}

/// The slime that the map starts with and that its spawner brings back.
pub fn slime() -> (e: Enemy)
    ensures
        e.hp == 30 && e.max_hp == 30 && e.contact_damage == 8,
{
    Enemy { hp: 30, max_hp: 30, contact_damage: 8 }
}

/// Whether `i` is the first index at which `flags` is set.
pub open spec fn is_first_set(flags: Seq<bool>, i: int) -> bool {
    &&& 0 <= i < flags.len()
    &&& flags[i]
    &&& forall|j: int| 0 <= j < i ==> !flags[j]
}

/// Hit points after taking `damage`, never below zero.
pub open spec fn hp_after_contact(hp: int, damage: int) -> int {
    if hp - damage > 0 { hp - damage } else { 0 }
}

/// Contact damage lowers hit points by exactly the damage while that leaves
/// some, and to zero otherwise: never below zero, never more than the damage.
pub proof fn lemma_contact_hp(hp: int, damage: int)
    ensures
        hp - damage > 0 ==> hp_after_contact(hp, damage) == hp - damage,
        hp - damage <= 0 ==> hp_after_contact(hp, damage) == 0,
        hp_after_contact(hp, damage) >= 0,
        damage >= 0 && hp >= 0 ==> hp - damage <= hp_after_contact(hp, damage) <= hp,
{
}

/// The first set flag is one index: a set flag with no set flag before it.
/// It is unique, and there is one exactly when some flag is set.
pub proof fn lemma_first_set(flags: Seq<bool>, i: int, j: int)
    ensures
        is_first_set(flags, i) ==> 0 <= i < flags.len() && flags[i],
        is_first_set(flags, i) && is_first_set(flags, j) ==> i == j,
        is_first_set(flags, i) ==> forall|k: int| 0 <= k < i ==> !flags[k],
        (0 <= j < flags.len() && flags[j]) ==> exists|k: int| is_first_set(flags, k),
        (0 <= j < flags.len() && flags[j] && forall|k: int| 0 <= k < j ==> !flags[k]) ==> is_first_set(flags, j),
    decreases j,
{
    if 0 <= j < flags.len() && flags[j] {
        if exists|k: int| 0 <= k < j && flags[k] {
            let k = choose|k: int| 0 <= k < j && flags[k];
            lemma_first_set(flags, i, k);
        } else {
            assert(is_first_set(flags, j));
        }
    }
}

/// Contact damage in one frame. `overlapping[i]` tells whether enemy `i`
/// touches the player and `cooldown_finished` whether the player's contact
/// cooldown has run out. If it has, the first touching enemy deals its contact
/// damage (hit points stop at zero) and the cooldown starts over, which keeps
/// the others from dealing damage in this frame. Returns whether the cooldown
/// starts over.
pub fn enemy_contact_damage(player: &mut Player, cooldown_finished: bool, enemies: &Vec<Enemy>, overlapping: &Vec<bool>) -> (reset: bool)
    requires
        overlapping@.len() == enemies@.len(),
        forall|i: int| cooldown_finished && is_first_set(overlapping@, i)
            ==> i32::MIN <= old(player).hp - enemies@[i].contact_damage <= i32::MAX,
    ensures
        reset == (cooldown_finished && exists|i: int| 0 <= i < overlapping@.len() && overlapping@[i]),
        reset ==> exists|i: int| is_first_set(overlapping@, i)
            && final(player).hp == hp_after_contact(old(player).hp as int, enemies@[i].contact_damage as int),
        reset ==> final(player).hp >= 0,
        reset ==> exists|i: int| #![trigger overlapping@[i]] is_first_set(overlapping@, i) && {
            let lowered = old(player).hp - enemies@[i].contact_damage;
            &&& lowered > 0 ==> final(player).hp == lowered
            &&& lowered <= 0 ==> final(player).hp == 0
        },
        *final(player) == (Player { hp: final(player).hp, ..*old(player) }),
        !reset ==> *final(player) == *old(player),
{
    let mut ready = cooldown_finished;
    let mut i: usize = 0;
    let ghost mut hit: int = -1;
    while i < enemies.len()
        invariant
            overlapping@.len() == enemies@.len(),
            i <= enemies@.len(),
            forall|k: int| cooldown_finished && is_first_set(overlapping@, k)
                ==> i32::MIN <= old(player).hp - enemies@[k].contact_damage <= i32::MAX,
            ready == (cooldown_finished && forall|j: int| 0 <= j < i ==> !overlapping@[j]),
            ready ==> *player == *old(player),
            !cooldown_finished ==> *player == *old(player),
            cooldown_finished && !ready ==> is_first_set(overlapping@, hit) && hit < i
                && player.hp == hp_after_contact(old(player).hp as int, enemies@[hit].contact_damage as int),
            *player == (Player { hp: player.hp, ..*old(player) }),
        decreases enemies@.len() - i,
    {
        if overlapping[i] {
            if ready {
                proof {
                    hit = i as int;
                    assert(is_first_set(overlapping@, hit));
                }
                let damage = enemies[i].contact_damage;
                let lowered = player.hp - damage;
                player.hp = if lowered > 0 { lowered } else { 0 };
                ready = false;
            }
        }
        i = i + 1;
    }
    let reset = cooldown_finished && !ready;
    proof {
        if reset {
            assert(overlapping@[hit]);
        }
    }
    reset
}

/// The slime that the map starts with, and the tile where it and its spawner
/// stand, which is no wall.
pub fn spawn_enemy() -> (r: (Enemy, TileCoord))
    ensures
        r.0 == (Enemy { hp: 30, max_hp: 30, contact_damage: 8 }),
        r.1 == (TileCoord { x: 20, y: 10 }),
        !is_layout_wall(r.1),
{
    (slime(), TileCoord { x: 20, y: 10 })
}

/// Number of enemies in `enemies` whose hit points are used up.
pub open spec fn dead_count(enemies: Seq<Enemy>) -> nat
    decreases enemies.len(),
{
    if enemies.len() == 0 {
        0
    } else {
        dead_count(enemies.drop_last()) + (if enemies.last().hp <= 0 { 1nat } else { 0nat })
    }
}

/// The next level-up threshold after one of `t`: a quarter more, rounded up,
/// plus three.
pub open spec fn next_threshold(t: nat) -> nat {
    ((5 * t + 3) / 4 + 3) as nat
}

/// The `(level, xp, xp_to_next)` that experience `xp` settles into, spending
/// thresholds one after another while `xp` reaches the current one.
pub open spec fn settle(level: nat, xp: nat, next: nat) -> (nat, nat, nat)
    decreases xp, (if next == 0 { 1int } else { 0int }),
{
    if xp >= next {
        settle(level + 1, (xp - next) as nat, next_threshold(next))
    } else {
        (level, xp, next)
    }
}

/// Every level and threshold reached while settling fits in a `u32`.
pub open spec fn settles_within_u32(level: nat, xp: nat, next: nat) -> bool
    decreases xp, (if next == 0 { 1int } else { 0int }),
{
    if xp >= next {
        &&& level + 1 <= u32::MAX
        &&& next_threshold(next) <= u32::MAX
        &&& settles_within_u32(level + 1, (xp - next) as nat, next_threshold(next))
    } else {
        true
    }
}

/// The progression as a triple of naturals.
pub open spec fn progression_triple(p: Progression) -> (nat, nat, nat) {
    (p.level as nat, p.xp as nat, p.xp_to_next as nat)
}

fn grow_threshold(t: u32) -> (r: u32)
    requires
        next_threshold(t as nat) <= u32::MAX,
    ensures
        r as nat == next_threshold(t as nat),
{
    let wide: u64 = (5 * (t as u64) + 3) / 4 + 3;
    wide as u32
}

/// Adds `amount` experience and levels up while the experience reaches the
/// threshold; each level-up spends the threshold and raises it.
pub fn add_xp(progress: &mut Progression, amount: u32)
    requires
        old(progress).xp + amount <= u32::MAX,
        settles_within_u32(old(progress).level as nat, (old(progress).xp + amount) as nat, old(progress).xp_to_next as nat),
    ensures
        progression_triple(*final(progress)) == settle(old(progress).level as nat, (old(progress).xp + amount) as nat, old(progress).xp_to_next as nat),
        final(progress).xp < final(progress).xp_to_next,
        final(progress).level >= old(progress).level,
{
    progress.xp = progress.xp + amount;
    let ghost target = settle(old(progress).level as nat, (old(progress).xp + amount) as nat, old(progress).xp_to_next as nat);
    while progress.xp >= progress.xp_to_next
        invariant
            settle(progress.level as nat, progress.xp as nat, progress.xp_to_next as nat) == target,
            settles_within_u32(progress.level as nat, progress.xp as nat, progress.xp_to_next as nat),
            progress.level >= old(progress).level,
        decreases progress.xp, (if progress.xp_to_next == 0 { 1int } else { 0int }),
    {
        progress.xp = progress.xp - progress.xp_to_next;
        progress.level = progress.level + 1;
        progress.xp_to_next = grow_threshold(progress.xp_to_next);
    }
}

/// Less experience settles within the limits whenever more does.
pub proof fn lemma_settles_within_monotone(level: nat, xp: nat, more: nat, next: nat)
    requires
        xp <= more,
        settles_within_u32(level, more, next),
    ensures
        settles_within_u32(level, xp, next),
    decreases xp, (if next == 0 { 1int } else { 0int }),
{
    if xp >= next {
        lemma_settles_within_monotone(level + 1, (xp - next) as nat, (more - next) as nat, next_threshold(next));
    }
}

proof fn lemma_dead_count_prefix(enemies: Seq<Enemy>, i: int)
    requires
        0 <= i < enemies.len(),
    ensures
        dead_count(enemies.take(i + 1)) == dead_count(enemies.take(i))
            + (if enemies[i].hp <= 0 { 1nat } else { 0nat }),
        dead_count(enemies.take(i + 1)) <= dead_count(enemies),
    decreases enemies.len(),
{
    assert(enemies.take(i + 1).drop_last() =~= enemies.take(i));
    if i + 1 < enemies.len() {
        assert(enemies.drop_last().take(i + 1) =~= enemies.take(i + 1));
        assert(enemies.drop_last().take(i) =~= enemies.take(i));
        lemma_dead_count_prefix(enemies.drop_last(), i);
    } else {
        assert(enemies.take(i + 1) =~= enemies);
    }
}

/// Removes defeated enemies: each one whose hit points are used up gives
/// `DEFEAT_XP` experience (with level-ups) and counts towards the quest.
/// Returns, for each enemy, whether it was defeated and is to be removed.
pub fn cleanup_dead_enemies(progression: &mut Progression, quest: &mut QuestState, enemies: &Vec<Enemy>) -> (dead: Vec<bool>)
    requires
        old(progression).xp + DEFEAT_XP * dead_count(enemies@) <= u32::MAX,
        settles_within_u32(old(progression).level as nat,
            (old(progression).xp + DEFEAT_XP * dead_count(enemies@)) as nat, old(progression).xp_to_next as nat),
    ensures
        dead@.len() == enemies@.len(),
        forall|i: int| 0 <= i < enemies@.len() ==> dead@[i] == (enemies@[i].hp <= 0),
        dead_count(enemies@) == 0 ==> *final(progression) == *old(progression),
        dead_count(enemies@) > 0 ==> progression_triple(*final(progression)) == settle(old(progression).level as nat,
            (old(progression).xp + DEFEAT_XP * dead_count(enemies@)) as nat, old(progression).xp_to_next as nat),
        *final(quest) == quest_after_defeats(*old(quest), dead_count(enemies@)),
{
    let ghost p0 = *old(progression);
    let ghost total = dead_count(enemies@);
    let mut dead: Vec<bool> = Vec::new();
    let mut i: usize = 0;
    assert(enemies@.take(0) =~= Seq::<Enemy>::empty());
    while i < enemies.len()
        invariant
            i <= enemies@.len(),
            dead@.len() == i,
            forall|j: int| 0 <= j < i ==> dead@[j] == (enemies@[j].hp <= 0),
            total == dead_count(enemies@),
            dead_count(enemies@.take(i as int)) <= total,
            p0.xp + DEFEAT_XP * total <= u32::MAX,
            settles_within_u32(p0.level as nat, (p0.xp + DEFEAT_XP * total) as nat, p0.xp_to_next as nat),
            dead_count(enemies@.take(i as int)) == 0 ==> *progression == p0,
            dead_count(enemies@.take(i as int)) > 0 ==> progression_triple(*progression) == settle(p0.level as nat,
                (p0.xp + DEFEAT_XP * dead_count(enemies@.take(i as int))) as nat, p0.xp_to_next as nat),
            *quest == quest_after_defeats(*old(quest), dead_count(enemies@.take(i as int))),
        decreases enemies@.len() - i,
    {
        let ghost d = dead_count(enemies@.take(i as int));
        proof { lemma_dead_count_prefix(enemies@, i as int); }
        let is_dead = enemies[i].hp <= 0;
        if is_dead {
            proof {
                let x0 = (p0.xp + DEFEAT_XP * d) as nat;
                lemma_settles_within_monotone(p0.level as nat, x0 + DEFEAT_XP as nat, (p0.xp + DEFEAT_XP * total) as nat, p0.xp_to_next as nat);
                if d > 0 {
                    lemma_settle_bounds(p0.level as nat, x0, p0.xp_to_next as nat);
                    lemma_settle_compose(p0.level as nat, x0, p0.xp_to_next as nat, DEFEAT_XP as nat);
                }
            }
            add_xp(progression, DEFEAT_XP);
            record_defeat(quest);
        }
        dead.push(is_dead);
        i = i + 1;
    }
    assert(enemies@.take(enemies@.len() as int) =~= enemies@);
    dead
}

/// Whether the experience for the defeated enemies among `enemies` fits: the
/// condition under which `cleanup_dead_enemies` may run without overflowing
/// the experience, the level or the threshold.
pub fn defeats_fit(progress: &Progression, enemies: &Vec<Enemy>) -> (ok: bool)
    ensures
        ok == (progress.xp + DEFEAT_XP * dead_count(enemies@) <= u32::MAX
            && settles_within_u32(progress.level as nat,
                (progress.xp + DEFEAT_XP * dead_count(enemies@)) as nat, progress.xp_to_next as nat)),
{
    let mut count: u64 = 0;
    let mut i: usize = 0;
    assert(enemies@.take(0) =~= Seq::<Enemy>::empty());
    while i < enemies.len()
        invariant
            i <= enemies@.len(),
            count == dead_count(enemies@.take(i as int)),
            count <= i,
        decreases enemies@.len() - i,
    {
        proof { lemma_dead_count_prefix(enemies@, i as int); }
        if enemies[i].hp <= 0 {
            count = count + 1;
        }
        i = i + 1;
    }
    assert(enemies@.take(enemies@.len() as int) =~= enemies@);
    if count > 0x1_0000_0000 {
        return false;
    }
    let total: u64 = progress.xp as u64 + 7 * count;
    if total > u32::MAX as u64 {
        return false;
    }
    let mut level: u32 = progress.level;
    let mut xp: u32 = total as u32;
    let mut next: u32 = progress.xp_to_next;
    while xp >= next
        invariant
            count == dead_count(enemies@),
            total == progress.xp + DEFEAT_XP * count,
            total <= u32::MAX,
            settles_within_u32(level as nat, xp as nat, next as nat)
                == settles_within_u32(progress.level as nat, total as nat, progress.xp_to_next as nat),
        decreases xp, (if next == 0 { 1int } else { 0int }),
    {
        if level == u32::MAX {
            return false;
        }
        let grown: u64 = (5 * (next as u64) + 3) / 4 + 3;
        if grown > u32::MAX as u64 {
            return false;
        }
        xp = xp - next;
        level = level + 1;
        next = grown as u32;
    }
    true
}

/// Whether a spawner brings its slime back this frame: its respawn timer has
/// just finished and no enemy stands on its spot.
pub fn respawn_enemies(timer_just_finished: bool, occupied: bool) -> (spawn: bool)
    ensures
        spawn == (timer_just_finished && !occupied),
{
    timer_just_finished && !occupied
}

/// Quest markers above the enemies show while the quest runs.
pub fn sync_enemy_markers(quest: Option<&QuestState>) -> (visible: bool)
    ensures
        visible == (quest matches Some(q) && q.accepted && !q.completed),
{
    match quest {
        Some(q) => q.accepted && !q.completed,
        None => false,
    }
}

/// The next threshold is a quarter more than the last, rounded up, plus
/// three: four times (threshold - 3) is at least five times the last and less
/// than that plus four.
pub proof fn lemma_threshold_is_quarter_up_plus_three(t: nat)
    ensures
        next_threshold(t) >= 3,
        4 * (next_threshold(t) - 3) >= 5 * t,
        4 * (next_threshold(t) - 3) < 5 * t + 4,
{
}

/// Settling stops as soon as the experience is below the threshold, and
/// otherwise spends the threshold on one level and raises the threshold.
pub proof fn lemma_settle_steps(level: nat, xp: nat, next: nat)
    ensures
        xp < next ==> settle(level, xp, next) == (level, xp, next),
        xp >= next ==> settle(level, xp, next) == settle(level + 1, (xp - next) as nat, next_threshold(next)),
        settle(level, xp, next).0 >= level,
        xp >= next ==> settle(level, xp, next).0 > level,
{
    lemma_settle_bounds(level, xp, next);
    if xp >= next {
        lemma_settle_bounds(level + 1, (xp - next) as nat, next_threshold(next));
    }
}

/// Each level-up asks for more experience than the one before.
pub proof fn lemma_threshold_grows(t: nat)
    ensures
        next_threshold(t) > t,
{
}

/// Settling never raises the experience, and leaves it below the threshold.
pub proof fn lemma_settle_bounds(level: nat, xp: nat, next: nat)
    ensures
        settle(level, xp, next).1 <= xp,
        settle(level, xp, next).1 < settle(level, xp, next).2,
        settle(level, xp, next).0 >= level,
    decreases xp, (if next == 0 { 1int } else { 0int }),
{
    if xp >= next {
        lemma_settle_bounds(level + 1, (xp - next) as nat, next_threshold(next));
    }
}

/// Settling in two steps, with more experience gained in between, ends where
/// settling everything at once does; the limits carry over as well.
pub proof fn lemma_settle_compose(level: nat, xp: nat, next: nat, extra: nat)
    ensures
        ({
            let s = settle(level, xp, next);
            settle(s.0, s.1 + extra, s.2) == settle(level, xp + extra, next)
        }),
        settles_within_u32(level, xp + extra, next) ==> ({
            let s = settle(level, xp, next);
            settles_within_u32(s.0, s.1 + extra, s.2)
        }),
    decreases xp, (if next == 0 { 1int } else { 0int }),
{
    if xp >= next {
        assert((xp + extra - next) as nat == (xp - next) as nat + extra);
        lemma_settle_compose(level + 1, (xp - next) as nat, next_threshold(next), extra);
    }
}

/// Gaining `a` experience and then `b` ends in the same level, experience and
/// threshold as gaining `a + b` at once.
pub proof fn lemma_xp_gains_compose(p: Progression, a: nat, b: nat)
    ensures
        ({
            let s = settle(p.level as nat, p.xp as nat + a, p.xp_to_next as nat);
            settle(s.0, s.1 + b, s.2)
        }) == settle(p.level as nat, p.xp as nat + a + b, p.xp_to_next as nat),
{
    lemma_settle_compose(p.level as nat, p.xp as nat + a, p.xp_to_next as nat, b);
}

} // verus!
