use asteria_meadow::map::{
    collides_with_walls, gate_tile, is_checker_light, prop_tiles, is_wall, map_to_world, spawn_map, tile_type_at, tile_variation, TileCoord,
    TileMap, TileType, MAP_HEIGHT, MAP_WIDTH,
};
use asteria_meadow::player::{begin_fall, facing_after_input, respawn_if_ready, spawn_player, Facing, Player};
use asteria_meadow::DeathState;

fn t(x: i32, y: i32) -> TileCoord {
    TileCoord { x, y }
}

fn built() -> TileMap {
    let mut m = TileMap::default();
    spawn_map(&mut m);
    m
}

#[test]
fn map_has_size_and_unique_walls() {
    let m = built();
    assert_eq!((m.width, m.height), (MAP_WIDTH, MAP_HEIGHT));
    for (i, a) in m.walls.iter().enumerate() {
        for b in m.walls.iter().skip(i + 1) {
            assert_ne!(a, b);
        }
    }
    let expected = (0..MAP_HEIGHT)
        .flat_map(|y| (0..MAP_WIDTH).map(move |x| (x, y)))
        .filter(|&(x, y)| tile_type_at(t(x, y)) == TileType::Wall)
        .count();
    assert_eq!(m.walls.len(), expected);
}

#[test]
fn border_is_wall() {
    let m = built();
    for x in 0..MAP_WIDTH {
        assert!(is_wall(&m, t(x, 0)));
        assert!(is_wall(&m, t(x, MAP_HEIGHT - 1)));
    }
    for y in 0..MAP_HEIGHT {
        assert!(is_wall(&m, t(0, y)));
        assert!(is_wall(&m, t(MAP_WIDTH - 1, y)));
    }
}

#[test]
fn layout_tiles() {
    assert_eq!(tile_type_at(t(16, 10)), TileType::Wall);
    assert_eq!(tile_type_at(t(25, 12)), TileType::Wall);
    assert_eq!(tile_type_at(t(30, 4)), TileType::Wall);
    assert_eq!(tile_type_at(t(10, 20)), TileType::Wall);
    assert_eq!(tile_type_at(t(5, 14)), TileType::Path);
    assert_eq!(tile_type_at(t(2, 8)), TileType::Path);
    assert_eq!(tile_type_at(t(15, 8)), TileType::Grass);
    assert_eq!(tile_type_at(t(5, 6)), TileType::Grass);
    assert_eq!(tile_type_at(t(16, 14)), TileType::Wall);
}

#[test]
fn spawn_tiles_are_free() {
    let m = built();
    let (_, start) = spawn_player();
    assert!(!is_wall(&m, start));
    assert!(!is_wall(&m, t(8, 6)));
    assert!(!is_wall(&m, t(20, 10)));
}

#[test]
fn tile_centres() {
    assert_eq!(map_to_world(t(0, 0)), (-752, -464));
    assert_eq!(map_to_world(t(5, 6)), (-592, -272));
    assert_eq!(map_to_world(t(47, 29)), (752, 464));
    assert_eq!(map_to_world(t(i32::MIN, i32::MAX)), (-752 - 32 * 2147483648, -464 + 32 * 2147483647));
}

#[test]
fn collisions_with_walls_and_edges() {
    let m = built();
    assert!(!collides_with_walls(&m, [t(5, 6), t(5, 6), t(6, 6), t(6, 7)]));
    assert!(collides_with_walls(&m, [t(5, 6), t(5, 6), t(16, 10), t(6, 7)]));
    assert!(collides_with_walls(&m, [t(-1, 6), t(5, 6), t(5, 6), t(5, 6)]));
    assert!(collides_with_walls(&m, [t(5, 6), t(5, 30), t(5, 6), t(5, 6)]));
    let empty = TileMap::default();
    assert!(collides_with_walls(&empty, [t(0, 0), t(0, 0), t(0, 0), t(0, 0)]));
}

#[test]
fn tile_shades() {
    assert_eq!(tile_variation(t(0, 0)), 0);
    assert_eq!(tile_variation(t(1, 1)), 54 % 7);
    assert_eq!(tile_variation(t(10, 3)), (370 + 51) % 7);
    assert!(is_checker_light(t(2, 4)));
    assert!(!is_checker_light(t(2, 5)));
}

#[test]
fn facing_follows_keys() {
    assert_eq!(facing_after_input(Facing::Down, true, false, false, false), Facing::Up);
    assert_eq!(facing_after_input(Facing::Up, false, true, false, false), Facing::Down);
    assert_eq!(facing_after_input(Facing::Down, false, false, true, false), Facing::Left);
    assert_eq!(facing_after_input(Facing::Down, false, false, false, true), Facing::Right);
    // diagonals face vertically
    assert_eq!(facing_after_input(Facing::Left, true, false, false, true), Facing::Up);
    assert_eq!(facing_after_input(Facing::Up, false, true, true, false), Facing::Down);
    // no net input keeps the facing
    assert_eq!(facing_after_input(Facing::Left, false, false, false, false), Facing::Left);
    assert_eq!(facing_after_input(Facing::Right, true, true, true, true), Facing::Right);
    assert_eq!(facing_after_input(Facing::Up, false, false, true, true), Facing::Up);
    // opposite vertical keys cancel, leaving the horizontal one
    assert_eq!(facing_after_input(Facing::Up, true, true, true, false), Facing::Left);
}

#[test]
fn atlas_frames_and_steps() {
    assert_eq!(Facing::Up.atlas_index(), 0);
    assert_eq!(Facing::Down.atlas_index(), 1);
    assert_eq!(Facing::Left.atlas_index(), 2);
    assert_eq!(Facing::Right.atlas_index(), 3);
    assert_eq!(Facing::Up.unit_vector(), (0, 1));
    assert_eq!(Facing::Left.unit_vector(), (-1, 0));
}

#[test]
fn player_spawns_at_start() {
    let (p, tile) = spawn_player();
    assert_eq!(p, Player { facing: Facing::Down, hp: 100, max_hp: 100, alive: true });
    assert_eq!((tile.x, tile.y), (5, 6));
}

#[test]
fn fall_and_respawn_cycle() {
    let (mut p, _) = spawn_player();
    let mut death = DeathState::default();
    assert!(!begin_fall(&mut death, &p));
    assert!(!death.dead);
    p.hp = 0;
    assert!(begin_fall(&mut death, &p));
    assert!(death.dead);
    // already fallen: the timer does not start over
    assert!(!begin_fall(&mut death, &p));
    assert!(!respawn_if_ready(&mut death, &mut p, false));
    assert!(death.dead);
    assert_eq!(p.hp, 0);
    assert!(respawn_if_ready(&mut death, &mut p, true));
    assert!(!death.dead);
    assert_eq!(p.hp, 100);
    assert!(!respawn_if_ready(&mut death, &mut p, true));
}

#[test]
fn props_and_barrier_tiles() {
    let m = built();
    let props = prop_tiles();
    assert_eq!(props, [t(6, 10), t(12, 16), t(22, 6), t(35, 20)]);
    for p in props {
        assert!(!is_wall(&m, p));
    }
    assert_eq!(gate_tile(), t(18, 12));
    assert!(is_wall(&m, gate_tile()));
}
