//! The tile map: its layout, the wall set, tile centres in world pixels, and
//! which tiles block movement.

use vstd::prelude::*;
use crate::npc::QuestState;

verus! {

/// Side of a tile in world pixels.
pub const TILE_SIZE: i32 = 32;
/// Width of the map in tiles.
pub const MAP_WIDTH: i32 = 48;
/// Height of the map in tiles.
pub const MAP_HEIGHT: i32 = 30;

/// A tile position on the map grid.
#[derive(Clone, Copy, Debug, PartialEq, Eq, Structural)]
pub struct TileCoord {
    pub x: i32,
    pub y: i32,
}

/// The ground of a tile.
#[derive(Clone, Copy, Debug, PartialEq, Eq, Structural)]
pub enum TileType {
    Grass,
    Path,
    Wall,
}

/// The map's size and the set of wall tiles, listed once each.
#[derive(Debug)]
pub struct TileMap {
    pub width: i32,
    pub height: i32,
    pub walls: Vec<TileCoord>,
}

impl TileMap {
    /// The wall list holds each tile once, as a set does.
    pub open spec fn wf(&self) -> bool {
        self.walls@.no_duplicates()
    }
}

impl Default for TileMap {
    fn default() -> (m: Self)
        ensures
            m.width == 0 && m.height == 0 && m.walls@.len() == 0,
            m.wf(),
    {
        TileMap { width: 0, height: 0, walls: Vec::new() }
    }
}

/// Whether `(x, y)` lies on the map of the given size.
pub open spec fn within(width: int, height: int, x: int, y: int) -> bool {
    0 <= x < width && 0 <= y < height
}

/// Whether `(x, y)` is on the outer ring of the map.
pub open spec fn is_border(x: int, y: int) -> bool {
    x == 0 || y == 0 || x == MAP_WIDTH - 1 || y == MAP_HEIGHT - 1
}

/// Whether `(x, y)` is on one of the four inner wall segments.
pub open spec fn is_inner_wall(x: int, y: int) -> bool {
    ||| (x == 16 && 6 <= y <= 22)
    ||| (y == 12 && 18 <= x <= 36)
    ||| (x == 30 && 4 <= y <= 18)
    ||| (y == 20 && 8 <= x <= 22)
}

/// The ground of tile `(x, y)` in the map layout: the outer ring and the inner
/// segments are walls, row 14 and a stretch of row 8 are path, the rest grass.
pub open spec fn tile_type_of(x: int, y: int) -> TileType {
    if is_border(x, y) || is_inner_wall(x, y) {
        TileType::Wall
    } else if y == 14 || (2 <= x <= 14 && y == 8) {
        TileType::Path
    } else {
        TileType::Grass
    }
}

/// Whether tile `t` of the map layout is a wall.
pub open spec fn is_layout_wall(t: TileCoord) -> bool {
    within(MAP_WIDTH as int, MAP_HEIGHT as int, t.x as int, t.y as int)
        && tile_type_of(t.x as int, t.y as int) == TileType::Wall
}

/// The outer ring of the map is wall, so nothing walks off the map.
pub proof fn lemma_border_is_wall(t: TileCoord)
    requires
        within(MAP_WIDTH as int, MAP_HEIGHT as int, t.x as int, t.y as int),
        is_border(t.x as int, t.y as int),
    ensures
        is_layout_wall(t),
{
}

/// The layout of the map, tile by tile: on the 48 by 30 grid the walls are
/// exactly the outer ring and the four inner segments, each over its whole
/// range (column 16 rows 6 to 22, row 12 columns 18 to 36, column 30 rows 4
/// to 18, row 20 columns 8 to 22); of the rest, row 14 and row 8 from column 2
/// to 14 are path, and everything else is grass.
pub proof fn lemma_layout(x: int, y: int)
    requires
        0 <= x < 48 && 0 <= y < 30,
    ensures
        tile_type_of(x, y) == TileType::Wall <==> (
            x == 0 || y == 0 || x == 47 || y == 29
            || (x == 16 && 6 <= y <= 22)
            || (y == 12 && 18 <= x <= 36)
            || (x == 30 && 4 <= y <= 18)
            || (y == 20 && 8 <= x <= 22)),
        tile_type_of(x, y) == TileType::Path <==> (tile_type_of(x, y) != TileType::Wall
            && (y == 14 || (y == 8 && 2 <= x <= 14))),
        tile_type_of(x, y) == TileType::Grass <==> (tile_type_of(x, y) != TileType::Wall
            && tile_type_of(x, y) != TileType::Path),
{
}

/// Every tile of each inner wall segment, over its whole range, is a wall of
/// the laid-out map.
pub proof fn lemma_inner_segments_are_walls(t: TileCoord)
    requires
        (t.x == 16 && 6 <= t.y <= 22) || (t.y == 12 && 18 <= t.x <= 36)
            || (t.x == 30 && 4 <= t.y <= 18) || (t.y == 20 && 8 <= t.x <= 22),
    ensures
        is_layout_wall(t),
{
}

/// The ground of `tile` in the map layout.
pub fn tile_type_at(tile: TileCoord) -> (t: TileType)
    ensures
        t == tile_type_of(tile.x as int, tile.y as int),
        tile.x == 0 || tile.y == 0 || tile.x == 47 || tile.y == 29 ==> t == TileType::Wall,
        tile.x == 16 && 6 <= tile.y <= 22 ==> t == TileType::Wall,
        tile.y == 12 && 18 <= tile.x <= 36 ==> t == TileType::Wall,
        tile.x == 30 && 4 <= tile.y <= 18 ==> t == TileType::Wall,
        tile.y == 20 && 8 <= tile.x <= 22 ==> t == TileType::Wall,
{
    let x = tile.x;
    let y = tile.y;
    let is_border = x == 0 || y == 0 || x == MAP_WIDTH - 1 || y == MAP_HEIGHT - 1;
    let is_inner_wall = (x == 16 && y >= 6 && y <= 22)
        || (y == 12 && x >= 18 && x <= 36)
        || (x == 30 && y >= 4 && y <= 18)
        || (y == 20 && x >= 8 && x <= 22);
    if is_border || is_inner_wall {
        TileType::Wall
    } else if y == 14 || (x >= 2 && x <= 14 && y == 8) {
        TileType::Path
    } else {
        TileType::Grass
    }
}

/// Whether tile `t` comes before the cursor `(cx, cy)` in row-major order.
pub open spec fn before_cursor(t: TileCoord, cx: int, cy: int) -> bool {
    t.y < cy || (t.y == cy && t.x < cx)
}

/// Lays out the map: its size, and every wall tile of the layout in the wall
/// set, once each.
pub fn spawn_map(tilemap: &mut TileMap)
    ensures
        final(tilemap).width == MAP_WIDTH,
        final(tilemap).height == MAP_HEIGHT,
        forall|t: TileCoord| #[trigger] final(tilemap).walls@.contains(t) <==> is_layout_wall(t),
        final(tilemap).wf(),
{
    tilemap.width = MAP_WIDTH;
    tilemap.height = MAP_HEIGHT;
    let mut walls: Vec<TileCoord> = Vec::new();
    let mut y: i32 = 0;
    while y < MAP_HEIGHT
        invariant
            0 <= y <= MAP_HEIGHT,
            forall|t: TileCoord| #[trigger] walls@.contains(t) <==> (is_layout_wall(t) && before_cursor(t, 0, y as int)),
            walls@.no_duplicates(),
        decreases MAP_HEIGHT - y,
    {
        let mut x: i32 = 0;
        while x < MAP_WIDTH
            invariant
                0 <= y < MAP_HEIGHT,
                0 <= x <= MAP_WIDTH,
                forall|t: TileCoord| #[trigger] walls@.contains(t) <==> (is_layout_wall(t) && before_cursor(t, x as int, y as int)),
                walls@.no_duplicates(),
            decreases MAP_WIDTH - x,
        {
            let tile = TileCoord { x, y };
            if tile_type_at(tile) == TileType::Wall {
                assert(!walls@.contains(tile));
                let ghost before = walls@;
                walls.push(tile);
                assert forall|t: TileCoord| #[trigger] walls@.contains(t) <==> (is_layout_wall(t) && before_cursor(t, x + 1, y as int)) by {
                    if t == tile {
                        assert(walls@[walls@.len() - 1] == t);
                    } else {
                        if walls@.contains(t) {
                            let k = choose|k: int| 0 <= k < walls@.len() && walls@[k] == t;
                            assert(k < before.len());
                            assert(before[k] == t);
                            assert(before.contains(t));
                        }
                        if before.contains(t) {
                            let k = choose|k: int| 0 <= k < before.len() && before[k] == t;
                            assert(walls@[k] == t);
                        }
                        if t.x == x && t.y == y {
                            assert(t == tile);
                        }
                    }
                }
            }
            x = x + 1;
        }
        y = y + 1;
    }
    tilemap.walls = walls;
}

/// The tiles of the trees and rocks that block movement; none of them is a
/// wall tile.
pub fn prop_tiles() -> (tiles: [TileCoord; 4])
    ensures
        tiles@ == seq![TileCoord { x: 6, y: 10 }, TileCoord { x: 12, y: 16 }, TileCoord { x: 22, y: 6 }, TileCoord { x: 35, y: 20 }],
        forall|i: int| 0 <= i < 4 ==> !is_layout_wall(#[trigger] tiles@[i]),
{
    let tiles = [TileCoord { x: 6, y: 10 }, TileCoord { x: 12, y: 16 }, TileCoord { x: 22, y: 6 }, TileCoord { x: 35, y: 20 }];
    assert(tiles@ =~= seq![TileCoord { x: 6, y: 10 }, TileCoord { x: 12, y: 16 }, TileCoord { x: 22, y: 6 }, TileCoord { x: 35, y: 20 }]);
    tiles
}

/// The tile of the barrier across the inner wall of row 12.
pub open spec fn gate_coord() -> TileCoord {
    TileCoord { x: 18, y: 12 }
}

/// The tile of the barrier that opens when the quest is complete; it stands
/// in a gap of the inner wall of row 12, which stays shut until it opens.
pub fn gate_tile() -> (t: TileCoord)
    ensures
        t == gate_coord(),
        is_layout_wall(t),
{
    TileCoord { x: 18, y: 12 }
}

/// The centre of `tile` in world pixels: the map is centred on the origin and
/// each tile is `TILE_SIZE` pixels wide.
pub open spec fn tile_center(tile: TileCoord) -> (int, int) {
    (
        TILE_SIZE * tile.x - MAP_WIDTH * TILE_SIZE / 2 + TILE_SIZE / 2,
        TILE_SIZE * tile.y - MAP_HEIGHT * TILE_SIZE / 2 + TILE_SIZE / 2,
    )
}

/// Tile centres are a tile apart along each axis, and the map is centred on
/// the origin: the centres of opposite corner tiles are opposite points.
pub proof fn lemma_tile_centres(t: TileCoord, u: TileCoord)
    ensures
        tile_center(u).0 - tile_center(t).0 == TILE_SIZE * (u.x - t.x),
        tile_center(u).1 - tile_center(t).1 == TILE_SIZE * (u.y - t.y),
        tile_center(TileCoord { x: 0, y: 0 }).0 == -tile_center(TileCoord { x: 47, y: 29 }).0,
        tile_center(TileCoord { x: 0, y: 0 }).1 == -tile_center(TileCoord { x: 47, y: 29 }).1,
        tile_center(TileCoord { x: 0, y: 0 }) == (-752int, -464int),
{
}

/// A tile blocks exactly when it is off the map or in the wall set.
pub proof fn lemma_blocks(map: &TileMap, t: TileCoord)
    ensures
        (t.x < 0 || t.y < 0 || t.x >= map.width || t.y >= map.height) ==> blocks(map, t),
        map.walls@.contains(t) ==> blocks(map, t),
        (0 <= t.x < map.width && 0 <= t.y < map.height && !map.walls@.contains(t)) ==> !blocks(map, t),
{
}

/// The world position, in pixels, of the centre of `tile`.
pub fn map_to_world(tile: TileCoord) -> (p: (i64, i64))
    ensures
        p.0 == tile_center(tile).0,
        p.1 == tile_center(tile).1,
{
    let ts = TILE_SIZE as i64;
    let ox: i64 = -((MAP_WIDTH as i64) * ts) / 2 + ts / 2;
    let oy: i64 = -((MAP_HEIGHT as i64) * ts) / 2 + ts / 2;
    (ox + (tile.x as i64) * ts, oy + (tile.y as i64) * ts)
}

/// Whether `tile` is a wall of `map`.
pub fn is_wall(map: &TileMap, tile: TileCoord) -> (w: bool)
    ensures
        w == map.walls@.contains(tile),
{
    let mut i: usize = 0;
    while i < map.walls.len()
        invariant
            i <= map.walls@.len(),
            forall|j: int| 0 <= j < i ==> map.walls@[j] != tile,
        decreases map.walls@.len() - i,
    {
        if map.walls[i] == tile {
            return true;
        }
        i = i + 1;
    }
    false
}

/// Whether `tile` blocks movement on `map`: off the map or a wall.
pub open spec fn blocks(map: &TileMap, tile: TileCoord) -> bool {
    !within(map.width as int, map.height as int, tile.x as int, tile.y as int) || map.walls@.contains(tile)
}

/// Whether a box whose corners fall in the tiles `corners` collides with the
/// walls of `map`: some corner tile is off the map or a wall.
pub fn collides_with_walls(map: &TileMap, corners: [TileCoord; 4]) -> (c: bool)
    ensures
        c == exists|i: int| 0 <= i < 4 && blocks(map, corners[i]),
{
    let mut i: usize = 0;
    while i < 4
        invariant
            i <= 4,
            forall|j: int| 0 <= j < i ==> !blocks(map, corners[j]),
        decreases 4 - i,
    {
        let tile = corners[i];
        if tile.x < 0 || tile.y < 0 || tile.x >= map.width || tile.y >= map.height || is_wall(map, tile) {
            return true;
        }
        i = i + 1;
    }
    false
}

/// Opens the barrier once the quest is complete: its tile leaves the wall
/// set, so it no longer blocks movement; the rest of the map stays. Returns
/// whether the barrier is open, in which case it is taken off the map.
pub fn open_gate_when_quest_done(tilemap: &mut TileMap, quest: Option<&QuestState>) -> (open: bool)
    ensures
        open == (quest matches Some(q) && q.completed),
        old(tilemap).wf() ==> final(tilemap).wf(),
        final(tilemap).width == old(tilemap).width,
        final(tilemap).height == old(tilemap).height,
        open ==> forall|t: TileCoord| #[trigger] final(tilemap).walls@.contains(t)
            <==> (old(tilemap).walls@.contains(t) && t != gate_coord()),
        open ==> !final(tilemap).walls@.contains(gate_coord()),
        !open ==> final(tilemap).walls@ == old(tilemap).walls@,
{
    let open = match quest {
        Some(q) => q.completed,
        None => false,
    };
    if !open {
        return false;
    }
    let gate = gate_tile();
    let mut kept: Vec<TileCoord> = Vec::new();
    let mut i: usize = 0;
    while i < tilemap.walls.len()
        invariant
            i <= tilemap.walls@.len(),
            tilemap.walls@.no_duplicates() ==> kept@.no_duplicates(),
            gate == gate_coord(),
            forall|t: TileCoord| #[trigger] kept@.contains(t)
                <==> (tilemap.walls@.subrange(0, i as int).contains(t) && t != gate),
        decreases tilemap.walls@.len() - i,
    {
        let t = tilemap.walls[i];
        let ghost walls = tilemap.walls@;
        let ghost pre = walls.subrange(0, i as int);
        let ghost post = walls.subrange(0, i + 1);
        proof {
            assert(post =~= pre.push(t));
            if pre.contains(t) {
                let k = choose|k: int| 0 <= k < i && pre[k] == t;
                assert(walls[k] == walls[i as int]);
            }
        }
        if t != gate {
            assert(walls.no_duplicates() ==> !pre.contains(t));
            assert(walls.no_duplicates() ==> !kept@.contains(t));
            let ghost before = kept@;
            kept.push(t);
            proof {
                assert forall|u: TileCoord| #[trigger] kept@.contains(u)
                    <==> (post.contains(u) && u != gate) by {
                    if kept@.contains(u) && u != t {
                        let k = choose|k: int| 0 <= k < kept@.len() && kept@[k] == u;
                        assert(before[k] == u);
                        assert(before.contains(u));
                    }
                    if before.contains(u) {
                        let k = choose|k: int| 0 <= k < before.len() && before[k] == u;
                        assert(kept@[k] == u);
                    }
                    if u == t {
                        assert(kept@[kept@.len() - 1] == u);
                        assert(post[i as int] == u);
                    }
                    if post.contains(u) && u != t {
                        let k = choose|k: int| 0 <= k < i + 1 && post[k] == u;
                        assert(pre[k] == u);
                    }
                    if pre.contains(u) {
                        let k = choose|k: int| 0 <= k < i && pre[k] == u;
                        assert(post[k] == u);
                    }
                }
            }
        } else {
            proof {
                assert forall|u: TileCoord| #[trigger] kept@.contains(u)
                    <==> (post.contains(u) && u != gate) by {
                    if post.contains(u) && u != t {
                        let k = choose|k: int| 0 <= k < i + 1 && post[k] == u;
                        assert(pre[k] == u);
                    }
                    if pre.contains(u) {
                        let k = choose|k: int| 0 <= k < i && pre[k] == u;
                        assert(post[k] == u);
                    }
                }
            }
        }
        i = i + 1;
    }
    assert(tilemap.walls@.subrange(0, tilemap.walls@.len() as int) =~= tilemap.walls@);
    tilemap.walls = kept;
    true
}

/// The barrier opens the way: on the laid-out map, once its tile has left the
/// wall set, that tile no longer blocks movement, and every other tile blocks
/// exactly as before.
pub proof fn lemma_open_gate_unblocks(built: &TileMap, opened: &TileMap, t: TileCoord)
    requires
        built.width == MAP_WIDTH && built.height == MAP_HEIGHT,
        forall|u: TileCoord| #[trigger] built.walls@.contains(u) <==> is_layout_wall(u),
        opened.width == built.width && opened.height == built.height,
        forall|u: TileCoord| #[trigger] opened.walls@.contains(u) <==> (built.walls@.contains(u) && u != gate_coord()),
    ensures
        !blocks(opened, gate_coord()),
        blocks(built, gate_coord()),
        t != gate_coord() ==> blocks(opened, t) == blocks(built, t),
{
    assert(is_layout_wall(gate_coord()));
    assert(built.walls@.contains(gate_coord()));
    assert(!opened.walls@.contains(gate_coord()));
    assert(opened.walls@.contains(t) <==> (built.walls@.contains(t) && t != gate_coord()));
}

/// The shade step, 0 to 6, of a map tile's colour.
pub fn tile_variation(tile: TileCoord) -> (v: i32)
    requires
        within(MAP_WIDTH as int, MAP_HEIGHT as int, tile.x as int, tile.y as int),
    ensures
        v == (37 * tile.x + 17 * tile.y) % 7,
        0 <= v < 7,
{
    (tile.x * 37 + tile.y * 17) % 7
}

/// Whether a grass tile takes the lighter shade of the checker pattern.
pub fn is_checker_light(tile: TileCoord) -> (light: bool)
    requires
        within(MAP_WIDTH as int, MAP_HEIGHT as int, tile.x as int, tile.y as int),
    ensures
        light == ((tile.x + tile.y) % 2 == 0),
{
    (tile.x + tile.y) % 2 == 0
}

} // verus!
