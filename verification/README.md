# Asteria Meadow: verified game rules

The rules of a small top-down RPG (a tile map with walls, a player with four
facings, one guide with a "defeat five slimes" quest, slimes that deal contact
damage, a melee swing and a bolt skill, experience and level-ups, and
placeholder pixel sprites), written in Verus with their contracts proved.

- `src/` is the library. Each module states what its functions compute over
  plain values: `map` (layout, wall set, tile centres, wall collision),
  `player` (facing, sprite frame, fall and respawn), `enemy` (contact damage,
  defeats, experience), `combat` and `skills` (hits and attacks), `npc` (the
  quest and dialogue), `ui` (HUD texts and overlays), `text` (decimal
  numbers), `assets` (sprites drawn through the `image` crate).
- `tests/` runs the library on concrete values.
- `app/` is the Bevy program around it: windows, input, timers, float
  positions, rendering and files.
