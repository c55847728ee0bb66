# tactics_core

The rules of a small multiplayer tactics game on an isometric grid, written
in Verus: every function of the library carries a contract that Verus proves.

Layout:

- `src/` — the verified library. `grid` (the grid and its index of who stands
  where), `unit` (moves, attack ranges, unit templates), `combat` and
  `combat/skills` (damage, impacts, attack timelines, the skill table),
  `gameplay_effects`, `equipment`, `battle_phase` (player and enemy phases),
  `enemy` (enemy planning), `player` (cursor and unit commands), the menus
  (`menu`, `battle_menu`, `main_menu`, `join_game_menu`), `battle`,
  `dungeon`, `map_generation`, `interactable`, `animation` (the animation
  table and players, sprite sheet layout), `assets`, `save_game`.
- `tests/` — tests run against the compiled library.
- `app/` — the program around the library: command-line options, save files
  on disk, random map draws, floating-point stats and screen arithmetic, and
  the sprite sheet packing tool.
