# blitz_cipher

A side-scrolling shooter for the terminal, in the spirit of the arcade
classics: fly over and through six kinds of terrain, bomb rockets and fuel
tanks, dodge turrets and flying saucers, and keep your fuel up.

The game's rules live in a library verified with Verus (`src/`); the
terminal, sound, gamepad, timing and floating-point motion live in a thin
program around it (`app/`).

## Layout

- `src/color.rs` – cell colours.
- `src/text.rs` – decimal numerals, number parsing, searching in text,
  whitespace, conversions between strings and character vectors.
- `src/keybinds.rs` – the eight key bindings, key names and their save-file
  texts.
- `src/save.rs` – the high-score table, its ordering and insertion, and the
  JSON save format written and read back.
- `src/round_trip.rs` – the proof that reading back a written save file gives
  the same table and bindings.
- `src/stages.rs` – enemy kinds, scores and the enemy layout of each stage.
- `src/terrain.rs` – terrain columns, their shaping, levelling, appending
  and trimming.
- `src/collision.rs` – terrain collision tests on columns.
- `src/renderer.rs` – the double-buffered character framebuffer with
  half-block background pixels.
- `src/parallax.rs` – star field and mountain background layers.
- `src/input.rs` – keyboard and gamepad input state.
- `src/game.rs` – game phases, sounds, lives, the debug and configuration
  menus, high-score name entry and the high-score list on screen.
- `src/menu_text.rs` – the text of the configuration screen's and debug
  menu's rows.
- `src/spawn.rs` – placing a stage's enemies on the terrain.
- `src/sprites.rs` – the character sprites of the ship, enemies and
  explosions, and painting them.
- `tests/library.rs` – tests of the library.
- `app/` – `main`, the frame loop, terminal output, audio, gamepad, save-file
  I/O, and everything computed in floating point.
