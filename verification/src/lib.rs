//! Game logic of a side-scrolling terminal shooter: key bindings, the
//! high-score table and its save format, stage layouts, terrain columns,
//! the character framebuffer, background layers and menu state machines.

pub mod color;
pub mod text;
pub mod keybinds;
pub mod save;
pub mod stages;
pub mod terrain;
pub mod collision;
pub mod renderer;
pub mod parallax;
pub mod input;
pub mod game;
pub mod spawn;
pub mod round_trip;
pub mod sprites;
pub mod menu_text;
