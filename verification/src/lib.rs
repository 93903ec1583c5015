//! Simulation core of a base-building strategy game: a tile grid on which
//! multi-tile buildings are placed, per-level building stats, and a
//! time-driven resource economy.

pub mod buildings;
pub mod components;
pub mod constants;
pub mod game;
pub mod prelude;
pub mod resources;
pub mod tile_map;
pub mod ui;

pub use crate::ui::main_menu::GameState;
