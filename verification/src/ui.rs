//! The decisions behind the menus and the level editor: what a button does,
//! and what a click on the grid does while a building is selected.

pub mod editor;
pub mod events;
pub mod main_menu;
