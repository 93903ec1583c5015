//! Buttons and what can happen to them.

use crate::components::BuildingType;
use vstd::prelude::*;

verus! {

/// The buttons of the menus.
#[derive(Debug, Clone, Copy, PartialEq, Eq, Structural)]
pub enum MenuButton {
    Play,
    Editor,
    Quit,
}

/// The buttons of the level editor: one per building kind, and the way back.
#[derive(Debug, Clone, Copy, PartialEq, Eq, Structural)]
pub enum EditorButton {
    Building(BuildingType),
    Back,
}

/// A change in how the pointer meets a button of type `T`. `Cleared` means
/// the pointer is no longer on the button.
#[derive(Debug, Clone, Copy)]
pub enum ButtonInteractionEvent<T> {
    Pressed(T),
    Hovered(T),
    Cleared,
}

} // verus!
