//! The states a game moves through, and what the menu buttons do.

use crate::ui::events::{ButtonInteractionEvent, MenuButton};
use vstd::prelude::*;

verus! {

/// The states a running game can be in.
#[derive(Debug, Clone, Copy, PartialEq, Eq, Hash, Structural)]
pub enum GameState {
    MainMenu,
    Playing,
    LevelEditor,
    Paused,
}

impl Default for GameState {
    /// A game starts in the main menu.
    fn default() -> (state: Self)
        ensures
            state == GameState::MainMenu,
    {
        GameState::MainMenu
    }
}

/// What is to be done after a menu button event.
#[derive(Debug, Clone, Copy, PartialEq, Eq, Structural)]
pub enum MenuAction {
    /// Nothing.
    Stay,
    /// Move the game to this state.
    Enter(GameState),
    /// End the program.
    Quit,
}

/// What a menu button event leads to.
pub open spec fn menu_action(event: ButtonInteractionEvent<MenuButton>) -> MenuAction {
    match event {
        ButtonInteractionEvent::Pressed(MenuButton::Play) => MenuAction::Enter(GameState::Playing),
        ButtonInteractionEvent::Pressed(MenuButton::Editor) => MenuAction::Enter(
            GameState::LevelEditor,
        ),
        ButtonInteractionEvent::Pressed(MenuButton::Quit) => MenuAction::Quit,
        _ => MenuAction::Stay,
    }
}

/// Decides what a menu button event leads to: pressing Play starts the game,
/// pressing Editor opens the level editor, pressing Quit ends the program,
/// and anything else changes nothing.
pub fn menu_button_handler(event: ButtonInteractionEvent<MenuButton>) -> (action: MenuAction)
    ensures
        action == menu_action(event),
{
    match event {
        ButtonInteractionEvent::Pressed(button) => match button {
            MenuButton::Play => MenuAction::Enter(GameState::Playing),
            MenuButton::Editor => MenuAction::Enter(GameState::LevelEditor),
            MenuButton::Quit => MenuAction::Quit,
        },
        _ => MenuAction::Stay,
    }
}

} // verus!
