//! The level editor: selecting a building kind and placing it with a click
//! on the grid.

use crate::buildings::{area, footprint, place_building, Base, BaseView};
use crate::components::{BuildingType, Identity};
use crate::ui::events::{ButtonInteractionEvent, EditorButton};
use crate::ui::main_menu::GameState;
use vstd::prelude::*;

verus! {

/// The level every building placed in the editor starts at.
pub const EDITOR_LEVEL: u32 = 1;

/// What the editor has selected. With no building kind selected the editor is
/// idle; with one selected it waits for a click on the grid to place it.
/// While `is_selected` holds, the pointer is still on the button that made
/// the selection, and a click belongs to the button, not to the grid.
#[derive(Debug, Clone, Copy, PartialEq, Eq, Structural)]
pub struct EditorState {
    pub selected_building: Option<BuildingType>,
    pub is_selected: bool,
}

impl Default for EditorState {
    /// Nothing selected.
    fn default() -> (state: Self)
        ensures
            state == (EditorState { selected_building: None, is_selected: false }),
    {
        EditorState { selected_building: None, is_selected: false }
    }
}

impl EditorState {
    /// The building kind a click on the grid would place, if any.
    pub open spec fn armed_spec(self) -> Option<BuildingType> {
        if self.is_selected {
            None
        } else {
            self.selected_building
        }
    }

    /// The building kind a click on the grid would place, if any.
    pub fn armed(&self) -> (kind: Option<BuildingType>)
        ensures
            kind == self.armed_spec(),
    {
        if self.is_selected {
            None
        } else {
            self.selected_building
        }
    }

    /// The state after a button event: pressing a building button selects
    /// its kind, and the pointer leaving a button hands clicks back to the
    /// grid.
    pub open spec fn after_button(self, event: ButtonInteractionEvent<EditorButton>) -> EditorState {
        match event {
            ButtonInteractionEvent::Pressed(EditorButton::Building(kind)) => EditorState {
                selected_building: Some(kind),
                is_selected: true,
            },
            ButtonInteractionEvent::Cleared => EditorState {
                selected_building: self.selected_building,
                is_selected: false,
            },
            _ => self,
        }
    }

    /// What a click on the grid leads to: the editor's state and the base
    /// afterwards, and the handle of the building placed. With a kind armed
    /// and a tile under the pointer, the kind is placed there at the editor's
    /// level if it can be, and the editor returns to idle; where it cannot
    /// be, or with nothing armed or no tile under the pointer, nothing
    /// changes.
    pub open spec fn after_click(self, base: BaseView, cell: Option<(usize, usize)>) -> (
        EditorState,
        BaseView,
        Option<Identity>,
    ) {
        match (self.armed_spec(), cell) {
            (Some(kind), Some((x, y))) => {
                let (after, placed) = base.place_building(kind, EDITOR_LEVEL, x, y);
                if placed is Some {
                    (
                        EditorState { selected_building: None, is_selected: self.is_selected },
                        after,
                        placed,
                    )
                } else {
                    (self, base, None)
                }
            },
            _ => (self, base, None),
        }
    }
}

/// The state of the game that a button event of the editor asks for: pressing
/// Back returns to play.
pub open spec fn requested_state(event: ButtonInteractionEvent<EditorButton>) -> Option<
    GameState,
> {
    match event {
        ButtonInteractionEvent::Pressed(EditorButton::Back) => Some(GameState::Playing),
        _ => None,
    }
}

/// Handles one button event of the editor. Updates the selection and returns
/// the state the game is to move to, if the event asks for one.
pub fn editor_button_handler(
    editor_state: &mut EditorState,
    event: ButtonInteractionEvent<EditorButton>,
) -> (next_state: Option<GameState>)
    ensures
        *final(editor_state) == old(editor_state).after_button(event),
        next_state == requested_state(event),
{
    match event {
        ButtonInteractionEvent::Pressed(button) => match button {
            EditorButton::Back => Some(GameState::Playing),
            EditorButton::Building(building) => {
                editor_state.selected_building = Some(building);
                editor_state.is_selected = true;
                None
            },
        },
        ButtonInteractionEvent::Cleared => {
            editor_state.is_selected = false;
            None
        },
        _ => None,
    }
}

/// Whether a click on `cell` would place a building now. Reads only.
pub fn preview_placement(editor_state: &EditorState, base: &Base, cell: Option<(usize, usize)>) -> (free:
    bool)
    requires
        base.wf(),
    ensures
        free == editor_state.after_click(base@, cell).2.is_some(),
        free == (editor_state.armed_spec() matches Some(kind) && cell matches Some((x, y))
            && base@.grid.can_place(x as int, y as int, area(footprint(kind)))),
{
    match (editor_state.armed(), cell) {
        (Some(kind), Some((x, y))) => base.can_place(kind, x, y),
        _ => false,
    }
}

/// Handles one click on the grid; `cell` is the tile under the pointer, or
/// `None` when the pointer is over no tile. With a building kind armed, the
/// kind is placed at `cell` if it can be, and the editor returns to idle. A
/// rejected placement leaves the kind armed for another try.
pub fn place_editor_building(
    editor_state: &mut EditorState,
    base: &mut Base,
    cell: Option<(usize, usize)>,
) -> (placed: Option<Identity>)
    requires
        old(base).wf(),
    ensures
        final(base).wf(),
        *final(editor_state) == old(editor_state).after_click(old(base)@, cell).0,
        final(base)@ == old(editor_state).after_click(old(base)@, cell).1,
        placed == old(editor_state).after_click(old(base)@, cell).2,
{
    if let Some(kind) = editor_state.armed() {
        if let Some((x, y)) = cell {
            if base.can_place(kind, x, y) {
                let placed = place_building(base, kind, EDITOR_LEVEL, x, y);
                editor_state.selected_building = None;
                return placed;
            }
        }
    }
    None
}

} // verus!
