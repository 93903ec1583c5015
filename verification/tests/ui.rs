use coclike::buildings::{place_building, Base};
use coclike::components::{BuildingRecord, BuildingType, ResourceType};
use coclike::ui::editor::{
    editor_button_handler, place_editor_building, preview_placement, EditorState, EDITOR_LEVEL,
};
use coclike::ui::events::{ButtonInteractionEvent, EditorButton, MenuButton};
use coclike::ui::main_menu::{menu_button_handler, GameState, MenuAction};

const GOLD_COLLECTOR: BuildingType = BuildingType::Collector(ResourceType::Gold);

fn armed(kind: BuildingType) -> EditorState {
    EditorState { selected_building: Some(kind), is_selected: false }
}

#[test]
fn game_starts_in_the_main_menu() {
    assert_eq!(GameState::default(), GameState::MainMenu);
}

#[test]
fn menu_buttons_lead_where_they_say() {
    assert_eq!(
        menu_button_handler(ButtonInteractionEvent::Pressed(MenuButton::Play)),
        MenuAction::Enter(GameState::Playing)
    );
    assert_eq!(
        menu_button_handler(ButtonInteractionEvent::Pressed(MenuButton::Editor)),
        MenuAction::Enter(GameState::LevelEditor)
    );
    assert_eq!(
        menu_button_handler(ButtonInteractionEvent::Pressed(MenuButton::Quit)),
        MenuAction::Quit
    );
    for button in [MenuButton::Play, MenuButton::Editor, MenuButton::Quit] {
        assert_eq!(menu_button_handler(ButtonInteractionEvent::Hovered(button)), MenuAction::Stay);
    }
    assert_eq!(menu_button_handler(ButtonInteractionEvent::Cleared), MenuAction::Stay);
}

#[test]
fn editor_starts_idle() {
    let state = EditorState::default();
    assert_eq!(state, EditorState { selected_building: None, is_selected: false });
    assert_eq!(state.armed(), None);
    assert_eq!(EDITOR_LEVEL, 1);
}

#[test]
fn pressing_a_building_button_selects_its_kind() {
    let mut state = EditorState::default();
    let next = editor_button_handler(
        &mut state,
        ButtonInteractionEvent::Pressed(EditorButton::Building(BuildingType::Defense)),
    );
    assert_eq!(next, None);
    assert_eq!(
        state,
        EditorState { selected_building: Some(BuildingType::Defense), is_selected: true }
    );
    assert_eq!(state.armed(), None);
    let next = editor_button_handler(&mut state, ButtonInteractionEvent::Cleared);
    assert_eq!(next, None);
    assert_eq!(state, armed(BuildingType::Defense));
    assert_eq!(state.armed(), Some(BuildingType::Defense));
}

#[test]
fn pressing_back_asks_for_play_and_keeps_the_selection() {
    let mut state = armed(BuildingType::Wall);
    let next = editor_button_handler(&mut state, ButtonInteractionEvent::Pressed(EditorButton::Back));
    assert_eq!(next, Some(GameState::Playing));
    assert_eq!(state, armed(BuildingType::Wall));
}

#[test]
fn hovering_changes_nothing() {
    for before in [EditorState::default(), armed(BuildingType::Wall)] {
        for button in [EditorButton::Back, EditorButton::Building(BuildingType::TownHall)] {
            let mut state = before;
            let next = editor_button_handler(&mut state, ButtonInteractionEvent::Hovered(button));
            assert_eq!(next, None);
            assert_eq!(state, before);
        }
    }
}

#[test]
fn click_with_nothing_selected_places_nothing() {
    let mut state = EditorState::default();
    let mut base = Base::new(100, 100);
    assert!(!preview_placement(&state, &base, Some((10, 10))));
    assert_eq!(place_editor_building(&mut state, &mut base, Some((10, 10))), None);
    assert_eq!(state, EditorState::default());
    assert!(base.records().is_empty());
}

#[test]
fn click_on_free_tiles_places_the_armed_kind_and_disarms() {
    let mut state = armed(GOLD_COLLECTOR);
    let mut base = Base::new(100, 100);
    assert!(preview_placement(&state, &base, Some((10, 12))));
    let id = place_editor_building(&mut state, &mut base, Some((10, 12))).expect("free tiles");
    assert_eq!(state, EditorState::default());
    assert_eq!(base.get(id), Some(BuildingRecord::new(id, GOLD_COLLECTOR, 1, 10, 12)));
    assert_eq!(base.map().get_entity_at(12, 14), Some(id));
    assert_eq!(place_editor_building(&mut state, &mut base, Some((20, 20))), None);
    assert_eq!(base.records().len(), 1);
}

#[test]
fn rejected_click_leaves_the_kind_armed() {
    let mut state = armed(GOLD_COLLECTOR);
    let mut base = Base::new(100, 100);
    place_building(&mut base, BuildingType::TownHall, 1, 45, 45).expect("free");
    let before = base.clone();
    assert!(!preview_placement(&state, &base, Some((46, 46))));
    assert_eq!(place_editor_building(&mut state, &mut base, Some((46, 46))), None);
    assert_eq!(place_editor_building(&mut state, &mut base, Some((98, 98))), None);
    assert_eq!(state, armed(GOLD_COLLECTOR));
    assert_eq!(base, before);
    assert!(place_editor_building(&mut state, &mut base, Some((50, 50))).is_some());
    assert_eq!(state.selected_building, None);
}

#[test]
fn click_over_no_tile_changes_nothing() {
    let mut state = armed(BuildingType::Wall);
    let mut base = Base::new(100, 100);
    assert!(!preview_placement(&state, &base, None));
    assert_eq!(place_editor_building(&mut state, &mut base, None), None);
    assert_eq!(state, armed(BuildingType::Wall));
    assert!(base.records().is_empty());
}

#[test]
fn click_that_belongs_to_the_button_places_nothing() {
    let mut state = EditorState::default();
    let mut base = Base::new(100, 100);
    editor_button_handler(
        &mut state,
        ButtonInteractionEvent::Pressed(EditorButton::Building(BuildingType::Wall)),
    );
    let selected = state;
    assert!(!preview_placement(&state, &base, Some((5, 5))));
    assert_eq!(place_editor_building(&mut state, &mut base, Some((5, 5))), None);
    assert_eq!(state, selected);
    assert!(base.records().is_empty());
    editor_button_handler(&mut state, ButtonInteractionEvent::Cleared);
    assert!(place_editor_building(&mut state, &mut base, Some((5, 5))).is_some());
}

#[test]
fn preview_does_not_change_anything() {
    let state = armed(BuildingType::Storage(ResourceType::Elixir));
    let mut base = Base::new(100, 100);
    place_building(&mut base, BuildingType::TownHall, 1, 45, 45).expect("free");
    let before = base.clone();
    assert!(preview_placement(&state, &base, Some((0, 0))));
    assert!(!preview_placement(&state, &base, Some((44, 44))));
    assert!(!preview_placement(&state, &base, Some((97, 97))));
    assert_eq!(base, before);
    assert_eq!(state, armed(BuildingType::Storage(ResourceType::Elixir)));
}
