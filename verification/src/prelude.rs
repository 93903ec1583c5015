//! Everything a user of the library usually needs, in one import.

pub use crate::buildings::{
    defense_tower, elixir_collector, elixir_storage, gold_collector, gold_storage, place_building,
    remove_building, stats_for, to_size, town_hall, validate_level, wall, Base,
};
pub use crate::components::{
    Attributes, Building, BuildingRecord, BuildingType, Defense, GridPosition, GridSize, Identity,
    ResourceCollector, ResourceType, StatSet, Storage, TownHall, Wall,
};
pub use crate::constants::{
    AMOUNT_PER_UNIT, COLLECTOR_HEALTH, COLLECTOR_RATE, COLLECTOR_SIZE, DEFENSE_DAMAGE,
    DEFENSE_HEALTH, DEFENSE_RANGE, DEFENSE_SIZE, DEFENSE_SPEED, GRID_SIZE, MAX_LEVEL,
    STARTING_UNITS, STORAGE_CAPACITY, STORAGE_HEALTH, STORAGE_SIZE, TOWNHALL_HEALTH,
    TOWNHALL_SIZE, WALL_HEALTH, WALL_SIZE,
};
pub use crate::game::{
    collect_resources, production, setup_game, simulation_step, spawn_initial_buildings,
    synchronize_buildings_with_map, try_collect_resources, FrameInput, FrameOutcome, Game,
};
pub use crate::resources::PlayerResources;
pub use crate::tile_map::TileMap;
pub use crate::ui::editor::{
    editor_button_handler, place_editor_building, preview_placement, EditorState, EDITOR_LEVEL,
};
pub use crate::ui::events::{ButtonInteractionEvent, EditorButton, MenuButton};
pub use crate::ui::main_menu::{menu_button_handler, GameState, MenuAction};
