use coclike::buildings::{place_building, remove_building, Base};
use coclike::components::{BuildingRecord, BuildingType, Identity, ResourceType};
use coclike::constants::{AMOUNT_PER_UNIT, GRID_SIZE, STARTING_UNITS};
use coclike::game::{
    collect_resources, production, setup_game, simulation_step, spawn_initial_buildings,
    synchronize_buildings_with_map, try_collect_resources, FrameInput, FrameOutcome,
};
use coclike::ui::editor::EditorState;
use coclike::ui::main_menu::GameState;
use coclike::resources::PlayerResources;
use coclike::tile_map::TileMap;

const SECOND: u64 = 1_000_000_000;

fn units(amount: u128) -> f64 {
    amount as f64 / AMOUNT_PER_UNIT as f64
}

#[test]
fn new_resources_hold_nothing() {
    let resources = PlayerResources::new();
    assert_eq!(resources.amount(ResourceType::Gold), 0);
    assert_eq!(resources.amount(ResourceType::Elixir), 0);
    let resources = PlayerResources::default();
    assert_eq!(resources.amount(ResourceType::Gold), 0);
    assert_eq!(resources.amount(ResourceType::Elixir), 0);
}

#[test]
fn insert_sets_one_resource_and_returns_the_old_amount() {
    let mut resources = PlayerResources::new();
    assert_eq!(resources.insert(ResourceType::Gold, 5), 0);
    assert_eq!(resources.amount(ResourceType::Gold), 5);
    assert_eq!(resources.amount(ResourceType::Elixir), 0);
    assert_eq!(resources.insert(ResourceType::Gold, 9), 5);
    assert_eq!(resources.insert(ResourceType::Elixir, 2), 0);
    assert_eq!(resources.amount(ResourceType::Gold), 9);
    assert_eq!(resources.amount(ResourceType::Elixir), 2);
}

#[test]
fn deposit_adds_to_one_resource() {
    let mut resources = PlayerResources::new();
    resources.deposit(ResourceType::Elixir, 4);
    resources.deposit(ResourceType::Elixir, 6);
    resources.deposit(ResourceType::Gold, 1);
    assert_eq!(resources.amount(ResourceType::Elixir), 10);
    assert_eq!(resources.amount(ResourceType::Gold), 1);
    resources.deposit(ResourceType::Gold, u128::MAX - 1);
    assert_eq!(resources.amount(ResourceType::Gold), u128::MAX);
}

#[test]
fn new_game_has_an_empty_grid_and_the_starting_amounts() {
    let game = setup_game();
    assert_eq!(GRID_SIZE, 100);
    assert_eq!(game.base.map().width(), 100);
    assert_eq!(game.base.map().height(), 100);
    assert_eq!(*game.base.map(), TileMap::new(100, 100));
    assert!(game.base.records().is_empty());
    assert_eq!(game.resources.amount(ResourceType::Gold), STARTING_UNITS * AMOUNT_PER_UNIT);
    assert_eq!(units(game.resources.amount(ResourceType::Gold)), 1000.0);
    assert_eq!(units(game.resources.amount(ResourceType::Elixir)), 1000.0);
}

#[test]
fn initial_buildings_all_find_their_place() {
    let mut game = setup_game();
    spawn_initial_buildings(&mut game.base);
    let records: Vec<BuildingRecord> =
        game.base.records().iter().map(|slot| slot.expect("placed")).collect();
    assert_eq!(records.len(), 26);
    let expected = [
        (BuildingType::TownHall, 45, 45),
        (BuildingType::Collector(ResourceType::Gold), 40, 40),
        (BuildingType::Collector(ResourceType::Elixir), 50, 40),
        (BuildingType::Storage(ResourceType::Gold), 40, 50),
        (BuildingType::Storage(ResourceType::Elixir), 50, 50),
        (BuildingType::Defense, 45, 55),
    ];
    for (at, (kind, x, y)) in expected.iter().enumerate() {
        assert_eq!(records[at], BuildingRecord::new(Identity(at), *kind, 1, *x, *y));
    }
    for step in 0..5 {
        let at = 6 + 4 * step;
        let wall = BuildingType::Wall;
        assert_eq!(records[at], BuildingRecord::new(Identity(at), wall, 1, 44 + step, 60));
        assert_eq!(records[at + 1], BuildingRecord::new(Identity(at + 1), wall, 1, 44 + step, 40));
        assert_eq!(records[at + 2], BuildingRecord::new(Identity(at + 2), wall, 1, 40, 44 + step));
        assert_eq!(records[at + 3], BuildingRecord::new(Identity(at + 3), wall, 1, 60, 44 + step));
    }
    let mut occupied = 0;
    for y in 0..100 {
        for x in 0..100 {
            if let Some(id) = game.base.map().get_entity_at(x, y) {
                occupied += 1;
                let record = records[id.0];
                assert!(record.position.x <= x && x < record.position.x + record.size.width);
                assert!(record.position.y <= y && y < record.position.y + record.size.height);
            }
        }
    }
    assert_eq!(occupied, 16 + 9 + 9 + 16 + 16 + 9 + 20);
}

#[test]
fn initial_buildings_skip_taken_places() {
    let mut base = Base::new(100, 100);
    let blocker = place_building(&mut base, BuildingType::Wall, 1, 46, 46).expect("free");
    spawn_initial_buildings(&mut base);
    assert_eq!(base.records().len(), 26);
    assert_eq!(base.map().get_entity_at(45, 45), None);
    assert_eq!(base.map().get_entity_at(46, 46), Some(blocker));
    spawn_initial_buildings(&mut base);
    assert_eq!(base.records().len(), 26);
}

#[test]
fn gold_collector_of_rate_five_yields_ten_in_two_seconds() {
    let mut game = setup_game();
    place_building(&mut game.base, BuildingType::Collector(ResourceType::Gold), 1, 10, 10)
        .expect("free");
    assert_eq!(production(&game.base, ResourceType::Gold), 5);
    let gold = game.resources.amount(ResourceType::Gold);
    let elixir = game.resources.amount(ResourceType::Elixir);
    collect_resources(&mut game.resources, &game.base, 2 * SECOND);
    assert_eq!(game.resources.amount(ResourceType::Gold) - gold, 10 * AMOUNT_PER_UNIT);
    assert_eq!(units(game.resources.amount(ResourceType::Gold) - gold), 10.0);
    assert_eq!(units(game.resources.amount(ResourceType::Gold)), 1010.0);
    assert_eq!(game.resources.amount(ResourceType::Elixir), elixir);
}

#[test]
fn production_adds_up_the_collectors_of_one_resource() {
    let mut base = Base::new(100, 100);
    assert_eq!(production(&base, ResourceType::Gold), 0);
    place_building(&mut base, BuildingType::Collector(ResourceType::Gold), 1, 0, 0);
    place_building(&mut base, BuildingType::Collector(ResourceType::Gold), 10, 10, 0);
    place_building(&mut base, BuildingType::Collector(ResourceType::Elixir), 4, 20, 0);
    place_building(&mut base, BuildingType::Storage(ResourceType::Gold), 4, 30, 0);
    place_building(&mut base, BuildingType::TownHall, 4, 40, 0);
    let gone = place_building(&mut base, BuildingType::Collector(ResourceType::Elixir), 2, 50, 0)
        .expect("free");
    assert_eq!(production(&base, ResourceType::Gold), 40);
    assert_eq!(production(&base, ResourceType::Elixir), 19);
    remove_building(&mut base, gone);
    assert_eq!(production(&base, ResourceType::Elixir), 12);
}

#[test]
fn every_collector_adds_rate_times_time() {
    let mut game = setup_game();
    spawn_initial_buildings(&mut game.base);
    place_building(&mut game.base, BuildingType::Collector(ResourceType::Elixir), 3, 0, 0);
    collect_resources(&mut game.resources, &game.base, SECOND / 2);
    assert_eq!(units(game.resources.amount(ResourceType::Gold)), 1002.5);
    assert_eq!(units(game.resources.amount(ResourceType::Elixir)), 1007.0);
    collect_resources(&mut game.resources, &game.base, 1);
    assert_eq!(
        game.resources.amount(ResourceType::Gold),
        1000 * AMOUNT_PER_UNIT + 5 * (SECOND as u128 / 2) + 5
    );
}

#[test]
fn storage_capacity_does_not_cap_accrual() {
    let mut game = setup_game();
    place_building(&mut game.base, BuildingType::Storage(ResourceType::Gold), 1, 0, 0);
    place_building(&mut game.base, BuildingType::Collector(ResourceType::Gold), 10, 10, 0);
    collect_resources(&mut game.resources, &game.base, 1000 * SECOND);
    assert_eq!(units(game.resources.amount(ResourceType::Gold)), 36000.0);
}

#[test]
fn two_ticks_accrue_what_one_tick_of_their_sum_does() {
    for (first, second) in [(0, 0), (1, 2), (16_666_667, 16_666_666), (SECOND, 3 * SECOND)] {
        let mut split = setup_game();
        spawn_initial_buildings(&mut split.base);
        let mut whole = setup_game();
        spawn_initial_buildings(&mut whole.base);
        collect_resources(&mut split.resources, &split.base, first);
        collect_resources(&mut split.resources, &split.base, second);
        collect_resources(&mut whole.resources, &whole.base, first + second);
        for resource in [ResourceType::Gold, ResourceType::Elixir] {
            assert_eq!(split.resources.amount(resource), whole.resources.amount(resource));
            assert_eq!(
                whole.resources.amount(resource),
                1000 * AMOUNT_PER_UNIT + 5 * (first + second) as u128
            );
        }
    }
}

#[test]
fn no_time_and_no_collectors_accrue_nothing() {
    let mut game = setup_game();
    collect_resources(&mut game.resources, &game.base, 5 * SECOND);
    assert_eq!(units(game.resources.amount(ResourceType::Gold)), 1000.0);
    spawn_initial_buildings(&mut game.base);
    collect_resources(&mut game.resources, &game.base, 0);
    assert_eq!(units(game.resources.amount(ResourceType::Gold)), 1000.0);
    assert_eq!(units(game.resources.amount(ResourceType::Elixir)), 1000.0);
}

#[test]
fn checked_accrual_refuses_what_does_not_fit() {
    let mut base = Base::new(100, 100);
    place_building(&mut base, BuildingType::Collector(ResourceType::Gold), 1, 0, 0);
    let mut resources = PlayerResources::new();
    resources.insert(ResourceType::Gold, u128::MAX - 9);
    resources.insert(ResourceType::Elixir, 3);
    assert!(try_collect_resources(&mut resources, &base, 1));
    assert_eq!(resources.amount(ResourceType::Gold), u128::MAX - 4);
    assert!(!try_collect_resources(&mut resources, &base, 1));
    assert_eq!(resources.amount(ResourceType::Gold), u128::MAX - 4);
    assert_eq!(resources.amount(ResourceType::Elixir), 3);
    assert!(!try_collect_resources(&mut resources, &base, u64::MAX));
    assert_eq!(resources.amount(ResourceType::Gold), u128::MAX - 4);
    assert!(try_collect_resources(&mut resources, &base, 0));
    assert_eq!(resources.amount(ResourceType::Gold), u128::MAX - 4);
}

#[test]
fn checked_accrual_is_accrual_where_it_fits() {
    let mut checked = setup_game();
    spawn_initial_buildings(&mut checked.base);
    let mut plain = setup_game();
    spawn_initial_buildings(&mut plain.base);
    assert!(try_collect_resources(&mut checked.resources, &checked.base, u64::MAX));
    collect_resources(&mut plain.resources, &plain.base, u64::MAX);
    for resource in [ResourceType::Gold, ResourceType::Elixir] {
        assert_eq!(checked.resources.amount(resource), plain.resources.amount(resource));
        assert_eq!(
            plain.resources.amount(resource),
            1000 * AMOUNT_PER_UNIT + 5 * u64::MAX as u128
        );
    }
}

#[test]
fn synchronizing_enters_buildings_in_order() {
    let mut map = TileMap::new(20, 20);
    let buildings = vec![
        BuildingRecord::new(Identity(0), BuildingType::TownHall, 1, 0, 0),
        BuildingRecord::new(Identity(1), BuildingType::Defense, 1, 3, 3),
        BuildingRecord::new(Identity(2), BuildingType::Wall, 1, 4, 4),
        BuildingRecord::new(Identity(3), BuildingType::Storage(ResourceType::Gold), 1, 17, 0),
    ];
    synchronize_buildings_with_map(&mut map, &buildings);
    let mut expected = TileMap::new(20, 20);
    expected.place(0, 0, Identity(0), (4, 4));
    expected.place(4, 4, Identity(2), (1, 1));
    assert_eq!(map, expected);
    assert_eq!(map.get_entity_at(3, 3), Some(Identity(0)));
    assert_eq!(map.get_entity_at(5, 5), None);
    assert_eq!(map.get_entity_at(17, 0), None);
    synchronize_buildings_with_map(&mut map, &Vec::new());
    assert_eq!(map, expected);
}

fn armed_with_gold_collector() -> EditorState {
    EditorState {
        selected_building: Some(BuildingType::Collector(ResourceType::Gold)),
        is_selected: false,
    }
}

#[test]
fn step_during_play_collects_and_places_nothing() {
    let mut game = setup_game();
    spawn_initial_buildings(&mut game.base);
    let mut editor = armed_with_gold_collector();
    let base = game.base.clone();
    let input = FrameInput { elapsed: 2 * SECOND, clicked: true, cell: Some((0, 0)) };
    let outcome = simulation_step(GameState::Playing, &mut game, &mut editor, input);
    assert_eq!(outcome, FrameOutcome { placed: None, collected: true });
    assert_eq!(game.base, base);
    assert_eq!(editor, armed_with_gold_collector());
    assert_eq!(units(game.resources.amount(ResourceType::Gold)), 1010.0);
    assert_eq!(units(game.resources.amount(ResourceType::Elixir)), 1010.0);
}

#[test]
fn step_in_the_editor_places_and_collects_nothing() {
    let mut game = setup_game();
    spawn_initial_buildings(&mut game.base);
    let mut editor = armed_with_gold_collector();
    let input = FrameInput { elapsed: 2 * SECOND, clicked: true, cell: Some((0, 0)) };
    let outcome = simulation_step(GameState::LevelEditor, &mut game, &mut editor, input);
    assert_eq!(outcome, FrameOutcome { placed: Some(Identity(26)), collected: false });
    assert_eq!(editor, EditorState::default());
    assert_eq!(game.base.map().get_entity_at(2, 2), Some(Identity(26)));
    assert_eq!(units(game.resources.amount(ResourceType::Gold)), 1000.0);
    assert_eq!(units(game.resources.amount(ResourceType::Elixir)), 1000.0);
}

#[test]
fn step_in_the_editor_without_a_click_changes_nothing() {
    let mut game = setup_game();
    let mut editor = armed_with_gold_collector();
    let input = FrameInput { elapsed: SECOND, clicked: false, cell: Some((0, 0)) };
    let outcome = simulation_step(GameState::LevelEditor, &mut game, &mut editor, input);
    assert_eq!(outcome, FrameOutcome { placed: None, collected: false });
    assert_eq!(editor, armed_with_gold_collector());
    assert!(game.base.records().is_empty());
}

#[test]
fn step_in_the_editor_on_taken_tiles_leaves_the_kind_armed() {
    let mut game = setup_game();
    spawn_initial_buildings(&mut game.base);
    let base = game.base.clone();
    let mut editor = armed_with_gold_collector();
    for cell in [Some((46, 46)), Some((98, 98)), None] {
        let input = FrameInput { elapsed: 0, clicked: true, cell };
        let outcome = simulation_step(GameState::LevelEditor, &mut game, &mut editor, input);
        assert_eq!(outcome, FrameOutcome { placed: None, collected: false });
        assert_eq!(editor, armed_with_gold_collector());
        assert_eq!(game.base, base);
    }
}

#[test]
fn step_outside_play_and_editor_does_nothing() {
    for state in [GameState::MainMenu, GameState::Paused] {
        let mut game = setup_game();
        place_building(&mut game.base, BuildingType::Collector(ResourceType::Gold), 1, 0, 0);
        let base = game.base.clone();
        let mut editor = armed_with_gold_collector();
        let input = FrameInput { elapsed: SECOND, clicked: true, cell: Some((50, 50)) };
        let outcome = simulation_step(state, &mut game, &mut editor, input);
        assert_eq!(outcome, FrameOutcome { placed: None, collected: false });
        assert_eq!(game.base, base);
        assert_eq!(editor, armed_with_gold_collector());
        assert_eq!(units(game.resources.amount(ResourceType::Gold)), 1000.0);
    }
}

#[test]
fn step_during_play_refuses_amounts_that_do_not_fit() {
    let mut game = setup_game();
    place_building(&mut game.base, BuildingType::Collector(ResourceType::Gold), 1, 0, 0);
    game.resources.insert(ResourceType::Gold, u128::MAX);
    let mut editor = EditorState::default();
    let input = FrameInput { elapsed: 1, clicked: false, cell: None };
    let outcome = simulation_step(GameState::Playing, &mut game, &mut editor, input);
    assert_eq!(outcome, FrameOutcome { placed: None, collected: false });
    assert_eq!(game.resources.amount(ResourceType::Gold), u128::MAX);
    assert_eq!(units(game.resources.amount(ResourceType::Elixir)), 1000.0);
}

#[test]
fn order_of_the_collectors_does_not_matter() {
    let kinds = [
        BuildingType::Collector(ResourceType::Gold),
        BuildingType::Collector(ResourceType::Elixir),
        BuildingType::Collector(ResourceType::Gold),
    ];
    let levels = [1, 5, 10];
    let mut forward = Base::new(100, 100);
    let mut backward = Base::new(100, 100);
    for at in 0..3 {
        place_building(&mut forward, kinds[at], levels[at], 10 * at, 0);
        place_building(&mut backward, kinds[2 - at], levels[2 - at], 10 * at, 0);
    }
    let mut one = PlayerResources::new();
    let mut other = PlayerResources::new();
    collect_resources(&mut one, &forward, 3 * SECOND);
    collect_resources(&mut other, &backward, 3 * SECOND);
    for resource in [ResourceType::Gold, ResourceType::Elixir] {
        assert_eq!(one.amount(resource), other.amount(resource));
    }
    assert_eq!(units(one.amount(ResourceType::Gold)), 120.0);
    assert_eq!(units(one.amount(ResourceType::Elixir)), 45.0);
}

#[test]
fn whole_units_drop_what_is_short_of_a_unit() {
    let mut resources = PlayerResources::new();
    resources.insert(ResourceType::Gold, 2 * AMOUNT_PER_UNIT + 999_999_999);
    resources.insert(ResourceType::Elixir, AMOUNT_PER_UNIT - 1);
    assert_eq!(resources.whole_units(ResourceType::Gold), 2);
    assert_eq!(resources.whole_units(ResourceType::Elixir), 0);
    assert_eq!(setup_game().resources.whole_units(ResourceType::Gold), 1000);
}
