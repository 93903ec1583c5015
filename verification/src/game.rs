//! A game in progress: its starting state, the scripted first buildings, and
//! the resource economy that runs on the collectors of the base.

use crate::buildings::{
    area, clear_of, defense_tower, elixir_collector, elixir_storage, footprint, gold_collector,
    gold_storage, lemma_clear_footprint_can_be_placed, lemma_place_building_wf, record_for,
    town_hall, wall, Base, BaseView,
};
use crate::components::{Attributes, BuildingRecord, BuildingType, Identity, ResourceType};
use crate::constants::{AMOUNT_PER_UNIT, GRID_SIZE, STARTING_UNITS};
use crate::resources::PlayerResources;
use crate::tile_map::{TileGrid, TileMap};
use crate::ui::editor::{place_editor_building, EditorState};
use crate::ui::main_menu::GameState;
use vstd::prelude::*;

verus! {

/// Units per second that the building in a slot produces of a resource: the
/// rate of a collector of that resource, and nothing for anything else.
pub open spec fn collector_rate(slot: Option<BuildingRecord>, resource: ResourceType) -> nat {
    match slot {
        Some(record) => match record.attributes {
            Attributes::Collector(collector) => if collector.resource_type == resource {
                collector.production_rate as nat
            } else {
                0
            },
            _ => 0,
        },
        None => 0,
    }
}

/// Units per second that all standing buildings together produce of a
/// resource.
pub open spec fn production_rate(
    records: Seq<Option<BuildingRecord>>,
    resource: ResourceType,
) -> nat
    decreases records.len(),
{
    if records.len() == 0 {
        0
    } else {
        production_rate(records.drop_last(), resource) + collector_rate(records.last(), resource)
    }
}

/// The amounts held after the buildings have produced for `elapsed`
/// nanoseconds: each resource grows by rate times elapsed time.
pub open spec fn accrued(
    held: Map<ResourceType, nat>,
    records: Seq<Option<BuildingRecord>>,
    elapsed: nat,
) -> Map<ResourceType, nat> {
    Map::total(|resource: ResourceType| held[resource] + production_rate(records, resource) * elapsed)
}

/// Whether every amount still fits its number type after the buildings have
/// produced for `elapsed` nanoseconds.
pub open spec fn accrual_fits(
    held: Map<ResourceType, nat>,
    records: Seq<Option<BuildingRecord>>,
    elapsed: nat,
) -> bool {
    forall|resource: ResourceType| #[trigger]
        accrued(held, records, elapsed)[resource] <= u128::MAX
}

/// The production of the first `count` slots is at most that of all slots,
/// and grows by the rate of each further slot.
pub proof fn lemma_production_rate_prefix(
    records: Seq<Option<BuildingRecord>>,
    resource: ResourceType,
    count: int,
)
    requires
        0 <= count <= records.len(),
    ensures
        production_rate(records.take(count), resource) <= production_rate(records, resource),
        production_rate(records.take(count), resource) <= count * u32::MAX,
        count < records.len() ==> production_rate(records.take(count + 1), resource)
            == production_rate(records.take(count), resource) + collector_rate(
            records[count],
            resource,
        ),
    decreases records.len() - count,
{
    if count < records.len() {
        assert(records.take(count + 1).drop_last() =~= records.take(count));
        lemma_production_rate_prefix(records, resource, count + 1);
    } else {
        assert(records.take(count) =~= records);
    }
    lemma_production_rate_bound(records.take(count), resource);
}

/// No slot produces more than a 32-bit rate, so the production of a registry
/// is bounded by its length.
pub proof fn lemma_production_rate_bound(
    records: Seq<Option<BuildingRecord>>,
    resource: ResourceType,
)
    ensures
        production_rate(records, resource) <= records.len() * u32::MAX,
    decreases records.len(),
{
    if records.len() > 0 {
        lemma_production_rate_bound(records.drop_last(), resource);
    }
}

/// Accrual never lowers an amount.
pub proof fn lemma_accrual_never_decreases(
    held: Map<ResourceType, nat>,
    records: Seq<Option<BuildingRecord>>,
    elapsed: nat,
    resource: ResourceType,
)
    ensures
        accrued(held, records, elapsed)[resource] >= held[resource],
{
    assert(production_rate(records, resource) * elapsed >= 0) by (nonlinear_arith);
}

/// Taking one slot out of a registry lowers its production by the rate of
/// that slot.
pub proof fn lemma_production_rate_without(
    records: Seq<Option<BuildingRecord>>,
    resource: ResourceType,
    at: int,
)
    requires
        0 <= at < records.len(),
    ensures
        production_rate(records, resource) == production_rate(records.remove(at), resource)
            + collector_rate(records[at], resource),
    decreases records.len(),
{
    if at == records.len() - 1 {
        assert(records.remove(at) =~= records.drop_last());
    } else {
        lemma_production_rate_without(records.drop_last(), resource, at);
        assert(records.remove(at).drop_last() =~= records.drop_last().remove(at));
        assert(records.remove(at).last() == records.last());
    }
}

/// The order of the buildings is irrelevant to what they produce: two
/// registries that hold the same slots, each as often as the other, produce
/// the same.
pub proof fn lemma_production_rate_ignores_order(
    records: Seq<Option<BuildingRecord>>,
    reordered: Seq<Option<BuildingRecord>>,
    resource: ResourceType,
)
    requires
        records.to_multiset() == reordered.to_multiset(),
    ensures
        production_rate(records, resource) == production_rate(reordered, resource),
    decreases records.len(),
{
    records.to_multiset_ensures();
    reordered.to_multiset_ensures();
    if records.len() > 0 {
        let slot = records.last();
        assert(records[records.len() - 1] == slot);
        assert(records.contains(slot));
        assert(records.to_multiset().count(slot) > 0);
        assert(reordered.to_multiset().count(slot) > 0);
        assert(reordered.contains(slot));
        let at = choose|at: int| 0 <= at < reordered.len() && reordered[at] == slot;
        assert(records.drop_last() =~= records.remove(records.len() - 1));
        lemma_production_rate_ignores_order(records.drop_last(), reordered.remove(at), resource);
        lemma_production_rate_without(reordered, resource, at);
    }
}

/// Accrual is linear in time: producing for one span and then for another
/// gives the same amounts as producing once for both spans together.
pub proof fn lemma_accrual_is_additive(
    held: Map<ResourceType, nat>,
    records: Seq<Option<BuildingRecord>>,
    first: nat,
    second: nat,
)
    ensures
        accrued(accrued(held, records, first), records, second) == accrued(
            held,
            records,
            first + second,
        ),
        accrued(held, records, 0) == Map::total(|resource: ResourceType| held[resource]),
{
    assert forall|resource: ResourceType|
        accrued(accrued(held, records, first), records, second)[resource] == accrued(
            held,
            records,
            first + second,
        )[resource] by {
        let rate = production_rate(records, resource);
        assert(rate * (first + second) == rate * first + rate * second) by (nonlinear_arith);
    }
    assert(accrued(accrued(held, records, first), records, second) =~= accrued(
        held,
        records,
        first + second,
    ));
    assert(accrued(held, records, 0) =~= Map::total(|resource: ResourceType| held[resource]));
}

/// Units per second that the standing buildings of a base produce of a
/// resource.
pub fn production(base: &Base, resource: ResourceType) -> (rate: u128)
    ensures
        rate == production_rate(base@.records, resource),
{
    let records = base.records();
    let mut rate: u128 = 0;
    let mut idx: usize = 0;
    while idx < records.len()
        invariant
            idx <= records.len(),
            rate == production_rate(records@.take(idx as int), resource),
        decreases records.len() - idx,
    {
        proof {
            lemma_production_rate_prefix(records@, resource, idx as int);
            lemma_production_rate_bound(records@, resource);
            assert(records@.len() * u32::MAX <= usize::MAX * u32::MAX) by (nonlinear_arith)
                requires
                    records@.len() <= usize::MAX,
            ;
            assert(usize::MAX * u32::MAX <= 0xffff_ffff_ffff_ffff * 0xffff_ffff) by (nonlinear_arith)
                requires
                    usize::MAX <= 0xffff_ffff_ffff_ffff,
                    u32::MAX == 0xffff_ffff,
            ;
            lemma_production_rate_prefix(records@, resource, idx + 1);
        }
        if let Some(record) = records[idx] {
            if let Attributes::Collector(collector) = record.attributes {
                if collector.resource_type == resource {
                    rate = rate + collector.production_rate as u128;
                }
            }
        }
        idx = idx + 1;
    }
    proof {
        assert(records@.take(idx as int) =~= records@);
    }
    rate
}

/// Lets every standing collector produce for `elapsed` nanoseconds: each adds
/// its rate times the elapsed time to the amount held of its resource.
/// Nothing is capped.
pub fn collect_resources(resources: &mut PlayerResources, base: &Base, elapsed: u64)
    requires
        accrual_fits(old(resources)@, base@.records, elapsed as nat),
    ensures
        final(resources)@ == accrued(old(resources)@, base@.records, elapsed as nat),
{
    let records = base.records();
    let ghost before = resources@;
    let mut idx: usize = 0;
    proof {
        assert forall|resource: ResourceType|
            production_rate(records@.take(0), resource) * elapsed == 0 by {
            assert(records@.take(0).len() == 0);
            assert(production_rate(records@.take(0), resource) == 0);
        }
        assert(resources@ =~= accrued(before, records@.take(0), elapsed as nat));
    }
    while idx < records.len()
        invariant
            idx <= records.len(),
            records@ == base@.records,
            accrual_fits(before, records@, elapsed as nat),
            resources@ == accrued(before, records@.take(idx as int), elapsed as nat),
        decreases records.len() - idx,
    {
        let ghost so_far = resources@;
        if let Some(record) = records[idx] {
            if let Attributes::Collector(collector) = record.attributes {
                let resource = collector.resource_type;
                proof {
                    lemma_production_rate_prefix(records@, resource, idx as int);
                    lemma_production_rate_prefix(records@, resource, idx + 1);
                    let rate = production_rate(records@.take(idx as int), resource);
                    let next = production_rate(records@.take(idx + 1), resource);
                    let all = production_rate(records@, resource);
                    assert(next * elapsed == rate * elapsed + collector.production_rate * elapsed)
                        by (nonlinear_arith)
                        requires
                            next == rate + collector.production_rate,
                    ;
                    assert(next * elapsed <= all * elapsed) by (nonlinear_arith)
                        requires
                            next <= all,
                            0 <= elapsed,
                    ;
                    assert(accrued(before, records@, elapsed as nat)[resource] <= u128::MAX);
                    assert(collector.production_rate * elapsed <= u128::MAX) by (nonlinear_arith)
                        requires
                            collector.production_rate <= 0xffff_ffff,
                            elapsed <= 0xffff_ffff_ffff_ffff,
                    ;
                }
                let amount: u128 = collector.production_rate as u128 * elapsed as u128;
                resources.deposit(resource, amount);
            }
        }
        proof {
            assert forall|resource: ResourceType|
                resources@[resource] == accrued(
                    before,
                    records@.take(idx + 1),
                    elapsed as nat,
                )[resource] by {
                lemma_production_rate_prefix(records@, resource, idx as int);
                let rate = production_rate(records@.take(idx as int), resource);
                let next = production_rate(records@.take(idx + 1), resource);
                let step = collector_rate(records@[idx as int], resource);
                assert(next * elapsed == rate * elapsed + step * elapsed) by (nonlinear_arith)
                    requires
                        next == rate + step,
                ;
                assert(so_far[resource] == before[resource] + rate * elapsed);
            }
            assert(resources@ =~= accrued(before, records@.take(idx + 1), elapsed as nat));
        }
        idx = idx + 1;
    }
    proof {
        assert(records@.take(idx as int) =~= records@);
    }
}

/// The amount a resource would reach after `elapsed` nanoseconds, or `None`
/// when it would not fit its number type.
fn amount_after(resources: &PlayerResources, base: &Base, resource: ResourceType, elapsed: u64) -> (reached:
    Option<u128>)
    ensures
        reached == (if accrued(resources@, base@.records, elapsed as nat)[resource] <= u128::MAX {
            Some(accrued(resources@, base@.records, elapsed as nat)[resource] as u128)
        } else {
            None
        }),
{
    let rate: u128 = production(base, resource);
    let held: u128 = resources.amount(resource);
    proof {
        resources.lemma_held_fits(resource);
    }
    match rate.checked_mul(elapsed as u128) {
        Some(gain) => held.checked_add(gain),
        None => None,
    }
}

/// Like [`collect_resources`], for any elapsed time: where an amount would
/// outgrow its number type, nothing is changed and `false` is returned.
pub fn try_collect_resources(resources: &mut PlayerResources, base: &Base, elapsed: u64) -> (done:
    bool)
    ensures
        done == accrual_fits(old(resources)@, base@.records, elapsed as nat),
        done ==> final(resources)@ == accrued(old(resources)@, base@.records, elapsed as nat),
        !done ==> final(resources)@ == old(resources)@,
{
    let gold = amount_after(resources, base, ResourceType::Gold, elapsed);
    let elixir = amount_after(resources, base, ResourceType::Elixir, elapsed);
    if gold.is_some() && elixir.is_some() {
        proof {
            assert forall|resource: ResourceType| #[trigger]
                accrued(resources@, base@.records, elapsed as nat)[resource] <= u128::MAX by {
                match resource {
                    ResourceType::Gold => {},
                    ResourceType::Elixir => {},
                }
            }
        }
        collect_resources(resources, base, elapsed);
        true
    } else {
        false
    }
}

/// The whole state of a game: the base and what the player holds.
#[derive(Debug)]
pub struct Game {
    pub base: Base,
    pub resources: PlayerResources,
}

/// What one frame brings from outside.
#[derive(Debug, Clone, Copy)]
pub struct FrameInput {
    /// Nanoseconds since the frame before.
    pub elapsed: u64,
    /// Whether the grid was clicked in this frame.
    pub clicked: bool,
    /// The tile under the pointer, if the pointer is over the world.
    pub cell: Option<(usize, usize)>,
}

/// What one frame did.
#[derive(Debug, Clone, Copy, PartialEq, Eq, Structural)]
pub struct FrameOutcome {
    /// The handle of the building placed in this frame, if one was.
    pub placed: Option<Identity>,
    /// Whether the collectors produced in this frame.
    pub collected: bool,
}

/// The editor's state and the base after the placement part of a frame, and
/// the handle of the building placed: a click is handled in the level editor
/// and nowhere else.
pub open spec fn frame_placement(
    state: GameState,
    editor_state: EditorState,
    base: BaseView,
    input: FrameInput,
) -> (EditorState, BaseView, Option<Identity>) {
    if state == GameState::LevelEditor && input.clicked {
        editor_state.after_click(base, input.cell)
    } else {
        (editor_state, base, None)
    }
}

/// Whether the collectors produce in a frame: during play, and only where
/// every amount still fits its number type afterwards.
pub open spec fn frame_collects(
    state: GameState,
    held: Map<ResourceType, nat>,
    records: Seq<Option<BuildingRecord>>,
    input: FrameInput,
) -> bool {
    state == GameState::Playing && accrual_fits(held, records, input.elapsed as nat)
}

/// One step of the simulation, for one frame. First the click of the frame
/// is resolved and the selected building placed (in the level editor), then
/// the collectors produce for the time elapsed (during play). In the other
/// states nothing happens.
pub fn simulation_step(
    state: GameState,
    game: &mut Game,
    editor_state: &mut EditorState,
    input: FrameInput,
) -> (outcome: FrameOutcome)
    requires
        old(game).base.wf(),
    ensures
        final(game).base.wf(),
        *final(editor_state) == frame_placement(state, *old(editor_state), old(game).base@, input).0,
        final(game).base@ == frame_placement(state, *old(editor_state), old(game).base@, input).1,
        outcome.placed == frame_placement(state, *old(editor_state), old(game).base@, input).2,
        outcome.collected == frame_collects(
            state,
            old(game).resources@,
            final(game).base@.records,
            input,
        ),
        final(game).resources@ == (if outcome.collected {
            accrued(old(game).resources@, final(game).base@.records, input.elapsed as nat)
        } else {
            old(game).resources@
        }),
{
    let mut outcome = FrameOutcome { placed: None, collected: false };
    match state {
        GameState::LevelEditor => {
            if input.clicked {
                outcome.placed = place_editor_building(editor_state, &mut game.base, input.cell);
            }
        },
        GameState::Playing => {
            outcome.collected = try_collect_resources(&mut game.resources, &game.base, input.elapsed);
        },
        _ => {},
    }
    outcome
}

/// The amounts a game starts with: the same number of whole units of every
/// resource.
pub open spec fn starting_resources() -> Map<ResourceType, nat> {
    Map::total(|resource: ResourceType| (STARTING_UNITS * AMOUNT_PER_UNIT) as nat)
}

/// A new game: an empty base on the standard grid, and the starting amount
/// of every resource.
pub fn setup_game() -> (game: Game)
    ensures
        game.base.wf(),
        game.base@ == BaseView::empty(GRID_SIZE as nat, GRID_SIZE as nat),
        game.resources@ == starting_resources(),
{
    let base = Base::new(GRID_SIZE, GRID_SIZE);
    let mut resources = PlayerResources::new();
    resources.insert(ResourceType::Gold, STARTING_UNITS * AMOUNT_PER_UNIT);
    resources.insert(ResourceType::Elixir, STARTING_UNITS * AMOUNT_PER_UNIT);
    assert(resources@ =~= starting_resources());
    Game { base, resources }
}

/// The base after one round of the wall ring: a wall segment on the north,
/// south, west and east side, each `step` tiles along its side.
pub open spec fn with_wall_round(base: BaseView, step: usize) -> BaseView
    recommends
        step < 5,
{
    let north = base.place_building(BuildingType::Wall, 1, (44 + step) as usize, 60).0;
    let south = north.place_building(BuildingType::Wall, 1, (44 + step) as usize, 40).0;
    let west = south.place_building(BuildingType::Wall, 1, 40, (44 + step) as usize).0;
    west.place_building(BuildingType::Wall, 1, 60, (44 + step) as usize).0
}

/// The base after the first `rounds` rounds of the wall ring.
pub open spec fn with_wall_rounds(base: BaseView, rounds: nat) -> BaseView
    decreases rounds,
{
    if rounds == 0 {
        base
    } else {
        with_wall_round(with_wall_rounds(base, (rounds - 1) as nat), (rounds - 1) as usize)
    }
}

/// The base after the six buildings at its heart have been placed, in order:
/// town hall, the two collectors, the two storages, the defense tower.
pub open spec fn with_core_buildings(base: BaseView) -> BaseView {
    let hall = base.place_building(BuildingType::TownHall, 1, 45, 45).0;
    let gold = hall.place_building(BuildingType::Collector(ResourceType::Gold), 1, 40, 40).0;
    let elixir = gold.place_building(BuildingType::Collector(ResourceType::Elixir), 1, 50, 40).0;
    let gold_store = elixir.place_building(BuildingType::Storage(ResourceType::Gold), 1, 40, 50).0;
    let elixir_store = gold_store.place_building(
        BuildingType::Storage(ResourceType::Elixir),
        1,
        50,
        50,
    ).0;
    elixir_store.place_building(BuildingType::Defense, 1, 45, 55).0
}

/// The base after the scripted first buildings: the six core buildings, then
/// five rounds of the wall ring. A building whose place is taken is left out.
pub open spec fn with_initial_buildings(base: BaseView) -> BaseView {
    with_wall_rounds(with_core_buildings(base), 5)
}

/// Number of scripted first buildings.
pub const INITIAL_BUILDINGS: usize = 26;

/// Kind and anchor of the scripted first building that is placed in turn
/// `turn`, counting from 0.
pub open spec fn initial_placement(turn: int) -> (BuildingType, usize, usize) {
    if turn == 0 {
        (BuildingType::TownHall, 45, 45)
    } else if turn == 1 {
        (BuildingType::Collector(ResourceType::Gold), 40, 40)
    } else if turn == 2 {
        (BuildingType::Collector(ResourceType::Elixir), 50, 40)
    } else if turn == 3 {
        (BuildingType::Storage(ResourceType::Gold), 40, 50)
    } else if turn == 4 {
        (BuildingType::Storage(ResourceType::Elixir), 50, 50)
    } else if turn == 5 {
        (BuildingType::Defense, 45, 55)
    } else {
        let step = (turn - 6) / 4;
        let side = (turn - 6) % 4;
        if side == 0 {
            (BuildingType::Wall, (44 + step) as usize, 60)
        } else if side == 1 {
            (BuildingType::Wall, (44 + step) as usize, 40)
        } else if side == 2 {
            (BuildingType::Wall, 40, (44 + step) as usize)
        } else {
            (BuildingType::Wall, 60, (44 + step) as usize)
        }
    }
}

/// The record of the scripted first building of turn `turn` when every
/// building before it has found its place.
pub open spec fn initial_record(turn: int) -> BuildingRecord {
    record_for(
        Identity(turn as usize),
        initial_placement(turn).0,
        1,
        initial_placement(turn).1,
        initial_placement(turn).2,
    )
}

/// The first `count` scripted buildings stand on the standard grid, and
/// nothing else does.
pub open spec fn holds_initial_buildings(base: BaseView, count: int) -> bool {
    &&& base.wf()
    &&& base.grid.width == GRID_SIZE
    &&& base.grid.height == GRID_SIZE
    &&& base.records.len() == count
    &&& forall|turn: int| 0 <= turn < count ==> #[trigger] base.records[turn] == Some(
        initial_record(turn),
    )
}

/// The footprints of two different scripted buildings have no tile in
/// common, and each lies on the standard grid.
proof fn lemma_initial_placements_apart(earlier: int, later: int)
    requires
        0 <= earlier < later < INITIAL_BUILDINGS,
    ensures
        clear_of(
            initial_record(earlier),
            initial_placement(later).1 as int,
            initial_placement(later).2 as int,
            area(footprint(initial_placement(later).0)),
        ),
        initial_placement(later).1 + footprint(initial_placement(later).0).0 <= GRID_SIZE,
        initial_placement(later).2 + footprint(initial_placement(later).0).1 <= GRID_SIZE,
        initial_placement(earlier).1 + footprint(initial_placement(earlier).0).0 <= GRID_SIZE,
        initial_placement(earlier).2 + footprint(initial_placement(earlier).0).1 <= GRID_SIZE,
{
}

/// With the scripted buildings before it in place, the next one finds its
/// place too.
proof fn lemma_next_initial_building_placed(base: BaseView, turn: int)
    requires
        0 <= turn < INITIAL_BUILDINGS,
        holds_initial_buildings(base, turn),
    ensures
        holds_initial_buildings(
            base.place_building(
                initial_placement(turn).0,
                1,
                initial_placement(turn).1,
                initial_placement(turn).2,
            ).0,
            turn + 1,
        ),
{
    let (kind, x, y) = initial_placement(turn);
    let size = area(footprint(kind));
    if turn > 0 {
        lemma_initial_placements_apart(0, turn);
    } else {
        lemma_initial_placements_apart(0, 1);
    }
    assert forall|id: Identity| #[trigger] base.is_live(id) implies clear_of(
        base.record(id),
        x as int,
        y as int,
        size,
    ) by {
        assert(base.records[id.0 as int] == Some(initial_record(id.0 as int)));
        lemma_initial_placements_apart(id.0 as int, turn);
    }
    lemma_clear_footprint_can_be_placed(base, x as int, y as int, size);
    lemma_place_building_wf(base, kind, 1, x, y);
    let after = base.place_building(kind, 1, x, y).0;
    assert forall|at: int| 0 <= at < turn + 1 implies #[trigger] after.records[at] == Some(
        initial_record(at),
    ) by {
        if at < turn {
            assert(after.records[at] == base.records[at]);
        }
    }
}

/// After `rounds` rounds of the wall ring on top of the six core buildings,
/// every scripted building so far has found its place.
proof fn lemma_wall_rounds_placed(rounds: nat)
    requires
        rounds <= 5,
    ensures
        holds_initial_buildings(
            with_wall_rounds(
                with_core_buildings(BaseView::empty(GRID_SIZE as nat, GRID_SIZE as nat)),
                rounds,
            ),
            6 + 4 * rounds as int,
        ),
    decreases rounds,
{
    let empty = BaseView::empty(GRID_SIZE as nat, GRID_SIZE as nat);
    if rounds == 0 {
        let hall = empty.place_building(BuildingType::TownHall, 1, 45, 45).0;
        let gold = hall.place_building(BuildingType::Collector(ResourceType::Gold), 1, 40, 40).0;
        let elixir = gold.place_building(
            BuildingType::Collector(ResourceType::Elixir),
            1,
            50,
            40,
        ).0;
        let gold_store = elixir.place_building(
            BuildingType::Storage(ResourceType::Gold),
            1,
            40,
            50,
        ).0;
        let elixir_store = gold_store.place_building(
            BuildingType::Storage(ResourceType::Elixir),
            1,
            50,
            50,
        ).0;
        assert(holds_initial_buildings(empty, 0));
        lemma_next_initial_building_placed(empty, 0);
        lemma_next_initial_building_placed(hall, 1);
        lemma_next_initial_building_placed(gold, 2);
        lemma_next_initial_building_placed(elixir, 3);
        lemma_next_initial_building_placed(gold_store, 4);
        lemma_next_initial_building_placed(elixir_store, 5);
    } else {
        let step = (rounds - 1) as nat;
        let turn: int = 6 + 4 * step as int;
        let before = with_wall_rounds(with_core_buildings(empty), step);
        lemma_wall_rounds_placed(step);
        let north = before.place_building(BuildingType::Wall, 1, (44 + step) as usize, 60).0;
        let south = north.place_building(BuildingType::Wall, 1, (44 + step) as usize, 40).0;
        let west = south.place_building(BuildingType::Wall, 1, 40, (44 + step) as usize).0;
        assert(initial_placement(turn) == (BuildingType::Wall, (44 + step) as usize, 60usize));
        assert(initial_placement(turn + 1) == (BuildingType::Wall, (44 + step) as usize, 40usize));
        assert(initial_placement(turn + 2) == (BuildingType::Wall, 40usize, (44 + step) as usize));
        assert(initial_placement(turn + 3) == (BuildingType::Wall, 60usize, (44 + step) as usize));
        lemma_next_initial_building_placed(before, turn);
        lemma_next_initial_building_placed(north, turn + 1);
        lemma_next_initial_building_placed(south, turn + 2);
        lemma_next_initial_building_placed(west, turn + 3);
    }
}

/// On the empty standard grid every scripted first building finds its
/// place: afterwards all of them stand, in the order of their turns, and no
/// two of them share a tile.
pub proof fn lemma_initial_buildings_all_placed()
    ensures
        holds_initial_buildings(
            with_initial_buildings(BaseView::empty(GRID_SIZE as nat, GRID_SIZE as nat)),
            INITIAL_BUILDINGS as int,
        ),
{
    lemma_wall_rounds_placed(5);
}

/// Places the scripted first buildings of a game, all at level 1. Each goes
/// through the same occupancy check as any other placement.
pub fn spawn_initial_buildings(base: &mut Base)
    requires
        old(base).wf(),
    ensures
        final(base).wf(),
        final(base)@ == with_initial_buildings(old(base)@),
{
    town_hall(base, 1, 45, 45);
    gold_collector(base, 1, 40, 40);
    elixir_collector(base, 1, 50, 40);
    gold_storage(base, 1, 40, 50);
    elixir_storage(base, 1, 50, 50);
    defense_tower(base, 1, 45, 55);

    let mut step: usize = 0;
    while step < 5
        invariant
            step <= 5,
            base.wf(),
            base@ == with_wall_rounds(with_core_buildings(old(base)@), step as nat),
        decreases 5 - step,
    {
        wall(base, 1, 44 + step, 60);
        wall(base, 1, 44 + step, 40);
        wall(base, 1, 40, 44 + step);
        wall(base, 1, 60, 44 + step);
        step = step + 1;
    }
}

/// The grid after the footprint of each building in turn has been placed on
/// it under the building's handle; a footprint that cannot be placed is left
/// out.
pub open spec fn synchronized(grid: TileGrid, buildings: Seq<BuildingRecord>) -> TileGrid
    decreases buildings.len(),
{
    if buildings.len() == 0 {
        grid
    } else {
        let record = buildings.last();
        synchronized(grid, buildings.drop_last()).place(
            record.position.x as int,
            record.position.y as int,
            record.id,
            (record.size.width as int, record.size.height as int),
        )
    }
}

/// Enters buildings into an occupancy map, in the order given: each gets the
/// tiles of its footprint if they are all on the grid and free.
pub fn synchronize_buildings_with_map(tile_map: &mut TileMap, buildings: &Vec<BuildingRecord>)
    requires
        old(tile_map).wf(),
    ensures
        final(tile_map).wf(),
        final(tile_map)@ == synchronized(old(tile_map)@, buildings@),
{
    let mut idx: usize = 0;
    while idx < buildings.len()
        invariant
            idx <= buildings.len(),
            tile_map.wf(),
            tile_map@ == synchronized(old(tile_map)@, buildings@.take(idx as int)),
        decreases buildings.len() - idx,
    {
        let record = buildings[idx];
        proof {
            assert(buildings@.take(idx + 1).drop_last() =~= buildings@.take(idx as int));
        }
        tile_map.place(
            record.position.x,
            record.position.y,
            record.id,
            (record.size.width, record.size.height),
        );
        idx = idx + 1;
    }
    proof {
        assert(buildings@.take(idx as int) =~= buildings@);
    }
}

} // verus!
