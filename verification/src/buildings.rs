//! Building stats by level, and the base: the placed buildings together with
//! the tiles they occupy.

use crate::components::{
    Attributes, Building, BuildingRecord, BuildingType, Defense, GridPosition, GridSize, Identity,
    ResourceCollector, ResourceType, StatSet, Storage, TownHall, Wall,
};
use crate::constants::{
    COLLECTOR_HEALTH, COLLECTOR_RATE, COLLECTOR_SIZE, DEFENSE_DAMAGE, DEFENSE_HEALTH,
    DEFENSE_RANGE, DEFENSE_SIZE, DEFENSE_SPEED, STORAGE_CAPACITY, STORAGE_HEALTH, STORAGE_SIZE,
    TOWNHALL_HEALTH, TOWNHALL_SIZE, WALL_HEALTH, WALL_SIZE,
};
use crate::tile_map::{covers, TileGrid, TileMap};
use vstd::prelude::*;

verus! {

/// Position in the stat tables of a level: levels up to 1 use the first
/// entry, levels from 10 on the last.
pub open spec fn level_index(level: u32) -> int {
    if level <= 1 {
        0
    } else if level >= 10 {
        9
    } else {
        level - 1
    }
}

/// The level a building gets when `level` is asked for: `level` brought into
/// the range 1 to 10.
pub open spec fn clamped_level(level: u32) -> u32 {
    (level_index(level) + 1) as u32
}

/// The stats of a building kind at a level, read from the stat tables.
pub open spec fn stats_for_spec(kind: BuildingType, level: u32) -> StatSet {
    let idx = level_index(level);
    match kind {
        BuildingType::TownHall => StatSet {
            health: TOWNHALL_HEALTH[idx],
            attributes: Attributes::TownHall(TownHall),
        },
        BuildingType::Collector(resource_type) => StatSet {
            health: COLLECTOR_HEALTH[idx],
            attributes: Attributes::Collector(
                ResourceCollector { resource_type, production_rate: COLLECTOR_RATE[idx] },
            ),
        },
        BuildingType::Storage(resource_type) => StatSet {
            health: STORAGE_HEALTH[idx],
            attributes: Attributes::Storage(
                Storage { resource_type, capacity: STORAGE_CAPACITY[idx] },
            ),
        },
        BuildingType::Defense => StatSet {
            health: DEFENSE_HEALTH[idx],
            attributes: Attributes::Defense(
                Defense {
                    attack_damage: DEFENSE_DAMAGE[idx],
                    attack_range: DEFENSE_RANGE[idx],
                    attack_speed: DEFENSE_SPEED[idx],
                },
            ),
        },
        BuildingType::Wall => StatSet {
            health: WALL_HEALTH[idx],
            attributes: Attributes::Wall(Wall { durability: WALL_HEALTH[idx] }),
        },
    }
}

/// The footprint of a building kind, as (width, height) in tiles.
pub open spec fn footprint(kind: BuildingType) -> (usize, usize) {
    match kind {
        BuildingType::Defense => DEFENSE_SIZE,
        BuildingType::Collector(_) => COLLECTOR_SIZE,
        BuildingType::Storage(_) => STORAGE_SIZE,
        BuildingType::Wall => WALL_SIZE,
        BuildingType::TownHall => TOWNHALL_SIZE,
    }
}

/// A footprint as a pair of mathematical integers.
pub open spec fn area(size: (usize, usize)) -> (int, int) {
    (size.0 as int, size.1 as int)
}

/// The record of a building of `kind` placed at `(x, y)` under handle `id`:
/// its level is `level` brought into range, it is at full health, and its
/// stats and footprint are those of its kind.
pub open spec fn record_for(
    id: Identity,
    kind: BuildingType,
    level: u32,
    x: usize,
    y: usize,
) -> BuildingRecord {
    let stats = stats_for_spec(kind, level);
    BuildingRecord {
        id,
        kind,
        building: Building {
            level: clamped_level(level),
            health: stats.health,
            max_health: stats.health,
        },
        position: GridPosition { x, y },
        size: GridSize { width: footprint(kind).0, height: footprint(kind).1 },
        attributes: stats.attributes,
    }
}

/// Table position of a level; never fails, out-of-range levels use the
/// nearest entry.
pub fn validate_level(level: u32) -> (idx: usize)
    ensures
        idx == level_index(level),
        idx < 10,
{
    if level <= 1 {
        0
    } else if level >= 10 {
        9
    } else {
        (level - 1) as usize
    }
}

/// The stats of a building kind at a level. Levels below 1 count as 1 and
/// levels above 10 as 10.
pub fn stats_for(kind: BuildingType, level: u32) -> (stats: StatSet)
    ensures
        stats == stats_for_spec(kind, level),
{
    let idx: usize = validate_level(level);
    match kind {
        BuildingType::TownHall => StatSet {
            health: TOWNHALL_HEALTH[idx],
            attributes: Attributes::TownHall(TownHall),
        },
        BuildingType::Collector(resource_type) => StatSet {
            health: COLLECTOR_HEALTH[idx],
            attributes: Attributes::Collector(
                ResourceCollector::new(resource_type, COLLECTOR_RATE[idx]),
            ),
        },
        BuildingType::Storage(resource_type) => StatSet {
            health: STORAGE_HEALTH[idx],
            attributes: Attributes::Storage(Storage::new(resource_type, STORAGE_CAPACITY[idx])),
        },
        BuildingType::Defense => StatSet {
            health: DEFENSE_HEALTH[idx],
            attributes: Attributes::Defense(
                Defense::new(DEFENSE_DAMAGE[idx], DEFENSE_RANGE[idx], DEFENSE_SPEED[idx]),
            ),
        },
        BuildingType::Wall => {
            let health: u32 = WALL_HEALTH[idx];
            StatSet { health, attributes: Attributes::Wall(Wall::new(health)) }
        },
    }
}

/// The footprint of a building kind, as (width, height) in tiles.
pub fn to_size(building_type: BuildingType) -> (size: (usize, usize))
    ensures
        size == footprint(building_type),
{
    match building_type {
        BuildingType::Defense => DEFENSE_SIZE,
        BuildingType::Collector(_) => COLLECTOR_SIZE,
        BuildingType::Storage(_) => STORAGE_SIZE,
        BuildingType::Wall => WALL_SIZE,
        BuildingType::TownHall => TOWNHALL_SIZE,
    }
}

impl BuildingRecord {
    /// The record of a new building; see [`record_for`].
    pub fn new(id: Identity, kind: BuildingType, level: u32, x: usize, y: usize) -> (record: Self)
        ensures
            record == record_for(id, kind, level, x, y),
    {
        let stats = stats_for(kind, level);
        let size = to_size(kind);
        let (position, size) = GridPosition::new_full(x, y, size.0, size.1);
        let level: u32 = (validate_level(level) + 1) as u32;
        BuildingRecord {
            id,
            kind,
            building: Building::new_with_level(level, stats.health),
            position,
            size,
            attributes: stats.attributes,
        }
    }

    /// The record is what its kind's stats and footprint allow: a level from
    /// 1 to 10, the maximum health, attributes and footprint of its kind at
    /// that level, and no more health than the maximum.
    pub open spec fn wf(self) -> bool {
        let stats = stats_for_spec(self.kind, self.building.level);
        &&& 1 <= self.building.level <= 10
        &&& self.building.max_health == stats.health
        &&& self.building.health <= self.building.max_health
        &&& self.attributes == stats.attributes
        &&& self.size.width == footprint(self.kind).0
        &&& self.size.height == footprint(self.kind).1
    }

    /// Whether the building's footprint covers tile `(cx, cy)`.
    pub open spec fn covers(self, cx: int, cy: int) -> bool {
        covers(
            self.position.x as int,
            self.position.y as int,
            (self.size.width as int, self.size.height as int),
            cx,
            cy,
        )
    }
}

/// The mathematical content of a [`Base`]: the occupancy grid, and one slot
/// per handle ever handed out, holding the building's record while it stands.
pub struct BaseView {
    pub grid: TileGrid,
    pub records: Seq<Option<BuildingRecord>>,
}

impl BaseView {
    /// An empty base on a grid of the given dimensions.
    pub open spec fn empty(width: nat, height: nat) -> BaseView {
        BaseView { grid: TileGrid::empty(width, height), records: Seq::empty() }
    }

    /// Whether a building stands under this handle.
    pub open spec fn is_live(self, id: Identity) -> bool {
        id.0 < self.records.len() && self.records[id.0 as int] is Some
    }

    /// The record of a standing building.
    pub open spec fn record(self, id: Identity) -> BuildingRecord
        recommends
            self.is_live(id),
    {
        self.records[id.0 as int]->0
    }

    /// The building holds every tile of its footprint.
    pub open spec fn owns_footprint(self, record: BuildingRecord) -> bool {
        forall|cx: int, cy: int| #[trigger]
            record.covers(cx, cy) ==> self.grid.entity_at(cx, cy) == Some(record.id)
    }

    /// Registry and grid agree: a tile is occupied exactly by the standing
    /// building whose footprint covers it, every footprint lies on the grid,
    /// and every record is well-formed.
    pub open spec fn wf(self) -> bool {
        &&& self.grid.wf()
        &&& self.records.len() <= usize::MAX
        &&& forall|c: (int, int)| #[trigger]
            self.grid.occupants.contains_key(c) ==> {
                &&& self.is_live(self.grid.occupants[c])
                &&& self.record(self.grid.occupants[c]).covers(c.0, c.1)
            }
        &&& forall|id: Identity| #[trigger]
            self.is_live(id) ==> {
                &&& self.record(id).id == id
                &&& self.record(id).wf()
                &&& self.grid.fits(
                    self.record(id).position.x as int,
                    self.record(id).position.y as int,
                    (self.record(id).size.width as int, self.record(id).size.height as int),
                )
                &&& self.owns_footprint(self.record(id))
            }
    }

    /// What [`place_building`] makes of the base, and the handle it returns:
    /// where the footprint of `kind` can be placed at `(x, y)`, a new record
    /// under the next unused handle and its footprint on the grid; otherwise
    /// no change and no handle.
    pub open spec fn place_building(
        self,
        kind: BuildingType,
        level: u32,
        x: usize,
        y: usize,
    ) -> (BaseView, Option<Identity>) {
        if self.grid.can_place(x as int, y as int, area(footprint(kind))) {
            let id = Identity(self.records.len() as usize);
            (
                BaseView {
                    grid: self.grid.placed(x as int, y as int, id, area(footprint(kind))),
                    records: self.records.push(Some(record_for(id, kind, level, x, y))),
                },
                Some(id),
            )
        } else {
            (self, None)
        }
    }

    /// What [`remove_building`] makes of the base, and the record it returns:
    /// where a building stands under `id`, its slot emptied and its tiles
    /// freed; otherwise no change and no record.
    pub open spec fn remove_building(self, id: Identity) -> (BaseView, Option<BuildingRecord>) {
        if self.is_live(id) {
            (
                BaseView {
                    grid: self.grid.removed(id),
                    records: self.records.update(id.0 as int, None),
                },
                Some(self.record(id)),
            )
        } else {
            (self, None)
        }
    }
}

/// The records made by [`record_for`] are well-formed.
pub proof fn lemma_record_for_wf(id: Identity, kind: BuildingType, level: u32, x: usize, y: usize)
    ensures
        record_for(id, kind, level, x, y).wf(),
        record_for(id, kind, level, x, y).id == id,
{
    assert(level_index(clamped_level(level)) == level_index(level));
}

/// Placing on a well-formed base with room for one more handle gives a
/// well-formed base.
pub proof fn lemma_place_building_wf(
    base: BaseView,
    kind: BuildingType,
    level: u32,
    x: usize,
    y: usize,
)
    requires
        base.wf(),
        base.records.len() < usize::MAX,
    ensures
        base.place_building(kind, level, x, y).0.wf(),
{
    let size = area(footprint(kind));
    if base.grid.can_place(x as int, y as int, size) {
        let id = Identity(base.records.len() as usize);
        let record = record_for(id, kind, level, x, y);
        let after = base.place_building(kind, level, x, y).0;
        lemma_record_for_wf(id, kind, level, x, y);
        assert forall|c: (int, int)| #[trigger]
            after.grid.occupants.contains_key(c) implies after.grid.in_bounds(c.0, c.1)
            && after.is_live(after.grid.occupants[c]) && after.record(
            after.grid.occupants[c],
        ).covers(c.0, c.1) by {
            if covers(x as int, y as int, size, c.0, c.1) {
                assert(after.grid.occupants[c] == id);
                assert(after.record(id) == record);
            } else {
                assert(base.grid.occupants.contains_key(c));
                let owner = base.grid.occupants[c];
                assert(base.is_live(owner));
                assert(after.record(owner) == base.record(owner));
            }
        }
        assert forall|other: Identity| #[trigger] after.is_live(other) implies {
            &&& after.record(other).id == other
            &&& after.record(other).wf()
            &&& after.grid.fits(
                after.record(other).position.x as int,
                after.record(other).position.y as int,
                (after.record(other).size.width as int, after.record(other).size.height as int),
            )
            &&& after.owns_footprint(after.record(other))
        } by {
            if other == id {
                assert(after.record(other) == record);
                assert forall|cx: int, cy: int| #[trigger]
                    record.covers(cx, cy) implies after.grid.entity_at(cx, cy) == Some(id) by {
                    assert(after.grid.occupants.contains_key((cx, cy)));
                }
            } else {
                assert(base.is_live(other));
                let kept = base.record(other);
                assert(after.record(other) == kept);
                assert(base.owns_footprint(kept));
                assert forall|cx: int, cy: int| #[trigger]
                    kept.covers(cx, cy) implies after.grid.entity_at(cx, cy) == Some(other) by {
                    assert(base.grid.entity_at(cx, cy) == Some(other));
                    assert(base.grid.occupants.contains_key((cx, cy)));
                    assert(!covers(x as int, y as int, size, cx, cy));
                    assert(after.grid.occupants.contains_key((cx, cy)));
                }
            }
        }
    }
}

/// Removing from a well-formed base gives a well-formed base.
pub proof fn lemma_remove_building_wf(base: BaseView, id: Identity)
    requires
        base.wf(),
    ensures
        base.remove_building(id).0.wf(),
{
    if base.is_live(id) {
        let after = base.remove_building(id).0;
        assert forall|c: (int, int)| #[trigger]
            after.grid.occupants.contains_key(c) implies after.grid.in_bounds(c.0, c.1)
            && after.is_live(after.grid.occupants[c]) && after.record(
            after.grid.occupants[c],
        ).covers(c.0, c.1) by {
            assert(base.grid.occupants.contains_key(c));
            let owner = base.grid.occupants[c];
            assert(owner != id);
            assert(base.is_live(owner));
            assert(base.record(owner).id == owner);
            assert(owner.0 != id.0);
            assert(after.record(owner) == base.record(owner));
        }
        assert forall|other: Identity| #[trigger] after.is_live(other) implies {
            &&& after.record(other).id == other
            &&& after.record(other).wf()
            &&& after.grid.fits(
                after.record(other).position.x as int,
                after.record(other).position.y as int,
                (after.record(other).size.width as int, after.record(other).size.height as int),
            )
            &&& after.owns_footprint(after.record(other))
        } by {
            assert(other.0 != id.0);
            assert(base.is_live(other));
            let kept = base.record(other);
            assert(after.record(other) == kept);
            assert(base.owns_footprint(kept));
            assert forall|cx: int, cy: int| #[trigger]
                kept.covers(cx, cy) implies after.grid.entity_at(cx, cy) == Some(other) by {
                assert(base.grid.entity_at(cx, cy) == Some(other));
                assert(base.grid.occupants.contains_key((cx, cy)));
                assert(after.grid.occupants.contains_key((cx, cy)));
            }
        }
    }
}

/// Levels outside 1 to 10 have the stats of the nearest level inside: level 0
/// those of level 1, level 11 those of level 10.
pub proof fn lemma_stats_for_clamps(kind: BuildingType, level: u32)
    ensures
        stats_for_spec(kind, level) == stats_for_spec(kind, clamped_level(level)),
        level <= 1 ==> stats_for_spec(kind, level) == stats_for_spec(kind, 1),
        level >= 10 ==> stats_for_spec(kind, level) == stats_for_spec(kind, 10),
        stats_for_spec(kind, 0) == stats_for_spec(kind, 1),
        stats_for_spec(kind, 11) == stats_for_spec(kind, 10),
{
    assert(level_index(clamped_level(level)) == level_index(level));
}

/// The production rate, capacity, damage, range or attack speed that a set
/// of attributes carries, whichever `pick` asks for; nothing where the
/// attributes are of another kind.
pub open spec fn attribute_value(attributes: Attributes, pick: int) -> int {
    match attributes {
        Attributes::TownHall(_) => 0,
        Attributes::Collector(collector) => collector.production_rate as int,
        Attributes::Storage(storage) => storage.capacity as int,
        Attributes::Defense(defense) => if pick == 0 {
            defense.attack_damage as int
        } else if pick == 1 {
            defense.attack_range as int
        } else {
            defense.attack_speed as int
        },
        Attributes::Wall(wall) => wall.durability as int,
    }
}

/// No stat of any building kind gets worse with a higher level.
pub proof fn lemma_stats_never_decrease(kind: BuildingType, lower: u32, higher: u32, pick: int)
    requires
        lower <= higher,
    ensures
        stats_for_spec(kind, lower).health <= stats_for_spec(kind, higher).health,
        attribute_value(stats_for_spec(kind, lower).attributes, pick) <= attribute_value(
            stats_for_spec(kind, higher).attributes,
            pick,
        ),
{
}

/// Where a building can be placed, placing it succeeds; afterwards the same
/// footprint can no longer be placed at the same anchor, and every tile of
/// the footprint reports the new building.
pub proof fn lemma_placement_claims_footprint(
    base: BaseView,
    kind: BuildingType,
    level: u32,
    x: usize,
    y: usize,
)
    requires
        base.grid.can_place(x as int, y as int, area(footprint(kind))),
    ensures
        ({
            let (after, placed) = base.place_building(kind, level, x, y);
            &&& placed is Some
            &&& !after.grid.can_place(x as int, y as int, area(footprint(kind)))
            &&& forall|cx: int, cy: int| #[trigger]
                covers(x as int, y as int, area(footprint(kind)), cx, cy) ==> after.grid.entity_at(
                    cx,
                    cy,
                ) == placed
        }),
{
    let size = area(footprint(kind));
    let (after, placed) = base.place_building(kind, level, x, y);
    assert(covers(x as int, y as int, size, x as int, y as int));
    assert(after.grid.occupants.contains_key((x as int, y as int)));
    assert forall|cx: int, cy: int| #[trigger]
        covers(x as int, y as int, size, cx, cy) implies after.grid.entity_at(cx, cy)
        == placed by {
        assert(after.grid.occupants.contains_key((cx, cy)));
    }
}

/// Placing twice at the same location: the second call is rejected and
/// changes nothing, so the tiles stay with the one building the first call
/// placed, if it placed one. After a successful placement a building of any
/// other kind is rejected at that anchor too.
pub proof fn lemma_second_placement_rejected(
    base: BaseView,
    kind: BuildingType,
    level: u32,
    x: usize,
    y: usize,
    other_kind: BuildingType,
    other_level: u32,
)
    ensures
        ({
            let (first, placed) = base.place_building(kind, level, x, y);
            let (second, again) = first.place_building(kind, level, x, y);
            &&& again is None
            &&& second == first
            &&& placed is Some ==> first.place_building(other_kind, other_level, x, y) == (
                first,
                None::<Identity>,
            )
            &&& placed is Some ==> forall|cx: int, cy: int| #[trigger]
                covers(x as int, y as int, area(footprint(kind)), cx, cy)
                    ==> second.grid.entity_at(cx, cy) == placed
        }),
{
    let size = area(footprint(kind));
    let (first, placed) = base.place_building(kind, level, x, y);
    if placed is Some {
        lemma_placement_claims_footprint(base, kind, level, x, y);
        assert(covers(x as int, y as int, size, x as int, y as int));
        assert(first.grid.occupants.contains_key((x as int, y as int)));
        assert(covers(x as int, y as int, area(footprint(other_kind)), x as int, y as int));
    }
}

/// No two standing buildings share a tile.
pub proof fn lemma_no_shared_tile(base: BaseView, a: Identity, b: Identity, cx: int, cy: int)
    requires
        base.wf(),
        base.is_live(a),
        base.is_live(b),
        base.record(a).covers(cx, cy),
        base.record(b).covers(cx, cy),
    ensures
        a == b,
{
    assert(base.owns_footprint(base.record(a)));
    assert(base.owns_footprint(base.record(b)));
    assert(base.grid.entity_at(cx, cy) == Some(a));
    assert(base.grid.entity_at(cx, cy) == Some(b));
}

/// A tile is occupied exactly when the footprint of a standing building
/// covers it, and it is then occupied by that building.
pub proof fn lemma_occupied_iff_covered(base: BaseView, cx: int, cy: int)
    requires
        base.wf(),
    ensures
        base.grid.occupants.contains_key((cx, cy)) <==> exists|id: Identity|
            base.is_live(id) && #[trigger] base.record(id).covers(cx, cy),
        forall|id: Identity|
            base.is_live(id) && #[trigger] base.record(id).covers(cx, cy) ==> base.grid.entity_at(
                cx,
                cy,
            ) == Some(id),
{
    if base.grid.occupants.contains_key((cx, cy)) {
        let owner = base.grid.occupants[(cx, cy)];
        assert(base.is_live(owner) && base.record(owner).covers(cx, cy));
    }
    assert forall|id: Identity|
        base.is_live(id) && #[trigger] base.record(id).covers(cx, cy) implies base.grid.entity_at(
        cx,
        cy,
    ) == Some(id) by {
        assert(base.owns_footprint(base.record(id)));
    }
}

/// Whether the footprint `size` anchored at `(x, y)` and the footprint of a
/// building have no tile in common.
pub open spec fn clear_of(record: BuildingRecord, x: int, y: int, size: (int, int)) -> bool {
    ||| x + size.0 <= record.position.x
    ||| record.position.x + record.size.width <= x
    ||| y + size.1 <= record.position.y
    ||| record.position.y + record.size.height <= y
}

/// A footprint that lies on the grid and is clear of every standing building
/// can be placed.
pub proof fn lemma_clear_footprint_can_be_placed(base: BaseView, x: int, y: int, size: (int, int))
    requires
        base.wf(),
        base.grid.fits(x, y, size),
        forall|id: Identity| #[trigger] base.is_live(id) ==> clear_of(base.record(id), x, y, size),
    ensures
        base.grid.can_place(x, y, size),
{
    assert forall|cx: int, cy: int| covers(x, y, size, cx, cy) implies !#[trigger]
        base.grid.occupants.contains_key((cx, cy)) by {
        if base.grid.occupants.contains_key((cx, cy)) {
            let owner = base.grid.occupants[(cx, cy)];
            assert(base.is_live(owner));
            assert(base.record(owner).covers(cx, cy));
            assert(clear_of(base.record(owner), x, y, size));
        }
    }
}

/// Placing a building and then removing it leaves the occupancy grid exactly
/// as it was before the placement, and hands back the record that was made.
pub proof fn lemma_place_then_remove_restores_grid(
    base: BaseView,
    kind: BuildingType,
    level: u32,
    x: usize,
    y: usize,
)
    requires
        base.wf(),
    ensures
        ({
            let (after, placed) = base.place_building(kind, level, x, y);
            placed matches Some(id) ==> {
                &&& after.remove_building(id).0.grid == base.grid
                &&& after.remove_building(id).1 == Some(record_for(id, kind, level, x, y))
            }
        }),
{
    let size = area(footprint(kind));
    let (after, placed) = base.place_building(kind, level, x, y);
    if let Some(id) = placed {
        let restored = after.remove_building(id).0.grid;
        assert(after.is_live(id));
        assert forall|c: (int, int)|
            restored.occupants.contains_key(c) <==> base.grid.occupants.contains_key(c) by {
            if base.grid.occupants.contains_key(c) {
                assert(base.is_live(base.grid.occupants[c]));
                assert(!covers(x as int, y as int, size, c.0, c.1));
                assert(after.grid.occupants.contains_key(c));
            }
        }
        assert(restored.occupants =~= base.grid.occupants);
    }
}

/// A base: the buildings placed so far and the tiles they occupy, kept in
/// step with each other.
#[derive(Debug, Clone, PartialEq, Eq)]
pub struct Base {
    map: TileMap,
    records: Vec<Option<BuildingRecord>>,
}

impl View for Base {
    type V = BaseView;

    closed spec fn view(&self) -> BaseView {
        BaseView { grid: self.map@, records: self.records@ }
    }
}

impl Base {
    /// The map holds one entry per tile, and registry and grid agree.
    pub closed spec fn wf(&self) -> bool {
        self.map.wf() && self@.wf()
    }

    /// The content of a well-formed base is well-formed.
    pub proof fn lemma_view_wf(&self)
        requires
            self.wf(),
        ensures
            self@.wf(),
    {
    }

    /// An empty base on a grid of `width` by `height` tiles.
    pub fn new(width: usize, height: usize) -> (base: Self)
        requires
            width * height <= usize::MAX,
        ensures
            base.wf(),
            base@ == BaseView::empty(width as nat, height as nat),
    {
        Base { map: TileMap::new(width, height), records: Vec::new() }
    }

    /// The occupancy map, for reading.
    pub fn map(&self) -> (map: &TileMap)
        requires
            self.wf(),
        ensures
            map.wf(),
            map@ == self@.grid,
    {
        &self.map
    }

    /// One slot per handle handed out so far, in order of the handles.
    pub fn records(&self) -> (records: &Vec<Option<BuildingRecord>>)
        ensures
            records@ == self@.records,
    {
        &self.records
    }

    /// The record of the building under `id`, if one stands there.
    pub fn get(&self, id: Identity) -> (record: Option<BuildingRecord>)
        ensures
            record == (if self@.is_live(id) {
                Some(self@.record(id))
            } else {
                None
            }),
    {
        if id.0 < self.records.len() {
            self.records[id.0]
        } else {
            None
        }
    }

    /// Whether a building of this kind could be placed at `(x, y)` now.
    /// Reads only.
    pub fn can_place(&self, building_type: BuildingType, x: usize, y: usize) -> (free: bool)
        requires
            self.wf(),
        ensures
            free == self@.grid.can_place(x as int, y as int, area(footprint(building_type))),
            free == self@.place_building(building_type, 1, x, y).1.is_some(),
    {
        self.map.can_place(x, y, to_size(building_type))
    }
}

/// Places a building of the given kind and level with its anchor at
/// `(x, y)`. Where its footprint lies on the grid and touches no other
/// building, the building is recorded, its tiles are reserved, and its new
/// handle is returned. Otherwise nothing changes and `None` is returned.
pub fn place_building(
    base: &mut Base,
    building_type: BuildingType,
    level: u32,
    x: usize,
    y: usize,
) -> (placed: Option<Identity>)
    requires
        old(base).wf(),
    ensures
        final(base).wf(),
        final(base)@ == old(base)@.place_building(building_type, level, x, y).0,
        placed == old(base)@.place_building(building_type, level, x, y).1,
        placed.is_some() == old(base)@.grid.can_place(
            x as int,
            y as int,
            area(footprint(building_type)),
        ),
{
    let size = to_size(building_type);
    if !base.map.can_place(x, y, size) {
        return None;
    }
    let id = Identity(base.records.len());
    let record = BuildingRecord::new(id, building_type, level, x, y);
    base.records.push(Some(record));
    base.map.place(x, y, id, size);
    proof {
        assert(old(base)@.records.len() + 1 == base.records.len() <= usize::MAX);
        lemma_place_building_wf(old(base)@, building_type, level, x, y);
    }
    Some(id)
}

/// Removes the building under `id`: its record leaves the registry and its
/// tiles are freed. Returns the record, or `None` (and changes nothing) when
/// no building stands under `id`.
pub fn remove_building(base: &mut Base, id: Identity) -> (removed: Option<BuildingRecord>)
    requires
        old(base).wf(),
    ensures
        final(base).wf(),
        final(base)@ == old(base)@.remove_building(id).0,
        removed == old(base)@.remove_building(id).1,
{
    if id.0 >= base.records.len() {
        return None;
    }
    let removed = base.records[id.0];
    if removed.is_none() {
        return None;
    }
    base.records[id.0] = None;
    base.map.remove(id);
    proof {
        lemma_remove_building_wf(old(base)@, id);
    }
    removed
}

/// Places a town hall; see [`place_building`].
pub fn town_hall(base: &mut Base, level: u32, x: usize, y: usize) -> (placed: Option<Identity>)
    requires
        old(base).wf(),
    ensures
        final(base).wf(),
        final(base)@ == old(base)@.place_building(BuildingType::TownHall, level, x, y).0,
        placed == old(base)@.place_building(BuildingType::TownHall, level, x, y).1,
{
    place_building(base, BuildingType::TownHall, level, x, y)
}

/// Places a gold collector; see [`place_building`].
pub fn gold_collector(base: &mut Base, level: u32, x: usize, y: usize) -> (placed: Option<
    Identity,
>)
    requires
        old(base).wf(),
    ensures
        final(base).wf(),
        final(base)@ == old(base)@.place_building(
            BuildingType::Collector(ResourceType::Gold),
            level,
            x,
            y,
        ).0,
        placed == old(base)@.place_building(
            BuildingType::Collector(ResourceType::Gold),
            level,
            x,
            y,
        ).1,
{
    place_building(base, BuildingType::Collector(ResourceType::Gold), level, x, y)
}

/// Places an elixir collector; see [`place_building`].
pub fn elixir_collector(base: &mut Base, level: u32, x: usize, y: usize) -> (placed: Option<
    Identity,
>)
    requires
        old(base).wf(),
    ensures
        final(base).wf(),
        final(base)@ == old(base)@.place_building(
            BuildingType::Collector(ResourceType::Elixir),
            level,
            x,
            y,
        ).0,
        placed == old(base)@.place_building(
            BuildingType::Collector(ResourceType::Elixir),
            level,
            x,
            y,
        ).1,
{
    place_building(base, BuildingType::Collector(ResourceType::Elixir), level, x, y)
}

/// Places a gold storage; see [`place_building`].
pub fn gold_storage(base: &mut Base, level: u32, x: usize, y: usize) -> (placed: Option<Identity>)
    requires
        old(base).wf(),
    ensures
        final(base).wf(),
        final(base)@ == old(base)@.place_building(
            BuildingType::Storage(ResourceType::Gold),
            level,
            x,
            y,
        ).0,
        placed == old(base)@.place_building(
            BuildingType::Storage(ResourceType::Gold),
            level,
            x,
            y,
        ).1,
{
    place_building(base, BuildingType::Storage(ResourceType::Gold), level, x, y)
}

/// Places an elixir storage; see [`place_building`].
pub fn elixir_storage(base: &mut Base, level: u32, x: usize, y: usize) -> (placed: Option<
    Identity,
>)
    requires
        old(base).wf(),
    ensures
        final(base).wf(),
        final(base)@ == old(base)@.place_building(
            BuildingType::Storage(ResourceType::Elixir),
            level,
            x,
            y,
        ).0,
        placed == old(base)@.place_building(
            BuildingType::Storage(ResourceType::Elixir),
            level,
            x,
            y,
        ).1,
{
    place_building(base, BuildingType::Storage(ResourceType::Elixir), level, x, y)
}

/// Places a defense tower; see [`place_building`].
pub fn defense_tower(base: &mut Base, level: u32, x: usize, y: usize) -> (placed: Option<
    Identity,
>)
    requires
        old(base).wf(),
    ensures
        final(base).wf(),
        final(base)@ == old(base)@.place_building(BuildingType::Defense, level, x, y).0,
        placed == old(base)@.place_building(BuildingType::Defense, level, x, y).1,
{
    place_building(base, BuildingType::Defense, level, x, y)
}

/// Places a wall segment; see [`place_building`].
pub fn wall(base: &mut Base, level: u32, x: usize, y: usize) -> (placed: Option<Identity>)
    requires
        old(base).wf(),
    ensures
        final(base).wf(),
        final(base)@ == old(base)@.place_building(BuildingType::Wall, level, x, y).0,
        placed == old(base)@.place_building(BuildingType::Wall, level, x, y).1,
{
    place_building(base, BuildingType::Wall, level, x, y)
}

} // verus!
