//! The data a base is made of: building kinds, the parts a building is
//! composed of, and the record kept for each placed building.

use vstd::prelude::*;

verus! {

/// The resources a player can hold.
#[derive(Debug, Copy, Clone, PartialEq, Eq, Hash, Structural)]
pub enum ResourceType {
    Gold,
    Elixir,
}

/// The kinds of building that can be placed.
#[derive(Debug, Clone, Copy, Hash, PartialEq, Eq, Structural)]
pub enum BuildingType {
    TownHall,
    Collector(ResourceType),
    Storage(ResourceType),
    Defense,
    Wall,
}

/// Handle of a placed building. It is handed out on placement and never
/// reused, also not after the building is removed.
#[derive(Debug, Clone, Copy, Hash, PartialEq, Eq, Structural)]
pub struct Identity(pub usize);

/// The anchor of a building: the tile with the lowest x and y it covers.
#[derive(Debug, Clone, Copy, PartialEq, Eq, Structural)]
pub struct GridPosition {
    pub x: usize,
    pub y: usize,
}

impl GridPosition {
    /// Anchor and footprint of a building, made together.
    pub fn new_full(x: usize, y: usize, width: usize, height: usize) -> (made: (Self, GridSize))
        ensures
            made.0 == (GridPosition { x, y }),
            made.1 == (GridSize { width, height }),
    {
        (Self { x, y }, GridSize { width, height })
    }
}

/// Footprint of a building, in tiles.
#[derive(Debug, Clone, Copy, PartialEq, Eq, Structural)]
pub struct GridSize {
    pub width: usize,
    pub height: usize,
}

/// What a town hall has beyond the common parts: nothing.
#[derive(Debug, Clone, Copy, PartialEq, Eq, Structural)]
pub struct TownHall;

/// A collector produces `production_rate` units of its resource per second.
#[derive(Debug, Clone, Copy, PartialEq, Eq, Structural)]
pub struct ResourceCollector {
    pub resource_type: ResourceType,
    pub production_rate: u32,
}

impl ResourceCollector {
    pub fn new(resource_type: ResourceType, production_rate: u32) -> (made: Self)
        ensures
            made == (ResourceCollector { resource_type, production_rate }),
    {
        ResourceCollector { resource_type, production_rate }
    }
}

/// A storage declares how many units of its resource it can hold.
#[derive(Debug, Clone, Copy, PartialEq, Eq, Structural)]
pub struct Storage {
    pub resource_type: ResourceType,
    pub capacity: u32,
}

impl Storage {
    pub fn new(resource_type: ResourceType, capacity: u32) -> (made: Self)
        ensures
            made == (Storage { resource_type, capacity }),
    {
        Storage { resource_type, capacity }
    }
}

/// A defense tower. Range is in tenths of a tile, speed in tenths of an
/// attack per second.
#[derive(Debug, Clone, Copy, PartialEq, Eq, Structural)]
pub struct Defense {
    pub attack_damage: u32,
    pub attack_range: u32,
    pub attack_speed: u32,
}

impl Defense {
    pub fn new(attack_damage: u32, attack_range: u32, attack_speed: u32) -> (made: Self)
        ensures
            made == (Defense { attack_damage, attack_range, attack_speed }),
    {
        Defense { attack_damage, attack_range, attack_speed }
    }
}

/// A wall; its durability mirrors its health.
#[derive(Debug, Clone, Copy, PartialEq, Eq, Structural)]
pub struct Wall {
    pub durability: u32,
}

impl Wall {
    pub fn new(durability: u32) -> (made: Self)
        ensures
            made == (Wall { durability }),
    {
        Wall { durability }
    }
}

/// The parts every building has.
#[derive(Debug, Clone, Copy, PartialEq, Eq, Structural)]
pub struct Building {
    pub level: u32,
    pub health: u32,
    pub max_health: u32,
}

impl Building {
    /// A level 1 building at full health.
    pub fn new(health: u32) -> (made: Self)
        ensures
            made == (Building { level: 1, health, max_health: health }),
    {
        Building { level: 1, health, max_health: health }
    }

    /// A building of the given level at full health.
    pub fn new_with_level(level: u32, health: u32) -> (made: Self)
        ensures
            made == (Building { level, health, max_health: health }),
    {
        Building { level, health, max_health: health }
    }
}

/// What a building has beyond the common parts, by kind.
#[derive(Debug, Clone, Copy, PartialEq, Eq, Structural)]
pub enum Attributes {
    TownHall(TownHall),
    Collector(ResourceCollector),
    Storage(Storage),
    Defense(Defense),
    Wall(Wall),
}

/// The stats of one building kind at one level.
#[derive(Debug, Clone, Copy, PartialEq, Eq, Structural)]
pub struct StatSet {
    pub health: u32,
    pub attributes: Attributes,
}

/// Everything known about one placed building.
#[derive(Debug, Clone, Copy, PartialEq, Eq, Structural)]
pub struct BuildingRecord {
    pub id: Identity,
    pub kind: BuildingType,
    pub building: Building,
    pub position: GridPosition,
    pub size: GridSize,
    pub attributes: Attributes,
}

} // verus!
