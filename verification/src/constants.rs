//! Building footprints, per-level stat tables and the starting conditions of a
//! game.
//!
//! Health, damage, production and capacity are whole numbers. Attack range is
//! given in tenths of a tile and attack speed in tenths of an attack per
//! second, so that values such as 5.5 tiles or 1.1 attacks per second stay
//! exact.

use vstd::prelude::*;

verus! {

/// Highest level a building can have; levels start at 1.
pub const MAX_LEVEL: u32 = 10;

/// Width and height of the tile grid a new game starts with.
pub const GRID_SIZE: usize = 100;

/// Resource amounts are counted in billionths of a unit, one for each
/// nanosecond a collector of rate 1 has been running.
pub const AMOUNT_PER_UNIT: u128 = 1_000_000_000;

/// Whole units of each resource a new game starts with.
pub const STARTING_UNITS: u128 = 1000;

// Footprints, as (width, height) in tiles.
pub const TOWNHALL_SIZE: (usize, usize) = (4, 4);

pub const COLLECTOR_SIZE: (usize, usize) = (3, 3);

pub const STORAGE_SIZE: (usize, usize) = (4, 4);

pub const DEFENSE_SIZE: (usize, usize) = (3, 3);

pub const WALL_SIZE: (usize, usize) = (1, 1);

// Stats by level; entry 0 belongs to level 1.
pub const TOWNHALL_HEALTH: [u32; 10] = [1000, 1200, 1500, 1800, 2200, 2600, 3000, 3500, 4000, 5000];

pub const COLLECTOR_HEALTH: [u32; 10] = [400, 450, 500, 550, 600, 650, 700, 750, 800, 900];

/// Units produced per second.
pub const COLLECTOR_RATE: [u32; 10] = [5, 7, 9, 12, 15, 18, 22, 26, 30, 35];

pub const STORAGE_HEALTH: [u32; 10] = [600, 700, 800, 900, 1000, 1100, 1200, 1300, 1400, 1500];

pub const STORAGE_CAPACITY: [u32; 10] = [
    5000, 10000, 15000, 20000, 25000, 30000, 40000, 50000, 75000, 100000,
];

pub const DEFENSE_HEALTH: [u32; 10] = [800, 900, 1000, 1100, 1200, 1300, 1400, 1500, 1750, 2000];

pub const DEFENSE_DAMAGE: [u32; 10] = [20, 25, 30, 35, 40, 45, 50, 55, 60, 70];

/// Tenths of a tile.
pub const DEFENSE_RANGE: [u32; 10] = [50, 55, 60, 65, 70, 75, 80, 85, 90, 100];

/// Tenths of an attack per second.
pub const DEFENSE_SPEED: [u32; 10] = [10, 11, 12, 13, 14, 15, 16, 17, 18, 20];

pub const WALL_HEALTH: [u32; 10] = [300, 400, 500, 600, 700, 800, 900, 1000, 1200, 1500];

} // verus!
