//! The resources a player holds.
//!
//! Amounts are whole numbers of billionths of a unit (see
//! [`crate::constants::AMOUNT_PER_UNIT`]). They are kept in the hash map of
//! the game engine's utilities, keyed by a small number for each resource.

use crate::components::ResourceType;
use crate::constants::AMOUNT_PER_UNIT;
use vstd::prelude::*;

verus! {

/// The hash map in which the amounts are kept, from resource key to amount.
/// Verified code reaches it only through the three functions below.
#[verifier::external_body]
#[derive(Debug)]
pub struct Ledger {
    map: bevy::utils::HashMap<u8, u128>,
}

/// The key-value pairs a ledger holds.
pub uninterp spec fn ledger_contents(ledger: Ledger) -> Map<u8, u128>;

/// `hashbrown::HashMap::new`, which `bevy::utils::HashMap` is an alias of
/// with a fixed hasher: the new map holds nothing.
#[verifier::external_body]
fn ledger_new() -> (ledger: Ledger)
    ensures
        ledger_contents(ledger) == (Map::<u8, u128>::empty()),
{
    Ledger { map: bevy::utils::HashMap::new() }
}

/// `hashbrown::HashMap::get`: the value stored under the key, or `None` when
/// the map has no such key.
#[verifier::external_body]
fn ledger_get(ledger: &Ledger, key: u8) -> (found: Option<u128>)
    ensures
        found == (if ledger_contents(*ledger).contains_key(key) {
            Some(ledger_contents(*ledger)[key])
        } else {
            None
        }),
{
    ledger.map.get(&key).copied()
}

/// `hashbrown::HashMap::insert`: afterwards the key maps to the new value and
/// every other key is as before; returned is the value the key had, or `None`
/// when the key was new.
#[verifier::external_body]
fn ledger_insert(ledger: &mut Ledger, key: u8, value: u128) -> (previous: Option<u128>)
    ensures
        ledger_contents(*final(ledger)) == ledger_contents(*old(ledger)).insert(key, value),
        previous == (if ledger_contents(*old(ledger)).contains_key(key) {
            Some(ledger_contents(*old(ledger))[key])
        } else {
            None
        }),
{
    ledger.map.insert(key, value)
}

impl ResourceType {
    /// The number a resource is filed under.
    pub open spec fn key_spec(self) -> u8 {
        match self {
            ResourceType::Gold => 0,
            ResourceType::Elixir => 1,
        }
    }

    /// The number a resource is filed under.
    pub fn key(self) -> (key: u8)
        ensures
            key == self.key_spec(),
    {
        match self {
            ResourceType::Gold => 0,
            ResourceType::Elixir => 1,
        }
    }
}

/// The amount filed under a resource; nothing filed counts as zero.
pub open spec fn filed(contents: Map<u8, u128>, resource: ResourceType) -> nat {
    if contents.contains_key(resource.key_spec()) {
        contents[resource.key_spec()] as nat
    } else {
        0
    }
}

/// The amounts of each resource a player has accumulated.
#[derive(Debug)]
pub struct PlayerResources {
    resources: Ledger,
}

impl View for PlayerResources {
    type V = Map<ResourceType, nat>;

    /// The amount held of every resource.
    open spec fn view(&self) -> Map<ResourceType, nat> {
        Map::total(|resource: ResourceType| self.held(resource))
    }
}

impl Default for PlayerResources {
    /// Nothing of any resource.
    fn default() -> (resources: Self)
        ensures
            resources@ == Map::total(|resource: ResourceType| 0nat),
    {
        PlayerResources::new()
    }
}

impl PlayerResources {
    /// The amount held of a resource.
    pub closed spec fn held(&self, resource: ResourceType) -> nat {
        filed(ledger_contents(self.resources), resource)
    }

    /// Every amount held fits the number type it is stored in.
    pub proof fn lemma_held_fits(&self, resource: ResourceType)
        ensures
            self@[resource] <= u128::MAX,
    {
    }

    /// Nothing of any resource.
    pub fn new() -> (resources: Self)
        ensures
            resources@ == Map::total(|resource: ResourceType| 0nat),
    {
        let resources = PlayerResources { resources: ledger_new() };
        assert(resources@ =~= Map::total(|resource: ResourceType| 0nat));
        resources
    }

    /// The amount held of a resource.
    pub fn amount(&self, resource: ResourceType) -> (amount: u128)
        ensures
            amount == self@[resource],
    {
        match ledger_get(&self.resources, resource.key()) {
            Some(amount) => amount,
            None => 0,
        }
    }

    /// The whole units held of a resource; what is short of a unit is left
    /// out.
    pub fn whole_units(&self, resource: ResourceType) -> (units: u128)
        ensures
            units == self@[resource] / (AMOUNT_PER_UNIT as nat),
    {
        self.amount(resource) / AMOUNT_PER_UNIT
    }

    /// Sets the amount held of a resource and returns the amount held before.
    pub fn insert(&mut self, resource: ResourceType, amount: u128) -> (previous: u128)
        ensures
            final(self)@ == old(self)@.insert(resource, amount as nat),
            previous == old(self)@[resource],
    {
        let previous = ledger_insert(&mut self.resources, resource.key(), amount);
        assert(self@ =~= old(self)@.insert(resource, amount as nat));
        match previous {
            Some(previous) => previous,
            None => 0,
        }
    }

    /// Adds to the amount held of a resource.
    pub fn deposit(&mut self, resource: ResourceType, amount: u128)
        requires
            old(self)@[resource] + amount <= u128::MAX,
        ensures
            final(self)@ == old(self)@.insert(resource, old(self)@[resource] + amount as nat),
    {
        let current: u128 = self.amount(resource);
        self.insert(resource, current + amount);
    }
}

} // verus!
