//! Component values that can be attached to an entity.
use vstd::prelude::*;

verus! {

/// An entity: an index into the world's registry.
#[derive(Clone, Copy, Debug, PartialEq, Eq, Structural)]
pub struct Entity {
    pub id: usize,
}

/// A tile coordinate.
#[derive(Clone, Copy, Debug, PartialEq, Eq, Structural)]
pub struct Point {
    pub x: i32,
    pub y: i32,
}

/// Where an entity stands on the map.
#[derive(Clone, Copy, Debug, PartialEq, Eq, Structural)]
pub struct Position {
    pub x: i32,
    pub y: i32,
}

#[derive(Clone, Copy, Debug, PartialEq, Eq, Structural)]
pub struct CombatStats {
    pub max_hp: i32,
    pub hp: i32,
    pub defense: i32,
    pub power: i32,
}

/// Remaining uses of an item; the item is destroyed when they run out.
#[derive(Clone, Copy, Debug, PartialEq, Eq, Structural)]
pub struct Consumable {
    pub uses: i32,
}

#[derive(Clone, Copy, Debug, PartialEq, Eq, Structural)]
pub struct ProvidesHealing {
    pub heal_amount: u32,
}

#[derive(Clone, Copy, Debug, PartialEq, Eq, Structural)]
pub struct InflictsDamage {
    pub damage: i32,
}

#[derive(Clone, Copy, Debug, PartialEq, Eq, Structural)]
pub struct Confusion {
    pub turns: i32,
}

#[derive(Clone, Copy, Debug, PartialEq, Eq, Structural)]
pub struct AreaOfEffect {
    pub radius: i32,
}

#[derive(Clone, Copy, Debug, PartialEq, Eq, Structural)]
pub struct Ranged {
    pub range: i32,
}

#[derive(Clone, Copy, Debug, PartialEq, Eq, Structural)]
pub enum EquipmentSlot {
    Melee,
    Shield,
}

#[derive(Clone, Copy, Debug, PartialEq, Eq, Structural)]
pub struct Equippable {
    pub slot: EquipmentSlot,
}

#[derive(Clone, Copy, Debug, PartialEq, Eq, Structural)]
pub struct Equipped {
    pub owner: Entity,
    pub slot: EquipmentSlot,
}

#[derive(Clone, Copy, Debug, PartialEq, Eq, Structural)]
pub struct InBackpack {
    pub owner: Entity,
}

#[derive(Clone, Copy, Debug, PartialEq, Eq, Structural)]
pub struct WantsToPickupItem {
    pub collected_by: Entity,
    pub item: Entity,
}

#[derive(Clone, Copy, Debug, PartialEq, Eq, Structural)]
pub struct WantsToUseItem {
    pub item: Entity,
    pub target: Option<Point>,
}

#[derive(Clone, Copy, Debug, PartialEq, Eq, Structural)]
pub struct WantsToDropItem {
    pub item: Entity,
}

#[derive(Clone, Copy, Debug, PartialEq, Eq, Structural)]
pub struct WantsToRemoveItem {
    pub item: Entity,
}

} // verus!
