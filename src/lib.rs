//! Simulation kernel of a turn-based dungeon crawler: an entity registry with
//! optional components, the item systems that resolve one turn of intents, and
//! the turn state machine that sequences them.
pub mod components;
pub mod world;
pub mod map;
pub mod targeting;
pub mod text;
pub mod inventory;
pub mod item_use;
pub mod monster_ai;
pub mod run_state;
pub mod state;
