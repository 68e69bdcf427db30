//! Game rules of a voxel factory game: inventories, machines, conveyors,
//! quests, the command console and the UI state stack.

use vstd::prelude::*;

pub mod breaking;
pub mod chunks;
pub mod command;
pub mod console;
pub mod conveyor;
pub mod debug;
pub mod edits;
pub mod geometry;
pub mod guide;
pub mod hotbar;
pub mod inventory_screen;
pub mod invariants;
pub mod inventory;
pub mod items;
pub mod machine_ui;
pub mod machines;
pub mod panel;
pub mod placement;
pub mod quest;
pub mod slot_ui;
pub mod store;
pub mod text;
pub mod transfer;
pub mod tutorial;
pub mod ui_state;

verus! {

} // verus!
