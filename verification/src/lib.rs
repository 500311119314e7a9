//! Verified core logic of the debug tools, dimensions and factions of the game:
//! the decisions that the ECS systems and the debug windows make, written over
//! plain values so that their behaviour can be stated and proved.
mod collections;

pub mod faction;
pub mod picking;
pub mod grid;
pub mod chunks;
pub mod labels;
pub mod windows;
pub mod selection;
pub mod inspector;
pub mod expr_text;
pub mod nav_text;
pub mod preview;
pub mod window_state;
pub mod dimension;
pub mod viewport;
