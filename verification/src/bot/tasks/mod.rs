//! Native task state machines driven by server acknowledgements.

pub mod crafting;
pub mod inventory;
pub mod mining;
pub mod targets;
