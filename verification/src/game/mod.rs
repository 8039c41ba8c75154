//! Game state that does not depend on the wire.

pub mod navigation;
pub mod physics;
pub mod player;
