//! Main-window state, placement geometry and placement persistence policy.

pub mod bounds;
pub mod lifecycle;
pub mod persistence;
