//! Configuration values and their defaults.

pub mod color;
pub mod mouse;
pub mod selection;
