//! Build options of one configuration layer, and the rules by which two layers
//! are merged into one effective configuration.

pub mod cargo;
pub mod laws;
pub mod lists;
pub mod mode;
