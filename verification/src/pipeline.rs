//! The kernel registry, and which kernel a shape takes.

pub mod abi;
pub mod catalog;
pub mod routing;
pub mod selection;
pub mod two_tile;
pub mod tuning;
pub mod names;
pub mod create;
pub mod registry;
