//! Slotted collections.

pub mod container;
pub mod inventory;
pub mod slots;

pub use container::{Container, ContainerError, ContainerResult};
pub use inventory::Inventory;
