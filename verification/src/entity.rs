//! The values that containers hold.

pub mod item;

pub use item::Item;
