//! A fixed-capacity slotted inventory of quantity-bearing items.
//!
//! [`entity::Item`] is the value that a slot holds; [`collections::Container`]
//! is the set of operations that a slotted collection offers, stated over a
//! sequence of optional items; [`collections::Inventory`] is its
//! implementation over a vector of slots.

pub mod collections;
pub mod entity;
