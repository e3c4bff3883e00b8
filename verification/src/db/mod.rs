//! The stored form of an item.

pub mod item;

pub use item::Item;
