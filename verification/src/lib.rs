//! The core of a read-through item store.
//!
//! The store sits in front of a remote, read-only item API whose items name
//! other items by id: stories, and the trees of comments under them. This
//! crate holds what such a store decides:
//!
//! - [`cache`]: one entry per item, served while it is younger than the
//!   time-to-live;
//! - [`fetcher`]: the lookups of a batch, folded into one map;
//! - [`walker`]: the descendants and the ancestors of an item, with a fuse on
//!   the size of the result;
//! - [`cron`]: the recurring snapshot of the top list and its rank history,
//!   the order of the background work, and the historical sweep;
//! - [`schema`]: how many items a listing loads, and in what order it hands
//!   them out;
//! - [`db`]: the stored form of an item;
//! - [`domain`], [`result`], [`text`]: the items, the failures, and the texts
//!   for display.
//!
//! Everything here works on plain values and never waits: the network, the
//! storage, the clock and the timers belong to the program around the
//! library, which does the work that the library names and reports back what
//! came of it. Every function states what it returns in a contract, and the
//! contracts are proved.

pub mod cache;
pub mod cron;
pub mod db;
pub mod domain;
pub mod fetcher;
pub mod result;
pub mod schema;
pub mod text;
pub mod walker;
