//! A small note store: an ordered list of titled text notes that can be
//! created, edited, deleted and searched case-insensitively.
//!
//! The store keeps every note's id equal to its position in the list once a
//! deletion has renumbered it. Reading and writing the backing file is left to
//! the caller, which is told by each operation whether the list changed.

pub mod note;
pub mod text;
pub mod store;
