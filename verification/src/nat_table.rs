//! Network address translation: the table of sessions and its allocator.

pub mod bijection;
pub mod laws;
pub mod state;
pub mod table;
