//! Address resolution: the cache of resolved addresses, the frames on the
//! wire, and the decisions of a scan.

pub mod cache;
pub mod frame;
pub mod manager;
pub mod scan;
