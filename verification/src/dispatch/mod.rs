//! The dispatcher and what it keeps.

pub mod counters;
pub mod entries;
pub mod envelope;
pub mod intake;
pub mod laws;
pub mod responses;
pub mod route_table;
pub mod router;
pub mod stores;
