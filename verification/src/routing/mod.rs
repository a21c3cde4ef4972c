//! Path patterns and matching.

pub mod definition;
pub mod laws;
pub mod matcher;
pub mod param;
pub mod pattern;
pub mod simple;
pub mod simple_laws;
