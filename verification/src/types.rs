//! Types for ownership.

pub mod ownable;
