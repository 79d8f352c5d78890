//! Synchronisation primitives.

pub mod aref;
pub mod atomic;
pub mod once_lock;
