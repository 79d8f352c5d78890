//! Memory management.

pub mod mempool;
pub mod sheaf;
