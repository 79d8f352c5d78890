//! Types for working with the block layer.

pub mod badblocks;
pub mod error;
pub mod mq;
