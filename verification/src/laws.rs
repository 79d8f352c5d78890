//! What the operations of the library are for: laws that relate their inputs and results, stated of
//! the functions that callers use.

pub mod attributes;
pub mod discard;
pub mod frames;
pub mod nvme;
pub mod requests;
pub mod service;
pub mod setup;
pub mod storage;
pub mod zone_commands;
pub mod zones;
