//! Block layer building blocks: a memory backed, optionally zoned, block
//! device, the queue and tag set bookkeeping around it, and the data
//! structures that they share.

pub mod bio;
pub mod block;
pub mod configfs;
pub mod device;
pub mod disk_storage;
pub mod error;
pub mod hrtimer;
pub mod laws;
pub mod macros;
pub mod mm;
pub mod module;
pub mod nvme;
pub mod once_lite;
pub mod pci;
pub mod sync;
pub mod text;
pub mod types;
pub mod util;
pub mod xarray;
pub mod zoned;
