//! The NVMe driver.

use vstd::prelude::*;

pub mod mq;
pub mod prp;
pub mod queue;

verus! {

/// Operation code of a flush.
pub const NVME_OPCODE_FLUSH: u8 = 0;

/// Operation code of a write.
pub const NVME_OPCODE_WRITE: u8 = 1;

/// Operation code of a read.
pub const NVME_OPCODE_READ: u8 = 2;

/// A command. Fields that are not listed are zero.
#[derive(Debug, Clone, Copy, PartialEq, Eq, Structural)]
pub struct NvmeCommand {
    /// What to do.
    pub opcode: u8,
    /// Tag of the request.
    pub command_id: u16,
    /// Number of the namespace.
    pub nsid: u32,
    /// First physical region page.
    pub prp1: u64,
    /// Second physical region page, or a list of pages.
    pub prp2: u64,
    /// First logical block.
    pub slba: u64,
    /// Number of logical blocks after the first one.
    pub length: u16,
}

impl NvmeCommand {
    /// A flush of a namespace.
    pub fn new_flush(nsid: u32) -> (r: Self)
        ensures
            r == (NvmeCommand {
                opcode: NVME_OPCODE_FLUSH,
                command_id: 0,
                nsid,
                prp1: 0,
                prp2: 0,
                slba: 0,
                length: 0,
            }),
    {
        NvmeCommand {
            opcode: NVME_OPCODE_FLUSH,
            command_id: 0,
            nsid,
            prp1: 0,
            prp2: 0,
            slba: 0,
            length: 0,
        }
    }
}

/// An entry of a completion queue. Fields that are not listed are not used.
#[derive(Debug, Clone, Copy, PartialEq, Eq, Structural)]
pub struct NvmeCompletion {
    /// Result of the command.
    pub result: u32,
    /// Tag of the request.
    pub command_id: u16,
    /// Phase in the lowest bit, status above.
    pub status: u16,
}

} // verus!
