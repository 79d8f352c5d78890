//! Requests.

use crate::bio::{Segment, SegmentState};
use crate::block::mq::command::Command;
use crate::block::mq::request_flag::{Flag, Flags};
use vstd::prelude::*;

verus! {

/// A block I/O request with the data that the driver keeps for it.
pub struct Request {
    /// What to do.
    pub command: Command,
    /// First sector.
    pub sector: u64,
    /// Number of sectors.
    pub sectors: u32,
    /// Number of bytes.
    pub bytes: u32,
    /// Flags.
    pub flags: Flags,
    /// Whether the submitter polls for completion.
    pub poll: bool,
    /// Memory to transfer.
    pub segments: Vec<Segment>,
    /// Status with which the request completes, zero for success.
    pub error: u32,
    /// Not zero where the request is to time out.
    pub fake_timeout: u32,
}

/// The states of segments.
pub open spec fn segment_states(segments: Seq<Segment>) -> Seq<SegmentState> {
    segments.map_values(|segment: Segment| segment@)
}

/// The state of a [`Request`].
#[verifier::ext_equal]
pub struct RequestState {
    /// What to do.
    pub command: Command,
    /// First sector.
    pub sector: u64,
    /// Number of sectors.
    pub sectors: u32,
    /// Number of bytes.
    pub bytes: u32,
    /// Flags.
    pub flags: Flags,
    /// Whether the submitter polls for completion.
    pub poll: bool,
    /// Memory to transfer.
    pub segs: Seq<SegmentState>,
    /// Status with which the request completes, zero for success.
    pub error: u32,
    /// Not zero where the request is to time out.
    pub fake_timeout: u32,
}

impl View for Request {
    type V = RequestState;

    open spec fn view(&self) -> RequestState {
        RequestState {
            command: self.command,
            sector: self.sector,
            sectors: self.sectors,
            bytes: self.bytes,
            flags: self.flags,
            poll: self.poll,
            segs: segment_states(self.segments@),
            error: self.error,
            fake_timeout: self.fake_timeout,
        }
    }
}

impl RequestState {
    /// The segments are well formed.
    pub open spec fn inv(self) -> bool {
        forall|i: int| 0 <= i < self.segs.len() ==> #[trigger] self.segs[i].inv()
    }

    /// Data must be written to persistent storage.
    pub open spec fn forced_unit_access(self) -> bool {
        self.flags.has(Flag::ForcedUnitAccess)
    }

    /// The request with another status.
    pub open spec fn with_error(self, error: u32) -> RequestState {
        RequestState { error, ..self }
    }
}

} // verus!
