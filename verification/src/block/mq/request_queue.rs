//! Request queues.

use crate::block::mq::command::Command;
use crate::error::Result;
use vstd::prelude::*;

verus! {

/// A structure describing the queues associated with a block device.
#[derive(Debug)]
pub struct RequestQueue<Q> {
    /// Data of the driver.
    pub queue_data: Q,
    /// Whether the hardware queues are stopped.
    pub stopped: bool,
}

/// A request that is carried out while its submitter waits.
#[derive(Debug, Clone, Copy, PartialEq, Eq, Structural)]
pub struct SyncRequest {
    /// Number of the request.
    pub request: usize,
    /// What to do.
    pub command: Command,
}

impl<Q> RequestQueue<Q> {
    /// A queue that runs.
    pub fn new(queue_data: Q) -> (r: Self)
        ensures
            r == (RequestQueue { queue_data, stopped: false }),
    {
        RequestQueue { queue_data, stopped: false }
    }

    /// Get the driver private data associated with this [`RequestQueue`].
    pub fn queue_data(&self) -> (r: &Q)
        ensures
            *r == self.queue_data,
    {
        &self.queue_data
    }

    /// Stop all hardware queues of this [`RequestQueue`].
    pub fn stop_hw_queues(&mut self)
        ensures
            *final(self) == (RequestQueue { stopped: true, ..*old(self) }),
    {
        self.stopped = true;
    }

    /// Start all hardware queues of this [`RequestQueue`].
    ///
    /// This function will mark the queues as ready. Returns whether the host has to run them.
    pub fn start_stopped_hw_queues_async(&mut self) -> (r: bool)
        ensures
            r == old(self).stopped,
            *final(self) == (RequestQueue { stopped: false, ..*old(self) }),
    {
        let stopped: bool = self.stopped;
        self.stopped = false;
        stopped
    }

    /// Allocate a synchronous request. `allocate` asks the host for a request with an operation
    /// code.
    pub fn alloc_sync_request<F: FnOnce(u32) -> Result<usize>>(
        &self,
        command: Command,
        allocate: F,
    ) -> (r: Result<SyncRequest>)
        requires
            call_requires(allocate, (command.raw(),)),
        ensures
            exists|answer: Result<usize>| #[trigger]
                call_ensures(allocate, (command.raw(),), answer) && match answer {
                    Ok(request) => r == Ok::<SyncRequest, crate::error::Errno>(
                        SyncRequest { request, command },
                    ),
                    Err(e) => r == Err::<SyncRequest, crate::error::Errno>(e),
                },
    {
        match allocate(command.as_raw()) {
            Ok(request) => Ok(SyncRequest { request, command }),
            Err(e) => Err(e),
        }
    }
}

} // verus!
