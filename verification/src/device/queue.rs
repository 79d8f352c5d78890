//! Queueing and completion of requests.

use crate::block::error::{BlkError, BlkResult, BLK_STS_IOERR, BLK_STS_OK, BLK_STS_TIMEOUT};
use crate::block::mq::command::Command;
use crate::block::mq::request::{Request, RequestState};
use crate::block::mq::request_list::RequestList;
use crate::configfs::IRQMode;
use crate::device::io::{IoState, Verdict};
use crate::device::{Memory, NullBlkDevice};
use crate::disk_storage::page::NullBlockPage;
use crate::error::{Errno, Result, EFAULT};
use crate::hrtimer::HrTimerRestart;
use vstd::prelude::*;

verus! {

/// Data of a hardware queue.
pub struct HwQueueContext {
    /// A page that is available for the next write.
    pub page: Option<NullBlockPage>,
    /// Requests that wait to be polled, oldest first.
    pub poll_queue: RequestList<Request>,
    /// Number of requests that can wait to be polled.
    pub poll_capacity: usize,
}

/// What the host has to do to complete a request.
pub enum Completion {
    /// End the request with a status.
    Ended(Request, u8),
    /// Complete the request on the processor that submitted it.
    Remote(Request),
    /// Start the timer of the request, which ends it after a number of nanoseconds.
    Timer(Request, i64),
}

/// The state of a [`Completion`].
#[verifier::ext_equal]
pub enum CompletionState {
    /// End the request with a status.
    Ended(RequestState, u8),
    /// Complete the request on the processor that submitted it.
    Remote(RequestState),
    /// Start the timer of the request.
    Timer(RequestState, i64),
}

impl View for Completion {
    type V = CompletionState;

    open spec fn view(&self) -> CompletionState {
        match self {
            Completion::Ended(rq, status) => CompletionState::Ended(rq@, *status),
            Completion::Remote(rq) => CompletionState::Remote(rq@),
            Completion::Timer(rq, delay) => CompletionState::Timer(rq@, *delay),
        }
    }
}

/// How a request ends: with an I/O error where it has an error status. The status is reset.
pub open spec fn ended(rq: RequestState) -> CompletionState {
    CompletionState::Ended(
        rq.with_error(0),
        if rq.error == 0 {
            BLK_STS_OK
        } else {
            BLK_STS_IOERR
        },
    )
}

/// What became of a request that was not refused.
pub enum Queued {
    /// The request goes back to the queue.
    Requeued(Request),
    /// The request was started and is left to time out.
    TimedOut(Request),
    /// The request waits to be polled.
    Polled,
    /// The request is complete.
    Completed(Completion),
}

/// A request that was refused.
pub struct QueueRequestError {
    /// The request.
    pub request: Request,
}

impl From<QueueRequestError> for BlkError {
    fn from(_value: QueueRequestError) -> (r: Self) {
        let r = BlkError::from_blk_status(BLK_STS_IOERR);
        proof {
            crate::block::error::lemma_io_error();
            crate::block::error::lemma_status_unique(r, BlkError::io_error());
        }
        r
    }
}

impl vstd::std_specs::convert::FromSpecImpl<QueueRequestError> for BlkError {
    open spec fn obeys_from_spec() -> bool {
        true
    }

    open spec fn from_spec(v: QueueRequestError) -> BlkError {
        BlkError::io_error()
    }
}

/// What the host reports while a request is queued.
#[derive(Clone, Copy, Debug, PartialEq, Eq, Structural)]
pub struct QueueEvents {
    /// A requeue fault is injected.
    pub requeue_fault: bool,
    /// A timeout fault is injected.
    pub timeout_fault: bool,
    /// The bandwidth timer is active.
    pub timer_active: bool,
    /// Number of bytes of the current interval after the queues were stopped.
    pub reloaded_bytes: u64,
}

/// Length of a bandwidth interval in nanoseconds.
pub const BANDWIDTH_TIMER_INTERVAL: i64 = 20_000_000;

/// Number of nanoseconds in a second.
pub const NSEC_PER_SEC: i64 = 1_000_000_000;

/// A device made for a bandwidth lets that many bytes per second in: its limit for one interval,
/// times the number of intervals in a second, is the bandwidth, but for less than a byte in each
/// interval.
pub proof fn lemma_bandwidth(bandwidth: u64)
    ensures
        NSEC_PER_SEC % BANDWIDTH_TIMER_INTERVAL == 0,
        (bandwidth / 50) * (NSEC_PER_SEC as int / BANDWIDTH_TIMER_INTERVAL as int) <= bandwidth
            < (bandwidth / 50 + 1) * (NSEC_PER_SEC as int / BANDWIDTH_TIMER_INTERVAL as int),
{
    assert(NSEC_PER_SEC as int / BANDWIDTH_TIMER_INTERVAL as int == 50);
}

/// What the host has to do besides processing a request.
#[derive(Clone, Copy, Debug, PartialEq, Eq, Structural)]
pub struct HostActions {
    /// Start the bandwidth timer, to expire after a number of nanoseconds.
    pub start_timer: Option<i64>,
    /// Stop the hardware queues.
    pub stop_queues: bool,
    /// Start the hardware queues that were stopped.
    pub restart_queues: bool,
}

/// Whether a request is let in.
pub enum Gate {
    /// Refused by a fault.
    Refused,
    /// Requeued by a fault.
    Requeued,
    /// Refused because the interval is used up.
    Throttled,
    /// Let in.
    Passed,
}

impl NullBlkDevice {
    /// Whether a request is let in: every other requeue fault refuses it, the others requeue it, and
    /// a request that exceeds the bandwidth of the interval is refused.
    pub open spec fn gate(&self, bytes: u32, events: QueueEvents) -> Gate {
        if events.requeue_fault {
            if self.requeue_selector & 1 == 0 {
                Gate::Refused
            } else {
                Gate::Requeued
            }
        } else if self.bandwidth_limit != 0 && self.bandwidth_bytes + bytes > self.bandwidth_limit {
            Gate::Throttled
        } else {
            Gate::Passed
        }
    }

    /// What the host has to do besides processing a request.
    pub open spec fn host_actions(&self, bytes: u32, events: QueueEvents) -> HostActions {
        let limited = !events.requeue_fault && self.bandwidth_limit != 0;
        let throttled = self.gate(bytes, events) is Throttled;
        HostActions {
            start_timer: if limited && !events.timer_active {
                Some(BANDWIDTH_TIMER_INTERVAL)
            } else {
                None
            },
            stop_queues: throttled,
            restart_queues: throttled && events.reloaded_bytes <= self.bandwidth_limit,
        }
    }

    /// Number of injected requeue faults after a request.
    pub open spec fn selector_after(&self, events: QueueEvents) -> u64 {
        if events.requeue_fault {
            if self.requeue_selector == u64::MAX {
                0
            } else {
                (self.requeue_selector + 1) as u64
            }
        } else {
            self.requeue_selector
        }
    }

    /// Number of bytes of the interval after a request.
    pub open spec fn bandwidth_after(&self, bytes: u32, events: QueueEvents) -> u64 {
        if !events.requeue_fault && self.bandwidth_limit != 0 {
            (self.bandwidth_bytes + bytes) as u64
        } else {
            self.bandwidth_bytes
        }
    }

    /// How the device completes a request.
    pub open spec fn completed(&self, rq: RequestState) -> CompletionState {
        match self.irq_mode {
            IRQMode::Immediate => ended(rq),
            IRQMode::Soft => CompletionState::Remote(rq),
            IRQMode::Timer => CompletionState::Timer(rq, self.completion_time),
        }
    }

    /// Nothing but storage, zones and counters differs.
    pub open spec fn same_settings(&self, other: &Self) -> bool {
        &&& self.config() == other.config()
        &&& self.irq_mode == other.irq_mode
        &&& self.completion_time == other.completion_time
        &&& self.bad_blocks == other.bad_blocks
        &&& self.bandwidth_limit == other.bandwidth_limit
    }

    /// Ends a request.
    pub fn end_request(rq: Request) -> (r: Completion)
        ensures
            r@ == ended(rq@),
    {
        let mut rq = rq;
        let status: u32 = rq.error;
        rq.error = 0;
        if status == 0 {
            Completion::Ended(rq, BLK_STS_OK)
        } else {
            Completion::Ended(rq, BLK_STS_IOERR)
        }
    }

    /// Completes a request in the way that the device is configured for.
    pub fn complete_request(&self, rq: Request) -> (r: Completion)
        ensures
            r@ == self.completed(rq@),
    {
        match self.irq_mode {
            IRQMode::Immediate => Self::end_request(rq),
            IRQMode::Soft => Completion::Remote(rq),
            IRQMode::Timer => Completion::Timer(rq, self.completion_time),
        }
    }

    /// Completes a request that was handed to another processor.
    pub fn complete(rq: Request) -> (r: Completion)
        ensures
            r@ == ended(rq@),
    {
        Self::end_request(rq)
    }

    /// Lets a request in or refuses it, and tells what the host has to do.
    pub fn pass_gate(&mut self, bytes: u32, events: QueueEvents) -> (r: (Gate, HostActions))
        requires
            old(self).bandwidth_bytes + bytes <= u64::MAX,
        ensures
            r.0 == old(self).gate(bytes, events),
            r.1 == old(self).host_actions(bytes, events),
            final(self).requeue_selector == old(self).selector_after(events),
            final(self).bandwidth_bytes == old(self).bandwidth_after(bytes, events),
            final(self).same_settings(&*old(self)),
            final(self).storage == old(self).storage,
            final(self).zoned == old(self).zoned,
    {
        let mut actions = HostActions {
            start_timer: None,
            stop_queues: false,
            restart_queues: false,
        };
        if events.requeue_fault {
            let selector: u64 = self.requeue_selector;
            self.requeue_selector = selector.wrapping_add(1);
            if selector & 1 == 0 {
                return (Gate::Refused, actions);
            } else {
                return (Gate::Requeued, actions);
            }
        }
        if self.bandwidth_limit != 0 {
            if !events.timer_active {
                actions.start_timer = Some(BANDWIDTH_TIMER_INTERVAL);
            }
            self.bandwidth_bytes = self.bandwidth_bytes + bytes as u64;
            if self.bandwidth_bytes > self.bandwidth_limit {
                actions.stop_queues = true;
                if events.reloaded_bytes <= self.bandwidth_limit {
                    actions.restart_queues = true;
                }
                return (Gate::Throttled, actions);
            }
        }
        (Gate::Passed, actions)
    }
}

impl IoState {
    /// The outcome of a request that is neither a flush nor refused.
    pub open spec fn processed(self, config: crate::device::io::IoConfig, v: Verdict) -> (
        IoState,
        Result<()>,
    ) {
        if self.zones.enabled {
            self.zoned(config, v)
        } else {
            self.regular(config, v)
        }
    }

    /// The sector from which on a request is checked for bad blocks, if it comes to that.
    pub open spec fn checked_from(self) -> Option<u64> {
        if self.zones.enabled {
            self.zoned_checked_from()
        } else {
            Some(self.rq.sector)
        }
    }

    /// The state after the outcome was noted in the request: an error that the request has already is
    /// not overwritten.
    pub open spec fn noted(self, r: Result<()>) -> IoState {
        if r is Err && self.rq.error == 0 {
            IoState { rq: self.rq.with_error(BLK_STS_IOERR as u32), ..self }
        } else {
            self
        }
    }

    /// A request can be processed: its sectors have numbers, and a flush finds the page that it may
    /// need.
    pub open spec fn processable(self, config: crate::device::io::IoConfig) -> bool {
        if self.rq.command == Command::Flush {
            config.memory_backed && self.store.cache_size > 0 ==> self.store.can_flush_all(
                self.spare,
            )
        } else if self.zones.enabled {
            self.zoned_ok(config)
        } else {
            self.in_range(self.rq.sector) && self.discards_ok(config)
        }
    }

    /// The state after a flush.
    pub open spec fn flushed(self, config: crate::device::io::IoConfig) -> IoState {
        if config.memory_backed && self.store.cache_size > 0 {
            IoState {
                store: self.store.flushed(),
                spare: if self.store.flush_needs_spare() {
                    None
                } else {
                    self.spare
                },
                ..self
            }
        } else {
            self
        }
    }
}

impl NullBlkDevice {
    /// Processes a request and notes the outcome in it.
    fn process<L: FnOnce(u64, u64) -> (i32, u64, u64), G: FnOnce(u64, u64) -> bool>(
        &mut self,
        spare: &mut Option<NullBlockPage>,
        memory: &mut Memory,
        rq: &mut Request,
        lookup: L,
        clear: G,
    )
        requires
            old(self).inv(),
            crate::device::io::io_state(*old(self), *old(spare), *old(memory), *old(rq)).inv(),
            crate::device::io::io_state(*old(self), *old(spare), *old(memory), *old(rq)).processable(old(self).config()),
            old(rq).command != Command::Flush,
            crate::device::io::io_state(
                *old(self),
                *old(spare),
                *old(memory),
                *old(rq),
            ).checked_from() matches Some(start) ==> crate::device::io::answerable(
                old(self).config(),
                start,
                old(rq).sectors,
                lookup,
                clear,
            ),
        ensures
            final(self).inv(),
            final(self).same_but_io(&*old(self)),
            crate::device::io::io_state(*final(self), *final(spare), *final(memory), *final(rq)).inv(),
            exists|v: Verdict|
                {
                    &&& crate::device::io::io_state(*old(self), *old(spare), *old(memory), *old(rq)).checked_from() matches Some(start) ==> crate::device::io::judged(
                        old(self).config(),
                        start,
                        old(rq).sectors,
                        lookup,
                        clear,
                        v,
                    )
                    &&& crate::device::io::io_state(*final(self), *final(spare), *final(memory), *final(rq)) == done(#[trigger] crate::device::io::io_state(*old(self), *old(spare), *old(memory), *old(rq)).processed(old(self).config(), v))
                },
    {
        let ghost start = crate::device::io::io_state(*self, *spare, *memory, *rq);
        let status = if self.zoned.enabled {
            self.handle_zoned_command(spare, memory, rq, lookup, clear)
        } else {
            self.handle_regular_command(spare, memory, rq, lookup, clear)
        };
        let ghost v = if start.zones.enabled {
            choose|v: Verdict|
                {
                    &&& start.zoned_checked_from() matches Some(from) ==> crate::device::io::judged(
                        old(self).config(),
                        from,
                        old(rq).sectors,
                        lookup,
                        clear,
                        v,
                    )
                    &&& (crate::device::io::io_state(*self, *spare, *memory, *rq), status) == #[trigger] start.zoned(old(self).config(), v)
                }
        } else {
            choose|v: Verdict|
                {
                    &&& #[trigger] crate::device::io::judged(
                        old(self).config(),
                        old(rq).sector,
                        old(rq).sectors,
                        lookup,
                        clear,
                        v,
                    )
                    &&& (crate::device::io::io_state(*self, *spare, *memory, *rq), status) == start.regular(old(self).config(), v)
                }
        };
        assert((crate::device::io::io_state(*self, *spare, *memory, *rq), status) == start.processed(old(self).config(), v));
        let ghost handled = crate::device::io::io_state(*self, *spare, *memory, *rq);
        if status.is_err() {
            if rq.error == 0 {
                rq.error = BLK_STS_IOERR as u32;
            }
        }
        assert(crate::device::io::io_state(*self, *spare, *memory, *rq) =~= handled.noted(status));
        assert(crate::device::io::io_state(*self, *spare, *memory, *rq) == done(start.processed(old(self).config(), v)));
    }

    /// Queues a request: lets it in or refuses it, processes it, and completes it or leaves it to be
    /// polled.
    pub fn queue_rq_internal<L: FnOnce(u64, u64) -> (i32, u64, u64), G: FnOnce(u64, u64) -> bool>(
        &mut self,
        hw: &mut HwQueueContext,
        memory: &mut Memory,
        rq: Request,
        events: QueueEvents,
        lookup: L,
        clear: G,
    ) -> (r: (core::result::Result<Queued, QueueRequestError>, HostActions))
        requires
            queue_ready((*old(self), *old(hw), *old(memory)), rq, events, lookup, clear),
        ensures
            queued(
                (*old(self), *old(hw), *old(memory)),
                rq,
                events,
                lookup,
                clear,
                (*final(self), *final(hw), *final(memory)),
                r,
            ),
    {
        let mut rq = rq;
        let ghost given = rq;
        let (gate, actions) = self.pass_gate(rq.bytes, events);
        match gate {
            Gate::Refused => {
                return (Err(QueueRequestError { request: rq }), actions);
            },
            Gate::Requeued => {
                return (Ok(Queued::Requeued(rq)), actions);
            },
            Gate::Throttled => {
                return (Err(QueueRequestError { request: rq }), actions);
            },
            Gate::Passed => {},
        }
        if events.timeout_fault {
            rq.fake_timeout = 1;
            return (Ok(Queued::TimedOut(rq)), actions);
        }
        let ghost start = crate::device::io::io_state(*old(self), old(hw).page, *old(memory), given);
        if rq.command == Command::Flush {
            if self.memory_backed {
                self.storage.flush(&mut hw.page);
            }
            let completion = self.complete_request(rq);
            assert(crate::device::io::io_state(*self, hw.page, *memory, given) =~= start.flushed(
                old(self).config(),
            ));
            return (Ok(Queued::Completed(completion)), actions);
        }
        assert(crate::device::io::io_state(*self, hw.page, *memory, rq) == start);
        self.process(&mut hw.page, memory, &mut rq, lookup, clear);
        let ghost end = crate::device::io::io_state(*self, hw.page, *memory, rq);
        let ghost v = choose|v: Verdict|
            {
                &&& start.checked_from() matches Some(from) ==> crate::device::io::judged(
                    old(self).config(),
                    from,
                    given.sectors,
                    lookup,
                    clear,
                    v,
                )
                &&& end == done(#[trigger] start.processed(old(self).config(), v))
            };
        let r = if rq.poll {
            hw.poll_queue.push_tail(rq);
            assert(hw.poll_queue@.drop_last() =~= old(hw).poll_queue@);
            (Ok(Queued::Polled), actions)
        } else {
            let completion = self.complete_request(rq);
            (Ok(Queued::Completed(completion)), actions)
        };
        assert(carried_out(
            (*old(self), *old(hw), *old(memory)),
            (*self, *hw, *memory),
            done(start.processed(old(self).config(), v)),
            r.0,
        ));
        r
    }
}

/// A device, a hardware queue of it, and the memory of the host.
pub type QueueSide = (NullBlkDevice, HwQueueContext, Memory);

/// What became of a request, and what the host has to do besides.
pub type QueueOutcome = (core::result::Result<Queued, QueueRequestError>, HostActions);

/// A request can be queued: if it is let in, it can be processed, the host can be asked about the
/// sectors that are checked for bad blocks, and if it is to be polled, it can wait.
pub open spec fn queue_ready<L: FnOnce(u64, u64) -> (i32, u64, u64), G: FnOnce(u64, u64) -> bool>(
    start: QueueSide,
    rq: Request,
    events: QueueEvents,
    lookup: L,
    clear: G,
) -> bool {
    let (device, hw, memory) = start;
    let state = crate::device::io::io_state(device, hw.page, memory, rq);
    &&& device.inv()
    &&& device.bandwidth_bytes + rq.bytes <= u64::MAX
    &&& state.inv()
    &&& device.gate(rq.bytes, events) is Passed && !events.timeout_fault ==> {
        &&& state.processable(device.config())
        &&& rq.poll && rq.command != Command::Flush ==> hw.poll_queue@.len() < hw.poll_capacity
        &&& rq.command != Command::Flush ==> (state.checked_from() matches Some(from)
            ==> crate::device::io::answerable(device.config(), from, rq.sectors, lookup, clear))
    }
}

/// A request was queued, with the outcome `r`. A request that a fault or the bandwidth limit refuses
/// comes back as it was; one that a fault requeues goes back to the queue as it was; one that is to
/// time out is only marked; a flush is completed; all others are processed, and completed or left to
/// be polled.
pub open spec fn queued<L: FnOnce(u64, u64) -> (i32, u64, u64), G: FnOnce(u64, u64) -> bool>(
    start: QueueSide,
    rq: Request,
    events: QueueEvents,
    lookup: L,
    clear: G,
    end: QueueSide,
    r: QueueOutcome,
) -> bool {
    let device = start.0;
    let state = crate::device::io::io_state(device, start.1.page, start.2, rq);
    &&& end.0.inv()
    &&& end.0.same_settings(&device)
    &&& end.0.requeue_selector == device.selector_after(events)
    &&& end.0.bandwidth_bytes == device.bandwidth_after(rq.bytes, events)
    &&& end.1.poll_capacity == start.1.poll_capacity
    &&& r.1 == device.host_actions(rq.bytes, events)
    &&& match device.gate(rq.bytes, events) {
        Gate::Refused | Gate::Throttled => {
            &&& r.0 matches Err(e) && e.request@ == rq@
            &&& untouched(start, end)
        },
        Gate::Requeued => {
            &&& r.0 matches Ok(Queued::Requeued(q)) && q@ == rq@
            &&& untouched(start, end)
        },
        Gate::Passed => if events.timeout_fault {
            &&& r.0 matches Ok(Queued::TimedOut(q)) && q@ == (RequestState {
                fake_timeout: 1,
                ..rq@
            })
            &&& untouched(start, end)
        } else if rq.command == Command::Flush {
            &&& r.0 matches Ok(Queued::Completed(c)) && c@ == device.completed(rq@)
            &&& crate::device::io::io_state(end.0, end.1.page, end.2, rq) == state.flushed(
                device.config(),
            )
            &&& end.1.poll_queue@ == start.1.poll_queue@
        } else {
            exists|v: Verdict|
                {
                    &&& state.checked_from() matches Some(from) ==> crate::device::io::judged(
                        device.config(),
                        from,
                        rq.sectors,
                        lookup,
                        clear,
                        v,
                    )
                    &&& carried_out(
                        start,
                        end,
                        done(#[trigger] state.processed(device.config(), v)),
                        r.0,
                    )
                }
        },
    }
}

/// Requests were queued one after the other, with these outcomes.
pub open spec fn all_queued<L: FnOnce(u64, u64) -> (i32, u64, u64), G: FnOnce(u64, u64) -> bool>(
    start: QueueSide,
    requests: Seq<Request>,
    events: Seq<QueueEvents>,
    lookup: L,
    clear: G,
    end: QueueSide,
    outcomes: Seq<QueueOutcome>,
) -> bool
    decreases requests.len(),
{
    &&& outcomes.len() == requests.len()
    &&& if requests.len() == 0 {
        end == start
    } else {
        exists|mid: QueueSide|
            {
                &&& all_queued(
                    start,
                    requests.drop_last(),
                    events,
                    lookup,
                    clear,
                    mid,
                    outcomes.drop_last(),
                )
                &&& #[trigger] queued(
                    mid,
                    requests.last(),
                    events[requests.len() - 1],
                    lookup,
                    clear,
                    end,
                    outcomes.last(),
                )
            }
    }
}

/// The state after the outcome was noted in the request.
pub open spec fn done(outcome: (IoState, Result<()>)) -> IoState {
    outcome.0.noted(outcome.1)
}

/// Storage, zones, queue and memory are the same.
pub open spec fn untouched(start: QueueSide, end: QueueSide) -> bool {
    &&& end.0.storage == start.0.storage
    &&& end.0.zoned == start.0.zoned
    &&& end.1 == start.1
    &&& end.2 == start.2
}

/// A request that ended in a state was completed, or waits to be polled.
pub open spec fn carried_out(
    start: QueueSide,
    end: QueueSide,
    state: IoState,
    r: core::result::Result<Queued, QueueRequestError>,
) -> bool {
    &&& end.0.storage@ == state.store
    &&& end.0.zoned@ == state.zones
    &&& crate::disk_storage::spare_state(end.1.page) == state.spare
    &&& end.2.grants == state.grants
    &&& if state.rq.poll {
        &&& r matches Ok(Queued::Polled)
        &&& end.1.poll_queue@.len() == start.1.poll_queue@.len() + 1
        &&& end.1.poll_queue@.drop_last() == start.1.poll_queue@
        &&& end.1.poll_queue@.last()@ == state.rq
    } else {
        &&& r matches Ok(Queued::Completed(c)) && c@ == start.0.completed(state.rq)
        &&& end.1.poll_queue@ == start.1.poll_queue@
    }
}

/// Outcome of a request that timed out.
#[derive(Clone, Copy, Debug, PartialEq, Eq, Structural)]
pub enum RequestTimeoutStatus {
    /// The request is complete.
    Completed,
    /// Look again later.
    RetryLater,
}

/// What becomes of a request that was polled.
pub enum PollOutcome {
    /// The batch took the request, with the information whether it failed.
    Batched(Request, bool),
    /// The request was ended.
    Ended(Completion),
}

/// The answer to a request: one that was refused fails with an I/O error.
pub open spec fn answered(
    outcome: core::result::Result<Queued, QueueRequestError>,
    r: BlkResult<Queued>,
) -> bool {
    match outcome {
        Ok(q) => r matches Ok(answer) && answer == q,
        Err(_) => r matches Err(e) && e.status() == BLK_STS_IOERR,
    }
}

/// The requests that were refused, in order.
pub open spec fn refused_requests(outcomes: Seq<QueueOutcome>) -> Seq<Request>
    decreases outcomes.len(),
{
    if outcomes.len() == 0 {
        Seq::empty()
    } else {
        let before = refused_requests(outcomes.drop_last());
        match outcomes.last().0 {
            Ok(_) => before,
            Err(error) => before.push(error.request),
        }
    }
}

/// What became of the requests that were not refused, in order.
pub open spec fn queued_requests(outcomes: Seq<QueueOutcome>) -> Seq<Queued>
    decreases outcomes.len(),
{
    if outcomes.len() == 0 {
        Seq::empty()
    } else {
        let before = queued_requests(outcomes.drop_last());
        match outcomes.last().0 {
            Ok(queued) => before.push(queued),
            Err(_) => before,
        }
    }
}

/// What the host has to do besides, request by request.
pub open spec fn actions_of(outcomes: Seq<QueueOutcome>) -> Seq<HostActions> {
    outcomes.map_values(|outcome: QueueOutcome| outcome.1)
}

/// What becomes of a request that is polled: the batch is asked to take it, else it is ended. Its
/// status is reset before.
pub open spec fn polled(rq: RequestState, taken: bool, outcome: PollOutcome) -> bool {
    if taken {
        outcome matches PollOutcome::Batched(done, failed) && done@ == rq.with_error(0) && failed
            == (rq.error != 0)
    } else {
        outcome matches PollOutcome::Ended(completion) && completion@ == ended(rq.with_error(0))
    }
}

impl NullBlkDevice {
    /// Queues a request, which fails with an I/O error where it is refused.
    pub fn queue_rq<L: FnOnce(u64, u64) -> (i32, u64, u64), G: FnOnce(u64, u64) -> bool>(
        &mut self,
        hw: &mut HwQueueContext,
        memory: &mut Memory,
        rq: Request,
        events: QueueEvents,
        lookup: L,
        clear: G,
    ) -> (r: (BlkResult<Queued>, HostActions))
        requires
            queue_ready((*old(self), *old(hw), *old(memory)), rq, events, lookup, clear),
        ensures
            exists|outcome: QueueOutcome|
                {
                    &&& #[trigger] queued(
                        (*old(self), *old(hw), *old(memory)),
                        rq,
                        events,
                        lookup,
                        clear,
                        (*final(self), *final(hw), *final(memory)),
                        outcome,
                    )
                    &&& answered(outcome.0, r.0)
                    &&& r.1 == outcome.1
                },
    {
        let outcome = self.queue_rq_internal(hw, memory, rq, events, lookup, clear);
        let ghost became = outcome;
        assert(queued(
            (*old(self), *old(hw), *old(memory)),
            rq,
            events,
            lookup,
            clear,
            (*self, *hw, *memory),
            became,
        ));
        let (queued, actions) = outcome;
        match queued {
            Ok(q) => {
                let r = Ok(q);
                assert(answered(became.0, r));
                (r, actions)
            },
            Err(e) => {
                proof {
                    crate::block::error::lemma_io_error();
                }
                (Err(BlkError::from(e)), actions)
            },
        }
    }

    /// Queues a list of requests, in order. The requests that are refused stay in the list. `events`
    /// holds what the host reports while each of them is queued. Returns what became of those that
    /// were not refused, and what the host has to do besides, request by request.
    pub fn queue_rqs<L: Fn(u64, u64) -> (i32, u64, u64), G: Fn(u64, u64) -> bool>(
        &mut self,
        hw: &mut HwQueueContext,
        memory: &mut Memory,
        requests: &mut RequestList<Request>,
        events: &[QueueEvents],
        lookup: &L,
        clear: &G,
    ) -> (r: (Vec<Queued>, Vec<HostActions>))
        requires
            events@.len() >= old(requests)@.len(),
            forall|k: int, mid: QueueSide, outcomes: Seq<QueueOutcome>|
                0 <= k < old(requests)@.len() && #[trigger] all_queued(
                    (*old(self), *old(hw), *old(memory)),
                    old(requests)@.take(k),
                    events@,
                    *lookup,
                    *clear,
                    mid,
                    outcomes,
                ) ==> queue_ready(mid, old(requests)@[k], events@[k], *lookup, *clear),
        ensures
            exists|outcomes: Seq<QueueOutcome>|
                {
                    &&& #[trigger] all_queued(
                        (*old(self), *old(hw), *old(memory)),
                        old(requests)@,
                        events@,
                        *lookup,
                        *clear,
                        (*final(self), *final(hw), *final(memory)),
                        outcomes,
                    )
                    &&& final(requests)@ == refused_requests(outcomes)
                    &&& r.0@ == queued_requests(outcomes)
                    &&& r.1@ == actions_of(outcomes)
                },
    {
        let mut requeue: RequestList<Request> = RequestList::new();
        let mut accepted: Vec<Queued> = Vec::new();
        let mut actions: Vec<HostActions> = Vec::new();
        let mut more: bool = true;
        let ghost start = (*self, *hw, *memory);
        let ghost all = requests@;
        let ghost mut outcomes: Seq<QueueOutcome> = Seq::empty();
        proof {
            assert(all.skip(0) =~= all);
            assert(all_queued(start, all.take(0), events@, *lookup, *clear, start, outcomes));
            assert(actions@ =~= actions_of(outcomes));
        }
        while more
            invariant
                events@.len() >= all.len(),
                forall|k: int, mid: QueueSide, outcomes: Seq<QueueOutcome>|
                    0 <= k < all.len() && #[trigger] all_queued(
                        start,
                        all.take(k),
                        events@,
                        *lookup,
                        *clear,
                        mid,
                        outcomes,
                    ) ==> queue_ready(mid, all[k], events@[k], *lookup, *clear),
                outcomes.len() <= all.len(),
                actions@.len() == outcomes.len(),
                requests@ == all.skip(outcomes.len() as int),
                all_queued(
                    start,
                    all.take(outcomes.len() as int),
                    events@,
                    *lookup,
                    *clear,
                    (*self, *hw, *memory),
                    outcomes,
                ),
                requeue@ == refused_requests(outcomes),
                accepted@ == queued_requests(outcomes),
                actions@ == actions_of(outcomes),
                !more ==> outcomes.len() == all.len(),
            decreases all.len() - outcomes.len() + (if more { 1int } else { 0int }),
        {
            match requests.pop() {
                Some(request) => {
                    let ghost k = outcomes.len() as int;
                    assert(request == all[k]);
                    let ghost mid = (*self, *hw, *memory);
                    let (outcome, action) = self.queue_rq_internal(
                        hw,
                        memory,
                        request,
                        events[actions.len()],
                        lookup,
                        clear,
                    );
                    proof {
                        let before = outcomes;
                        outcomes = outcomes.push((outcome, action));
                        assert(outcomes.drop_last() =~= before);
                        assert(all.take(k + 1).drop_last() =~= all.take(k));
                        assert(all_queued(
                            start,
                            all.take(k + 1).drop_last(),
                            events@,
                            *lookup,
                            *clear,
                            mid,
                            outcomes.drop_last(),
                        ));
                        assert(queued(
                            mid,
                            all.take(k + 1).last(),
                            events@[all.take(k + 1).len() - 1],
                            *lookup,
                            *clear,
                            (*self, *hw, *memory),
                            outcomes.last(),
                        ));
                        assert(all_queued(
                            start,
                            all.take(k + 1),
                            events@,
                            *lookup,
                            *clear,
                            (*self, *hw, *memory),
                            outcomes,
                        ));
                    }
                    actions.push(action);
                    assert(actions@ =~= actions_of(outcomes));
                    assert(requests@ =~= all.skip(outcomes.len() as int));
                    match outcome {
                        Ok(q) => {
                            accepted.push(q);
                        },
                        Err(error) => {
                            requeue.push_tail(error.request);
                        },
                    }
                },
                None => {
                    more = false;
                },
            }
        }
        assert(all.take(all.len() as int) =~= all);
        *requests = requeue;
        (accepted, actions)
    }

    /// Completes all requests that wait to be polled, oldest first. `taken` tells for each of them
    /// whether the batch of the host takes it. Returns true if there was any, and what becomes of
    /// them.
    pub fn poll(hw: &mut HwQueueContext, taken: &[bool]) -> (r: (bool, Vec<PollOutcome>))
        requires
            taken@.len() >= old(hw).poll_queue@.len(),
        ensures
            final(hw).poll_queue@ == Seq::<Request>::empty(),
            final(hw).page == old(hw).page,
            final(hw).poll_capacity == old(hw).poll_capacity,
            r.0 == (old(hw).poll_queue@.len() > 0),
            r.1@.len() == old(hw).poll_queue@.len(),
            forall|i: int|
                0 <= i < r.1@.len() ==> polled(
                    old(hw).poll_queue@[i]@,
                    taken@[i],
                    #[trigger] r.1@[i],
                ),
    {
        let mut outcomes: Vec<PollOutcome> = Vec::new();
        let mut completed: bool = false;
        let mut more: bool = true;
        let ghost all = hw.poll_queue@;
        assert(all.skip(0) =~= all);
        while more
            invariant
                taken@.len() >= all.len(),
                all == old(hw).poll_queue@,
                hw.page == old(hw).page,
                hw.poll_capacity == old(hw).poll_capacity,
                outcomes@.len() <= all.len(),
                hw.poll_queue@ == all.skip(outcomes@.len() as int),
                completed == (outcomes@.len() > 0),
                !more ==> outcomes@.len() == all.len(),
                forall|i: int|
                    0 <= i < outcomes@.len() ==> polled(
                        all[i]@,
                        taken@[i],
                        #[trigger] outcomes@[i],
                    ),
            decreases all.len() - outcomes@.len() + (if more { 1int } else { 0int }),
        {
            match hw.poll_queue.pop() {
                Some(mut rq) => {
                    let at: usize = outcomes.len();
                    let ghost given = rq;
                    assert(given == all[at as int]);
                    let status: u32 = rq.error;
                    rq.error = 0;
                    let ghost reset = rq@;
                    assert(reset =~= given@.with_error(0));
                    if taken[at] {
                        outcomes.push(PollOutcome::Batched(rq, status != 0));
                    } else {
                        outcomes.push(PollOutcome::Ended(Self::end_request(rq)));
                    }
                    assert(polled(all[at as int]@, taken@[at as int], outcomes@[at as int]));
                    completed = true;
                    assert(hw.poll_queue@ =~= all.skip(outcomes@.len() as int));
                },
                None => {
                    more = false;
                },
            }
        }
        assert(hw.poll_queue@ =~= Seq::<Request>::empty());
        (completed, outcomes)
    }

    /// Sets up a hardware queue; `fault` is an injected fault.
    pub fn init_hctx(queue_depth: u32, fault: bool) -> (r: Result<HwQueueContext>)
        ensures
            match r {
                Ok(hw) => {
                    &&& !fault
                    &&& hw.page is None
                    &&& hw.poll_queue@ == Seq::<Request>::empty()
                    &&& hw.poll_capacity == queue_depth
                },
                Err(e) => fault && e == Errno(EFAULT),
            },
    {
        if fault {
            return Err(Errno(EFAULT));
        }
        Ok(
            HwQueueContext {
                page: None,
                poll_queue: RequestList::new(),
                poll_capacity: queue_depth as usize,
            },
        )
    }

    /// Handles a request that timed out. Only requests that were left to time out fail; others will
    /// be completed normally. `sole` tells whether nobody else refers to the request.
    pub fn request_timeout(request: Option<Request>, sole: bool) -> (r: (
        RequestTimeoutStatus,
        Option<Completion>,
        Option<Request>,
    ))
        ensures
            match request {
                None => r.0 == RequestTimeoutStatus::RetryLater && r.1 is None && r.2 is None,
                Some(rq) => if rq.fake_timeout == 0 {
                    &&& r.0 == RequestTimeoutStatus::RetryLater
                    &&& r.1 is None
                    &&& r.2 matches Some(kept) && kept@ == rq@
                } else if sole {
                    &&& r.0 == RequestTimeoutStatus::Completed
                    &&& r.1 matches Some(completion) && completion@ == ended(timed_out(rq@))
                    &&& r.2 is None
                } else {
                    &&& r.0 == RequestTimeoutStatus::RetryLater
                    &&& r.1 is None
                    &&& r.2 matches Some(kept) && kept@ == timed_out(rq@)
                },
            },
    {
        match request {
            Some(mut rq) => {
                if rq.fake_timeout != 0 {
                    rq.error = BLK_STS_TIMEOUT as u32;
                    rq.fake_timeout = 0;
                    if sole {
                        return (RequestTimeoutStatus::Completed, Some(Self::end_request(rq)), None);
                    }
                }
                (RequestTimeoutStatus::RetryLater, None, Some(rq))
            },
            None => (RequestTimeoutStatus::RetryLater, None, None),
        }
    }

    /// Handles the end of a bandwidth interval. Returns whether the timer goes on, by how much its
    /// expiry is moved then, and whether the hardware queues that were stopped are started.
    pub fn run(&mut self) -> (r: (HrTimerRestart, Option<i64>, bool))
        ensures
            final(self).bandwidth_bytes == 0,
            final(self).same_settings(&*old(self)),
            final(self).storage == old(self).storage,
            final(self).zoned == old(self).zoned,
            final(self).requeue_selector == old(self).requeue_selector,
            r == (if old(self).bandwidth_bytes == 0 {
                (HrTimerRestart::NoRestart, None, false)
            } else {
                (HrTimerRestart::Restart, Some(BANDWIDTH_TIMER_INTERVAL), true)
            }),
    {
        if self.bandwidth_bytes == 0 {
            return (HrTimerRestart::NoRestart, None, false);
        }
        self.bandwidth_bytes = 0;
        (HrTimerRestart::Restart, Some(BANDWIDTH_TIMER_INTERVAL), true)
    }

    /// Handles the end of the completion time of a request, which succeeds.
    pub fn run_completion(rq: Request) -> (r: (HrTimerRestart, Completion))
        ensures
            r.0 == HrTimerRestart::NoRestart,
            r.1@ == CompletionState::Ended(rq@, BLK_STS_OK),
    {
        (HrTimerRestart::NoRestart, Completion::Ended(rq, BLK_STS_OK))
    }
}

/// A request that was left to time out, when it does.
pub open spec fn timed_out(rq: RequestState) -> RequestState {
    RequestState { error: BLK_STS_TIMEOUT as u32, fake_timeout: 0, ..rq }
}

} // verus!
