//! Laws on queueing, throttling, completing and polling requests.

use crate::block::error::BlkResult;
use crate::block::mq::command::Command;
use crate::block::mq::request::{Request, RequestState};
use crate::configfs::IRQMode;
use crate::device::io::{IoConfig, IoState, Verdict};
use crate::device::queue::{
    Completion, CompletionState, HostActions, HwQueueContext, PollOutcome, QueueEvents, QueueOutcome,
    QueueRequestError, Queued, RequestTimeoutStatus,
};
use crate::device::{Memory, NullBlkDevice};
use crate::hrtimer::HrTimerRestart;
use vstd::prelude::*;

verus! {

/// A request was let in: it was neither refused nor sent back to the queue.
pub open spec fn let_in(r: core::result::Result<Queued, QueueRequestError>) -> bool {
    match r {
        Ok(Queued::Requeued(_)) => false,
        Ok(_) => true,
        Err(_) => false,
    }
}

/// What a request may do to the number of bytes of an interval: it does not lower it, and a request
/// that is let in is counted and leaves it within the limit.
pub open spec fn counted_within(limit: int, before: int, bytes: int, entered: bool, after: int) -> bool {
    &&& before <= after
    &&& entered ==> before + bytes <= after <= limit
}

/// Whether a request is let in by a device with a bandwidth limit depends on the bytes of the
/// interval alone, whether the timer runs or not: it is let in exactly if its bytes fit in what is
/// left of the limit. A request that is not is refused as it came, nothing is stored, and the
/// hardware queues are stopped.
pub proof fn lemma_bandwidth_gate<
    L: FnOnce(u64, u64) -> (i32, u64, u64),
    G: FnOnce(u64, u64) -> bool,
>(rq: Request, events: QueueEvents, lookup: L, clear: G)
    ensures
        forall|
            device: &mut NullBlkDevice,
            hw: &mut HwQueueContext,
            memory: &mut Memory,
            r: QueueOutcome,
        |
            #[trigger] call_ensures(
                NullBlkDevice::queue_rq_internal::<L, G>,
                (device, hw, memory, rq, events, lookup, clear),
                r,
            ) && device.bandwidth_limit != 0 && device.bandwidth_bytes + rq.bytes <= u64::MAX ==> {
                let fits = device.bandwidth_bytes + rq.bytes <= device.bandwidth_limit;
                &&& counted_within(
                    device.bandwidth_limit as int,
                    device.bandwidth_bytes as int,
                    rq.bytes as int,
                    let_in(r.0),
                    final(device).bandwidth_bytes as int,
                )
                &&& final(device).bandwidth_limit == device.bandwidth_limit
                &&& !events.requeue_fault ==> {
                    &&& let_in(r.0) == fits
                    &&& r.1.stop_queues == !fits
                    &&& r.1.start_timer == (if events.timer_active {
                        None
                    } else {
                        Some(20_000_000i64)
                    })
                    &&& !fits ==> {
                        &&& r.0 matches Err(e) && e.request@ == rq@
                        &&& final(device).storage == device.storage
                        &&& final(device).zoned == device.zoned
                        &&& *final(hw) == *hw && *final(memory) == *memory
                        &&& r.1.restart_queues == (events.reloaded_bytes
                            <= device.bandwidth_limit)
                    }
                }
            },
{
}

/// A device without a bandwidth limit throttles no request, asks for no timer and stops no queue.
pub proof fn lemma_unlimited<
    L: FnOnce(u64, u64) -> (i32, u64, u64),
    G: FnOnce(u64, u64) -> bool,
>(rq: Request, events: QueueEvents, lookup: L, clear: G)
    ensures
        forall|
            device: &mut NullBlkDevice,
            hw: &mut HwQueueContext,
            memory: &mut Memory,
            r: QueueOutcome,
        |
            #[trigger] call_ensures(
                NullBlkDevice::queue_rq_internal::<L, G>,
                (device, hw, memory, rq, events, lookup, clear),
                r,
            ) && device.bandwidth_limit == 0 ==> {
                &&& let_in(r.0) == !events.requeue_fault
                &&& r.1.start_timer is None && !r.1.stop_queues && !r.1.restart_queues
                &&& final(device).bandwidth_bytes == device.bandwidth_bytes
            },
{
}

/// The block layer is told of a request that is not let in: it gets an I/O error for one that exceeds
/// the bandwidth of the interval, and for no other one without faults.
pub proof fn lemma_refusal<
    L: FnOnce(u64, u64) -> (i32, u64, u64),
    G: FnOnce(u64, u64) -> bool,
>(rq: Request, events: QueueEvents, lookup: L, clear: G)
    ensures
        forall|
            device: &mut NullBlkDevice,
            hw: &mut HwQueueContext,
            memory: &mut Memory,
            r: (BlkResult<Queued>, HostActions),
        |
            #[trigger] call_ensures(
                NullBlkDevice::queue_rq::<L, G>,
                (device, hw, memory, rq, events, lookup, clear),
                r,
            ) && device.bandwidth_bytes + rq.bytes <= u64::MAX ==> {
                &&& r.0 matches Err(e) ==> e.status() == 10
                &&& !events.requeue_fault ==> ((r.0 is Err) == (device.bandwidth_limit != 0
                    && device.bandwidth_bytes + rq.bytes > device.bandwidth_limit))
                &&& !events.requeue_fault ==> r.1.stop_queues == (r.0 is Err)
            },
{
}

/// Number of bytes of the requests that were let in.
pub open spec fn bytes_let_in(bytes: Seq<int>, entered: Seq<bool>) -> int
    decreases bytes.len(),
{
    if bytes.len() == 0 {
        0
    } else {
        bytes_let_in(bytes.drop_last(), entered.drop_last()) + if entered.last() {
            bytes.last()
        } else {
            0
        }
    }
}

/// Between two expiries of the bandwidth timer the bytes of the requests that are let in add up to
/// no more than the limit. `counts` holds the number of bytes of the interval before each request and
/// after the last.
pub proof fn lemma_interval(limit: int, counts: Seq<int>, bytes: Seq<int>, entered: Seq<bool>)
    requires
        0 <= limit,
        counts.len() == bytes.len() + 1,
        entered.len() == bytes.len(),
        counts[0] >= 0,
        forall|i: int| 0 <= i < bytes.len() ==> 0 <= #[trigger] bytes[i],
        forall|i: int|
            0 <= i < bytes.len() ==> counted_within(
                limit,
                counts[i],
                bytes[i],
                #[trigger] entered[i],
                counts[i + 1],
            ),
    ensures
        bytes_let_in(bytes, entered) <= limit,
        bytes_let_in(bytes, entered) <= counts.last() - counts[0],
        counts[0] <= counts.last(),
    decreases bytes.len(),
{
    if bytes.len() > 0 {
        let n = bytes.len() - 1;
        let before = counts.drop_last();
        assert(entered.last() == entered[n]);
        assert forall|i: int| 0 <= i < n implies counted_within(
            limit,
            before[i],
            bytes.drop_last()[i],
            #[trigger] entered.drop_last()[i],
            before[i + 1],
        ) by {
            assert(entered.drop_last()[i] == entered[i]);
        }
        assert forall|i: int| 0 <= i < n implies 0 <= #[trigger] bytes.drop_last()[i] by {
            assert(bytes.drop_last()[i] == bytes[i]);
        }
        lemma_interval(limit, before, bytes.drop_last(), entered.drop_last());
    }
}

/// The end of a bandwidth interval starts the next one from nothing: as many bytes as the limit can
/// be let in again. The timer goes on, and stopped queues are started, exactly if there was a request
/// in the interval.
pub proof fn lemma_interval_ends()
    ensures
        forall|device: &mut NullBlkDevice, r: (HrTimerRestart, Option<i64>, bool)|
            #[trigger] call_ensures(NullBlkDevice::run, (device,), r) ==> {
                let used = device.bandwidth_bytes > 0;
                &&& final(device).bandwidth_bytes == 0
                &&& final(device).bandwidth_limit == device.bandwidth_limit
                &&& r.0 == (if used {
                    HrTimerRestart::Restart
                } else {
                    HrTimerRestart::NoRestart
                })
                &&& r.1 == (if used {
                    Some(20_000_000i64)
                } else {
                    None
                })
                &&& r.2 == used
                &&& final(device).storage == device.storage && final(device).zoned == device.zoned
            },
{
}

/// Of two requeue faults that follow each other one refuses its request and the other one sends it
/// back to the queue; the requests are as they came, and nothing is stored.
pub proof fn lemma_faults_alternate<
    L: FnOnce(u64, u64) -> (i32, u64, u64),
    G: FnOnce(u64, u64) -> bool,
>(a: Request, b: Request, first: QueueEvents, second: QueueEvents, lookup: L, clear: G)
    requires
        first.requeue_fault && second.requeue_fault,
    ensures
        forall|
            d: &mut NullBlkDevice,
            h: &mut HwQueueContext,
            m: &mut Memory,
            r: QueueOutcome,
            e: &mut NullBlkDevice,
            i: &mut HwQueueContext,
            n: &mut Memory,
            s: QueueOutcome,
        |
            #[trigger] call_ensures(
                NullBlkDevice::queue_rq_internal::<L, G>,
                (d, h, m, a, first, lookup, clear),
                r,
            ) && #[trigger] call_ensures(
                NullBlkDevice::queue_rq_internal::<L, G>,
                (e, i, n, b, second, lookup, clear),
                s,
            ) && e.requeue_selector == final(d).requeue_selector ==> {
                &&& (r.0 is Err) != (s.0 is Err)
                &&& match r.0 {
                    Err(error) => error.request@ == a@,
                    Ok(queued) => queued matches Queued::Requeued(rq) && rq@ == a@,
                }
                &&& match s.0 {
                    Err(error) => error.request@ == b@,
                    Ok(queued) => queued matches Queued::Requeued(rq) && rq@ == b@,
                }
                &&& final(d).storage == d.storage && final(d).zoned == d.zoned
                &&& final(d).bandwidth_bytes == d.bandwidth_bytes
            },
{
    assert forall|x: u64, y: u64|
        y == (if x == u64::MAX {
            0
        } else {
            (x + 1) as u64
        }) implies (#[trigger] (x & 1) == 0) != (#[trigger] (y & 1) == 0) by {
        assert((x & 1 == 0) != (y & 1 == 0)) by (bit_vector)
            requires
                y == (if x == 0xffff_ffff_ffff_ffff {
                    0
                } else {
                    (x + 1) as u64
                }),
        ;
    }
}

/// A request that is ended fails exactly if an error was noted in it, with the status of an I/O
/// error; nothing else of it changes but for the note, which is gone.
pub open spec fn ended_rightly(rq: RequestState, completion: CompletionState) -> bool {
    completion matches CompletionState::Ended(done, status) && {
        &&& status == 0 <==> rq.error == 0
        &&& status == 0 || status == 10
        &&& done == (RequestState { error: 0, ..rq })
    }
}

/// Requests are completed in the way that the device is configured for: at once, on the processor
/// that submitted them, or by a timer after the completion time; and where they are completed, they
/// fail exactly if an error was noted.
pub proof fn lemma_completion(device: &NullBlkDevice, rq: Request)
    ensures
        forall|completion: Completion|
            #[trigger] call_ensures(NullBlkDevice::complete_request, (device, rq), completion)
                ==> match device.irq_mode {
                IRQMode::Immediate => ended_rightly(rq@, completion@),
                IRQMode::Soft => completion@ == CompletionState::Remote(rq@),
                IRQMode::Timer => completion@ == CompletionState::Timer(
                    rq@,
                    device.completion_time,
                ),
            },
        forall|completion: Completion|
            #[trigger] call_ensures(NullBlkDevice::complete, (rq,), completion) ==> ended_rightly(
                rq@,
                completion@,
            ),
        forall|completion: Completion|
            #[trigger] call_ensures(NullBlkDevice::end_request, (rq,), completion)
                ==> ended_rightly(rq@, completion@),
        forall|r: (HrTimerRestart, Completion)|
            #[trigger] call_ensures(NullBlkDevice::run_completion, (rq,), r) ==> r.0
                == HrTimerRestart::NoRestart && r.1@ == CompletionState::Ended(rq@, 0),
{
}

/// A request that is let in while a timeout fault is injected is not carried out: it is marked and
/// nothing else happens. When it times out it fails, and is completed once nobody else refers to it;
/// a request that was not marked is left alone.
pub proof fn lemma_timeouts<
    L: FnOnce(u64, u64) -> (i32, u64, u64),
    G: FnOnce(u64, u64) -> bool,
>(rq: Request, events: QueueEvents, lookup: L, clear: G, sole: bool)
    ensures
        events.timeout_fault ==> forall|
            device: &mut NullBlkDevice,
            hw: &mut HwQueueContext,
            memory: &mut Memory,
            r: QueueOutcome,
        |
            #[trigger] call_ensures(
                NullBlkDevice::queue_rq_internal::<L, G>,
                (device, hw, memory, rq, events, lookup, clear),
                r,
            ) && let_in(r.0) ==> {
                &&& r.0 matches Ok(Queued::TimedOut(marked)) && marked.fake_timeout != 0 && rq@
                    == (RequestState { fake_timeout: rq.fake_timeout, ..marked@ })
                &&& final(device).storage == device.storage
                &&& final(device).zoned == device.zoned
                &&& *final(hw) == *hw && *final(memory) == *memory
            },
        !events.timeout_fault ==> forall|
            device: &mut NullBlkDevice,
            hw: &mut HwQueueContext,
            memory: &mut Memory,
            r: QueueOutcome,
        |
            #[trigger] call_ensures(
                NullBlkDevice::queue_rq_internal::<L, G>,
                (device, hw, memory, rq, events, lookup, clear),
                r,
            ) ==> !(r.0 matches Ok(Queued::TimedOut(_))),
        forall|r: (RequestTimeoutStatus, Option<Completion>, Option<Request>)|
            #[trigger] call_ensures(NullBlkDevice::request_timeout, (Some(rq), sole), r) ==> {
                let fails = rq.fake_timeout != 0;
                &&& r.0 == (if fails && sole {
                    RequestTimeoutStatus::Completed
                } else {
                    RequestTimeoutStatus::RetryLater
                })
                &&& r.1 is Some <==> fails && sole
                &&& r.2 is Some <==> !(fails && sole)
                &&& r.1 matches Some(completion) ==> (completion@ matches CompletionState::Ended(
                    done,
                    status,
                ) && status == 10 && done.command == rq.command && done.sector == rq.sector)
                &&& r.2 matches Some(kept) ==> {
                    &&& !fails ==> kept@ == rq@
                    &&& fails ==> kept.error != 0 && kept.fake_timeout == 0 && kept.sector
                        == rq.sector && kept.command == rq.command
                }
            },
{
}

/// A request that was let in and carried out was handed to completion, unless it is polled for: then
/// it waits behind the others.
pub open spec fn handed_on(
    rq: Request,
    before: HwQueueContext,
    after: HwQueueContext,
    r: core::result::Result<Queued, QueueRequestError>,
) -> bool {
    if rq.poll {
        &&& r matches Ok(Queued::Polled)
        &&& after.poll_queue@.len() == before.poll_queue@.len() + 1
        &&& after.poll_queue@.drop_last() == before.poll_queue@
        &&& crate::laws::frames::same_request(after.poll_queue@.last()@, rq@)
    } else {
        &&& r matches Ok(Queued::Completed(completion))
        &&& after.poll_queue@ == before.poll_queue@
        &&& crate::laws::frames::same_request(
            match completion@ {
                CompletionState::Ended(done, _) => done,
                CompletionState::Remote(done) => done,
                CompletionState::Timer(done, _) => done,
            },
            rq@,
        )
    }
}

/// A request that is let in without faults is carried out and, unless it is polled for, handed to
/// completion: none gets lost, none is completed twice, and only requests that are polled for wait.
pub proof fn lemma_carried_out<
    L: FnOnce(u64, u64) -> (i32, u64, u64),
    G: FnOnce(u64, u64) -> bool,
>(rq: Request, events: QueueEvents, lookup: L, clear: G)
    requires
        !events.timeout_fault,
        rq.command != Command::Flush,
    ensures
        forall|
            device: &mut NullBlkDevice,
            hw: &mut HwQueueContext,
            memory: &mut Memory,
            r: QueueOutcome,
        |
            #[trigger] call_ensures(
                NullBlkDevice::queue_rq_internal::<L, G>,
                (device, hw, memory, rq, events, lookup, clear),
                r,
            ) && let_in(r.0) ==> handed_on(rq, *hw, *final(hw), r.0),
{
    assert forall|s: IoState, config: IoConfig, v: Verdict| crate::laws::frames::same_request(
        (#[trigger] s.processed(config, v)).0.rq,
        s.rq,
    ) by {
        crate::laws::frames::lemma_processed_frame(s, config, v);
    }
}

/// All requests that wait to be polled leave the queue, oldest first and each once. The batch of the
/// host gets those that it takes, with the information whether they failed; the others are ended.
pub proof fn lemma_polled(taken: &[bool])
    ensures
        forall|hw: &mut HwQueueContext, r: (bool, Vec<PollOutcome>)|
            #[trigger] call_ensures(NullBlkDevice::poll, (hw, taken), r) ==> {
                &&& final(hw).poll_queue@.len() == 0
                &&& r.1@.len() == hw.poll_queue@.len()
                &&& r.0 == (hw.poll_queue@.len() > 0)
                &&& forall|i: int|
                    0 <= i < hw.poll_queue@.len() ==> polled_rightly(
                        hw.poll_queue@[i]@,
                        taken@[i],
                        #[trigger] r.1@[i],
                    )
            },
{
    assert forall|hw: &mut HwQueueContext, r: (bool, Vec<PollOutcome>)|
        #[trigger] call_ensures(NullBlkDevice::poll, (hw, taken), r) implies {
        &&& final(hw).poll_queue@.len() == 0
        &&& r.1@.len() == hw.poll_queue@.len()
        &&& r.0 == (hw.poll_queue@.len() > 0)
        &&& forall|i: int|
            0 <= i < hw.poll_queue@.len() ==> polled_rightly(
                hw.poll_queue@[i]@,
                taken@[i],
                #[trigger] r.1@[i],
            )
    } by {
        assert forall|i: int| 0 <= i < hw.poll_queue@.len() implies polled_rightly(
            hw.poll_queue@[i]@,
            taken@[i],
            #[trigger] r.1@[i],
        ) by {
            assert(crate::device::queue::polled(hw.poll_queue@[i]@, taken@[i], r.1@[i]));
        }
    }
}

/// What becomes of a request that was polled.
pub open spec fn polled_rightly(rq: RequestState, taken: bool, outcome: PollOutcome) -> bool {
    match outcome {
        PollOutcome::Batched(done, failed) => {
            &&& taken
            &&& failed == (rq.error != 0)
            &&& done@ == (RequestState { error: 0, ..rq })
        },
        PollOutcome::Ended(completion) => {
            &&& !taken
            &&& completion@ matches CompletionState::Ended(done, _) && done == (RequestState {
                error: 0,
                ..rq
            })
        },
    }
}

} // verus!
