//! Laws on what a request that is queued comes to.

use crate::block::mq::command::Command;
use crate::block::mq::request::{Request, RequestState};
use crate::device::io::{io_state, IoConfig, IoState, Verdict};
use crate::device::queue::{
    CompletionState, HwQueueContext, QueueEvents, QueueOutcome, QueueRequestError, Queued,
};
use crate::device::{Memory, NullBlkDevice};
use crate::error::Result;
use crate::laws::requests::let_in;
use crate::laws::storage::regular_rightly;
use crate::laws::zone_commands::{
    all_reset, conventional_rightly, managed_rightly, read_rightly,
};
use crate::laws::zones::{holds, written_rightly};
use crate::zoned::ZoneType;
use vstd::prelude::*;

verus! {

/// The request as it comes out of the queue: completed, on its way to be completed, or waiting to be
/// polled.
pub open spec fn came_out(
    r: core::result::Result<Queued, QueueRequestError>,
    hw: HwQueueContext,
) -> RequestState {
    match r {
        Ok(Queued::Completed(completion)) => match completion@ {
            CompletionState::Ended(rq, _) => rq,
            CompletionState::Remote(rq) => rq,
            CompletionState::Timer(rq, _) => rq,
        },
        _ => hw.poll_queue@.last()@,
    }
}

/// The request failed: it was ended with a status other than zero, or an error is noted in it.
pub open spec fn failed(
    r: core::result::Result<Queued, QueueRequestError>,
    hw: HwQueueContext,
) -> bool {
    match r {
        Ok(Queued::Completed(completion)) => match completion@ {
            CompletionState::Ended(_, status) => status != 0,
            CompletionState::Remote(rq) => rq.error != 0,
            CompletionState::Timer(rq, _) => rq.error != 0,
        },
        _ => hw.poll_queue@.last()@.error != 0,
    }
}

/// A request came to an outcome: storage and zones are those of the state, the memory of the request
/// holds what the state says, and it failed exactly if the outcome is an error or one was noted in
/// it.
pub open spec fn came_to(
    state: IoState,
    outcome: Result<()>,
    device: NullBlkDevice,
    hw: HwQueueContext,
    r: core::result::Result<Queued, QueueRequestError>,
) -> bool {
    &&& device.storage@ == state.store
    &&& device.zoned@ == state.zones
    &&& came_out(r, hw).segs == state.rq.segs
    &&& came_out(r, hw).sector == state.rq.sector
    &&& came_out(r, hw).command == state.rq.command
    &&& failed(r, hw) == (outcome is Err || state.rq.error != 0)
}

/// An outcome is right for a request: without zones it is that of the request itself, with zones that
/// of a write, a read or a zone command for the zone that holds its sector.
pub open spec fn served_rightly(
    before: IoState,
    config: IoConfig,
    after: IoState,
    outcome: Result<()>,
) -> bool {
    if !before.zones.enabled {
        regular_rightly(before, config, after)
    } else if before.rq.command == Command::ZoneResetAll {
        &&& outcome is Ok
        &&& after.zones.zones.len() == before.zones.zones.len()
        &&& forall|i: int|
            0 <= i < before.zones.zones.len() ==> #[trigger] all_reset(before, after, i)
    } else {
        forall|no: int|
            0 <= no < before.zones.zones.len() && #[trigger] holds(
                before.zones.zones[no],
                before.rq.sector as int,
            ) ==> match before.rq.command {
                Command::Write | Command::ZoneAppend => {
                    &&& before.zones.zones[no].kind != ZoneType::Conventional ==> written_rightly(
                        before,
                        config,
                        no,
                        after,
                        outcome,
                    )
                    &&& before.zones.zones[no].kind == ZoneType::Conventional
                        ==> conventional_rightly(before, config, no, after, outcome)
                },
                Command::Read => read_rightly(before, config, no, after, outcome),
                Command::ZoneOpen
                | Command::ZoneClose
                | Command::ZoneFinish
                | Command::ZoneReset => managed_rightly(before, no, after, outcome),
                _ => true,
            }
    }
}

proof fn lemma_served_rightly(s: IoState, config: IoConfig, v: Verdict)
    requires
        s.inv(),
        s.zones.can_count_closed(),
        0 < config.block_size <= 4096,
        !config.bad_blocks,
        s.checked_from() is Some ==> v == (Verdict {
            error: false,
            sectors: s.rq.sectors,
            result: Ok(()),
        }),
    ensures
        served_rightly(s, config, s.processed(config, v).0, s.processed(config, v).1),
{
    if !s.zones.enabled {
        crate::laws::storage::lemma_regular_rightly(s, config);
    } else if s.rq.command == Command::ZoneResetAll {
        crate::laws::zone_commands::lemma_all_reset(s);
    } else {
        let (after, outcome) = s.processed(config, v);
        assert forall|no: int|
            0 <= no < s.zones.zones.len() && #[trigger] holds(
                s.zones.zones[no],
                s.rq.sector as int,
            ) implies match s.rq.command {
            Command::Write | Command::ZoneAppend => {
                &&& s.zones.zones[no].kind != ZoneType::Conventional ==> written_rightly(
                    s,
                    config,
                    no,
                    after,
                    outcome,
                )
                &&& s.zones.zones[no].kind == ZoneType::Conventional ==> conventional_rightly(
                    s,
                    config,
                    no,
                    after,
                    outcome,
                )
            },
            Command::Read => read_rightly(s, config, no, after, outcome),
            Command::ZoneOpen
            | Command::ZoneClose
            | Command::ZoneFinish
            | Command::ZoneReset => managed_rightly(s, no, after, outcome),
            _ => true,
        } by {
            match s.rq.command {
                Command::Write | Command::ZoneAppend => {
                    if s.zones.zones[no].kind != ZoneType::Conventional {
                        crate::laws::zones::lemma_written_rightly(s, config, v, no);
                    } else {
                        crate::laws::zone_commands::lemma_conventional_rightly(s, config, v, no);
                    }
                },
                Command::Read => {
                    crate::laws::zone_commands::lemma_read_rightly(s, config, v, no);
                },
                _ => {
                    crate::laws::zone_commands::lemma_managed_rightly(s, no);
                },
            }
        }
    }
}

/// A request that is let in without faults, on a device without bad blocks, is served: reads and
/// writes move its data, discards free its blocks, and on a zoned device it is a write, a read or a
/// command for the zone that holds its sector.
pub proof fn lemma_served<
    L: FnOnce(u64, u64) -> (i32, u64, u64),
    G: FnOnce(u64, u64) -> bool,
>(rq: Request, events: QueueEvents, lookup: L, clear: G)
    requires
        !events.timeout_fault,
        rq.command != Command::Flush,
    ensures
        forall|
            device: &mut NullBlkDevice,
            hw: &mut HwQueueContext,
            memory: &mut Memory,
            r: QueueOutcome,
        |
            #[trigger] call_ensures(
                NullBlkDevice::queue_rq_internal::<L, G>,
                (device, hw, memory, rq, events, lookup, clear),
                r,
            ) && let_in(r.0) && device.inv() && device.zoned@.can_count_closed()
                && !device.bad_blocks.is_enabled() && io_state(*device, hw.page, *memory, rq).inv()
                ==> exists|after: IoState, outcome: Result<()>|
                {
                    &&& #[trigger] served_rightly(
                        io_state(*device, hw.page, *memory, rq),
                        device.config(),
                        after,
                        outcome,
                    )
                    &&& came_to(after, outcome, *final(device), *final(hw), r.0)
                },
{
    assert forall|
        device: &mut NullBlkDevice,
        hw: &mut HwQueueContext,
        memory: &mut Memory,
        r: QueueOutcome,
    |
        #[trigger] call_ensures(
            NullBlkDevice::queue_rq_internal::<L, G>,
            (device, hw, memory, rq, events, lookup, clear),
            r,
        ) && let_in(r.0) && device.inv() && device.zoned@.can_count_closed()
            && !device.bad_blocks.is_enabled() && io_state(
            *device,
            hw.page,
            *memory,
            rq,
        ).inv() implies exists|after: IoState, outcome: Result<()>|
        {
            &&& #[trigger] served_rightly(
                io_state(*device, hw.page, *memory, rq),
                device.config(),
                after,
                outcome,
            )
            &&& came_to(after, outcome, *final(device), *final(hw), r.0)
        } by {
        let s = io_state(*device, hw.page, *memory, rq);
        let config = device.config();
        let v = choose|v: Verdict|
            {
                &&& s.checked_from() matches Some(from) ==> crate::device::io::judged(
                    config,
                    from,
                    rq.sectors,
                    lookup,
                    clear,
                    v,
                )
                &&& crate::device::queue::carried_out(
                    (*device, *hw, *memory),
                    (*final(device), *final(hw), *final(memory)),
                    crate::device::queue::done(#[trigger] s.processed(config, v)),
                    r.0,
                )
            };
        lemma_served_rightly(s, config, v);
        let (after, outcome) = s.processed(config, v);
        assert(served_rightly(s, config, after, outcome));
        assert(came_to(after, outcome, *final(device), *final(hw), r.0));
    }
}

/// A flush that is let in without faults empties the cache of a device that keeps data, changes
/// nothing of what is read, and succeeds unless an error was noted before.
pub proof fn lemma_flush_served<
    L: FnOnce(u64, u64) -> (i32, u64, u64),
    G: FnOnce(u64, u64) -> bool,
>(rq: Request, events: QueueEvents, lookup: L, clear: G, sector: u64)
    requires
        !events.timeout_fault,
        rq.command == Command::Flush,
    ensures
        forall|
            device: &mut NullBlkDevice,
            hw: &mut HwQueueContext,
            memory: &mut Memory,
            r: QueueOutcome,
        |
            #[trigger] call_ensures(
                NullBlkDevice::queue_rq_internal::<L, G>,
                (device, hw, memory, rq, events, lookup, clear),
                r,
            ) && let_in(r.0) && device.inv() ==> {
                &&& r.0 matches Ok(Queued::Completed(_))
                &&& failed(r.0, *final(hw)) == (rq.error != 0)
                &&& final(device).zoned@ == device.zoned@
                &&& final(device).storage@.read_bytes(sector) == device.storage@.read_bytes(sector)
                &&& device.memory_backed && device.storage@.cache_size > 0 ==> forall|i: usize|
                    !#[trigger] final(device).storage@.cache.contains_key(i)
                &&& !device.memory_backed ==> final(device).storage@ == device.storage@
            },
{
    assert forall|
        device: &mut NullBlkDevice,
        hw: &mut HwQueueContext,
        memory: &mut Memory,
        r: QueueOutcome,
    |
        #[trigger] call_ensures(
            NullBlkDevice::queue_rq_internal::<L, G>,
            (device, hw, memory, rq, events, lookup, clear),
            r,
        ) && let_in(r.0) && device.inv() implies {
        &&& r.0 matches Ok(Queued::Completed(_))
        &&& failed(r.0, *final(hw)) == (rq.error != 0)
        &&& final(device).zoned@ == device.zoned@
        &&& final(device).storage@.read_bytes(sector) == device.storage@.read_bytes(sector)
        &&& device.memory_backed && device.storage@.cache_size > 0 ==> forall|i: usize|
            !#[trigger] final(device).storage@.cache.contains_key(i)
        &&& !device.memory_backed ==> final(device).storage@ == device.storage@
    } by {
        if device.storage@.cache_size > 0 {
            crate::disk_storage::lemma_flush_keeps_content(device.storage@, sector);
        }
        let end = io_state(*final(device), final(hw).page, *final(memory), rq);
        assert(end.store == final(device).storage@);
    }
}

} // verus!
