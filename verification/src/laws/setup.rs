//! Laws on bad blocks, on batches of requests and on new devices.

use crate::block::mq::gen_disk::QueueLimits;
use crate::block::mq::request::{Request, RequestState};
use crate::block::mq::request_list::RequestList;
use crate::block::mq::tag_set::{QueueMap, TagSet};
use crate::configfs::DeviceConfig;
use crate::device::io::IoConfig;
use crate::device::queue::{
    HostActions, HwQueueContext, QueueEvents, QueueOutcome, QueueSide, Queued,
};
use crate::device::setup::{
    NotCreated, NullBlkDisk, NullBlkOptions, NullBlkSettings, NullBlkTagsetData, TagRequest,
};
use crate::device::{Memory, NullBlkDevice};
use crate::error::{Errno, Result, EINVAL};
use vstd::prelude::*;

verus! {

/// What is transferred of a request for the sectors from `start` on in which the first bad one is
/// `first_bad`: nothing, or, where partial transfers are wanted, all blocks before the one that holds
/// the bad sector; a request whose first block holds it is not limited.
pub open spec fn stops_before_bad(
    config: IoConfig,
    start: int,
    sectors: int,
    first_bad: int,
    transferred: int,
) -> bool {
    let unit = config.block_size as int / 512;
    let block = first_bad - first_bad % unit;
    if !config.bad_blocks_partial_io {
        transferred == 0
    } else if start < block {
        &&& start + transferred <= first_bad
        &&& (start + transferred) % unit == 0
        &&& first_bad < start + transferred + unit
    } else {
        transferred == sectors
    }
}

proof fn lemma_limited(config: IoConfig, start: u64, sectors: u32, first_bad: u64, end: u64)
    requires
        crate::block::mq::gen_disk::valid_block_size(config.block_size),
        first_bad < start + sectors,
    ensures
        stops_before_bad(
            config,
            start as int,
            sectors as int,
            first_bad as int,
            crate::device::io::limited_sectors(
                config,
                start,
                sectors,
                crate::block::badblocks::SectorRange { start: first_bad, end },
            ) as int,
        ),
{
    let unit = config.block_size as int / 512;
    crate::util::lemma_rounding(first_bad as int, unit);
    vstd::arithmetic::div_mod::lemma_fundamental_div_mod(first_bad as int, unit);
    let q = first_bad as int / unit;
    assert(q * unit == unit * q) by (nonlinear_arith);
}

/// A request that hits bad sectors fails and transfers nothing of them, and one that does not is left
/// alone. Where bad blocks are to become good when they are hit, the host is asked to clear the bad
/// sectors that were found, no more and no less.
pub proof fn lemma_bad_blocks<
    L: FnOnce(u64, u64) -> (i32, u64, u64),
    G: FnOnce(u64, u64) -> bool,
>(device: NullBlkDevice, lookup: L, clear: G, status: i32, first_bad: u64, count: u64)
    requires
        device.inv(),
        first_bad + count <= u64::MAX,
    ensures
        forall|rq: &mut Request, sectors: &mut u32, r: Result<()>|
            #[trigger] call_ensures(
                NullBlkDevice::handle_bad_blocks::<L, G>,
                (&device, rq, sectors, lookup, clear),
                r,
            ) && (forall|answer: (i32, u64, u64)| #[trigger]
                call_ensures(lookup, (rq.sector, *sectors as u64), answer) ==> answer == (
                    status,
                    first_bad,
                    count,
                )) ==> {
                let hit = device.bad_blocks.is_enabled() && (status == 1 || status == -1);
                &&& !hit ==> r is Ok && final(rq)@ == rq@ && *final(sectors) == *sectors
                &&& hit ==> final(rq)@ == (RequestState { error: 10, ..rq@ })
                &&& hit && !device.bad_blocks_once ==> r is Ok
                &&& hit && device.bad_blocks_once ==> call_ensures(
                    clear,
                    (first_bad, count),
                    r is Ok,
                )
                &&& r matches Err(e) ==> e == Errno(EINVAL)
                &&& hit && r is Ok && first_bad < rq.sector + *sectors ==> stops_before_bad(
                    device.config(),
                    rq.sector as int,
                    *sectors as int,
                    first_bad as int,
                    *final(sectors) as int,
                )
            },
{
    assert forall|rq: &mut Request, sectors: &mut u32, r: Result<()>|
        #[trigger] call_ensures(
            NullBlkDevice::handle_bad_blocks::<L, G>,
            (&device, rq, sectors, lookup, clear),
            r,
        ) && (forall|answer: (i32, u64, u64)| #[trigger]
            call_ensures(lookup, (rq.sector, *sectors as u64), answer) ==> answer == (
                status,
                first_bad,
                count,
            )) implies {
        let hit = device.bad_blocks.is_enabled() && (status == 1 || status == -1);
        &&& !hit ==> r is Ok && final(rq)@ == rq@ && *final(sectors) == *sectors
        &&& hit ==> final(rq)@ == (RequestState { error: 10, ..rq@ })
        &&& hit && !device.bad_blocks_once ==> r is Ok
        &&& hit && device.bad_blocks_once ==> call_ensures(clear, (first_bad, count), r is Ok)
        &&& r matches Err(e) ==> e == Errno(EINVAL)
        &&& hit && r is Ok && first_bad < rq.sector + *sectors ==> stops_before_bad(
            device.config(),
            rq.sector as int,
            *sectors as int,
            first_bad as int,
            *final(sectors) as int,
        )
    } by {
        if first_bad < rq.sector + *sectors {
            lemma_limited(
                device.config(),
                rq.sector,
                *sectors,
                first_bad,
                (first_bad + count) as u64,
            );
        }
    }
}

/// The requests of `a` are among those of `b`, in the same order.
pub open spec fn in_order(a: Seq<Request>, b: Seq<Request>) -> bool
    decreases b.len(),
{
    ||| a.len() == 0
    ||| b.len() > 0 && {
        ||| a.last()@ == b.last()@ && in_order(a.drop_last(), b.drop_last())
        ||| in_order(a, b.drop_last())
    }
}

proof fn lemma_batch<
    L: FnOnce(u64, u64) -> (i32, u64, u64),
    G: FnOnce(u64, u64) -> bool,
>(
    start: QueueSide,
    requests: Seq<Request>,
    events: Seq<QueueEvents>,
    lookup: L,
    clear: G,
    end: QueueSide,
    outcomes: Seq<QueueOutcome>,
)
    requires
        crate::device::queue::all_queued(start, requests, events, lookup, clear, end, outcomes),
    ensures
        ({
            let refused = crate::device::queue::refused_requests(outcomes);
            let accepted = crate::device::queue::queued_requests(outcomes);
            &&& refused.len() + accepted.len() == requests.len()
            &&& in_order(refused, requests)
            &&& end.0.bandwidth_limit == start.0.bandwidth_limit
            &&& start.0.bandwidth_limit == 0 && (forall|i: int|
                0 <= i < requests.len() ==> !(#[trigger] events[i]).requeue_fault)
                ==> refused.len() == 0
        }),
    decreases requests.len(),
{
    if requests.len() > 0 {
        let mid = choose|mid: QueueSide|
            {
                &&& crate::device::queue::all_queued(
                    start,
                    requests.drop_last(),
                    events,
                    lookup,
                    clear,
                    mid,
                    outcomes.drop_last(),
                )
                &&& #[trigger] crate::device::queue::queued(
                    mid,
                    requests.last(),
                    events[requests.len() - 1],
                    lookup,
                    clear,
                    end,
                    outcomes.last(),
                )
            };
        lemma_batch(
            start,
            requests.drop_last(),
            events,
            lookup,
            clear,
            mid,
            outcomes.drop_last(),
        );
        let before = crate::device::queue::refused_requests(outcomes.drop_last());
        if let Err(error) = outcomes.last().0 {
            assert(before.push(error.request).drop_last() =~= before);
        }
    }
}

/// Of a batch each request is either queued or handed back, none is both and none gets lost; those
/// that are handed back are as they came and in the order in which they came. Without faults and
/// without a bandwidth limit none is handed back.
pub proof fn lemma_queue_rqs<L: Fn(u64, u64) -> (i32, u64, u64), G: Fn(u64, u64) -> bool>(
    events: &[QueueEvents],
    lookup: L,
    clear: G,
)
    ensures
        forall|
            device: &mut NullBlkDevice,
            hw: &mut HwQueueContext,
            memory: &mut Memory,
            requests: &mut RequestList<Request>,
            r: (Vec<Queued>, Vec<HostActions>),
        |
            #[trigger] call_ensures(
                NullBlkDevice::queue_rqs::<L, G>,
                (device, hw, memory, requests, events, &lookup, &clear),
                r,
            ) ==> {
                &&& r.0@.len() + final(requests)@.len() == requests@.len()
                &&& r.1@.len() == requests@.len()
                &&& in_order(final(requests)@, requests@)
                &&& device.bandwidth_limit == 0 && (forall|i: int|
                    0 <= i < requests@.len() ==> !(#[trigger] events@[i]).requeue_fault)
                    ==> final(requests)@.len() == 0
            },
{
    assert forall|
        device: &mut NullBlkDevice,
        hw: &mut HwQueueContext,
        memory: &mut Memory,
        requests: &mut RequestList<Request>,
        r: (Vec<Queued>, Vec<HostActions>),
    |
        #[trigger] call_ensures(
            NullBlkDevice::queue_rqs::<L, G>,
            (device, hw, memory, requests, events, &lookup, &clear),
            r,
        ) implies {
        &&& r.0@.len() + final(requests)@.len() == requests@.len()
        &&& r.1@.len() == requests@.len()
        &&& in_order(final(requests)@, requests@)
        &&& device.bandwidth_limit == 0 && (forall|i: int|
            0 <= i < requests@.len() ==> !(#[trigger] events@[i]).requeue_fault)
            ==> final(requests)@.len() == 0
    } by {
        let start = (*device, *hw, *memory);
        let end = (*final(device), *final(hw), *final(memory));
        let outcomes = choose|outcomes: Seq<QueueOutcome>|
            {
                &&& #[trigger] crate::device::queue::all_queued(
                    start,
                    requests@,
                    events@,
                    lookup,
                    clear,
                    end,
                    outcomes,
                )
                &&& final(requests)@ == crate::device::queue::refused_requests(outcomes)
                &&& r.0@ == crate::device::queue::queued_requests(outcomes)
                &&& r.1@ == crate::device::queue::actions_of(outcomes)
            };
        lemma_batch(start, requests@, events@, lookup, clear, end, outcomes);
    }
}

/// A device is as its settings say. Its bandwidth limit is for an interval of a fiftieth of a second:
/// fifty of them do not exceed the bytes per second of the settings, and come within fifty bytes of
/// them.
pub open spec fn configured(settings: NullBlkSettings, device: NullBlkDevice) -> bool {
    &&& device.irq_mode == settings.irq_mode
    &&& device.completion_time == settings.completion_time
    &&& device.memory_backed == settings.memory_backed
    &&& device.block_size_bytes == settings.block_size_bytes
    &&& device.bad_blocks_once == settings.bad_blocks_once
    &&& device.bad_blocks_partial_io == settings.bad_blocks_partial_io
    &&& device.bandwidth_limit * 50 <= settings.bandwidth_limit < (device.bandwidth_limit + 1) * 50
    &&& device.bandwidth_bytes == 0
    &&& device.zoned.enabled == settings.zoned
}

/// A disk presents a device as its settings say: its capacity in sectors of 512 bytes, blocks of one
/// size, discards where data is kept and there are no zones, of as many sectors as have a number of
/// bytes in 32 bits, a write cache where the storage has one, and forced unit access with it where it
/// is wanted.
pub open spec fn presented(settings: NullBlkSettings, cache: bool, disk: NullBlkDisk) -> bool {
    let features = disk.limits.features.bits();
    &&& settings.device_capacity_mib < 0x10_0000_0000_0000 ==> disk.capacity_sectors * 512
        == settings.device_capacity_mib * 0x10_0000
    &&& disk.limits.logical_block_size == settings.block_size_bytes
    &&& disk.limits.physical_block_size == settings.block_size_bytes
    &&& disk.limits.max_sectors == settings.max_sectors
    &&& settings.memory_backed && settings.discard && !settings.zoned ==> {
        &&& disk.limits.max_hw_discard_sectors * 512 <= u32::MAX
        &&& (disk.limits.max_hw_discard_sectors + 1) * 512 > u32::MAX
    }
    &&& !settings.memory_backed || !settings.discard || settings.zoned
        ==> disk.limits.max_hw_discard_sectors == 0
    &&& settings.zoned ==> {
        &&& disk.limits.chunk_sectors == disk.queue.queue_data.zoned.size_sectors
        &&& disk.limits.max_hw_zone_append_sectors == settings.zone_append_max_sectors
    }
    &&& !settings.zoned ==> disk.limits.chunk_sectors == 0
    &&& disk.limits.virt_boundary_mask == (if settings.virt_boundary {
        4095int
    } else {
        0
    })
    &&& (features & crate::block::mq::feature::Feature::Rotational.bit() != 0)
        == settings.rotational
    &&& (features & crate::block::mq::feature::Feature::Zoned.bit() != 0) == settings.zoned
    &&& (features & crate::block::mq::feature::Feature::WriteCache.bit() != 0) == cache
    &&& (features & crate::block::mq::feature::Feature::ForcedUnitAccess.bit() != 0) == (cache
        && settings.forced_unit_access)
    &&& disk.zones_validated == settings.zoned
    &&& !disk.queue.stopped
}

/// The bits of a set of features.
proof fn lemma_feature_bits(
    rotational: bool,
    zoned: bool,
    cache: bool,
    access: bool,
    a: u32,
    b: u32,
    c: u32,
    d: u32,
)
    by (bit_vector)
    requires
        a == (if rotational {
            0x4u32
        } else {
            0
        }),
        b == (if zoned {
            a | 0x400
        } else {
            a
        }),
        c == (if cache {
            b | 0x1
        } else {
            b
        }),
        d == (if access {
            c | 0x2
        } else {
            c
        }),
    ensures
        (d & 0x4 != 0) == rotational,
        (d & 0x400 != 0) == zoned,
        (d & 0x1 != 0) == cache,
        (d & 0x2 != 0) == access,
{
}

/// A disk that was built for options is right for them.
pub proof fn lemma_disk_right<A: Fn(QueueLimits) -> i32, B: Fn(u64, bool) -> i32>(
    options: NullBlkOptions,
    alloc_disk: A,
    add_disk: B,
    disk: NullBlkDisk,
)
    requires
        crate::device::setup::disk_outcome(
            options,
            alloc_disk,
            add_disk,
            Ok::<NullBlkDisk, Errno>(disk),
        ),
        options.settings.zone_args().zone_sizes_ok() ==> options.settings.zone_args().computable(),
    ensures
        configured(options.settings, disk.queue.queue_data),
        presented(options.settings, options.storage@.cache_size != 0, disk),
        disk.queue.queue_data.storage == options.storage,
        disk.queue.queue_data.bad_blocks == options.bad_blocks,
        disk.name@ == options.name@,
        disk.name@.len() < 32,
{
    let settings = options.settings;
    let cache = options.storage@.cache_size != 0;
    let builder = options.builder();
    let a: u32 = if settings.rotational {
        0x4
    } else {
        0
    };
    let b: u32 = if settings.zoned {
        a | 0x400
    } else {
        a
    };
    let c: u32 = if cache {
        b | 0x1
    } else {
        b
    };
    let d: u32 = if cache && settings.forced_unit_access {
        c | 0x2
    } else {
        c
    };
    assert(builder.feature_bits() == d);
    lemma_feature_bits(
        settings.rotational,
        settings.zoned,
        cache,
        cache && settings.forced_unit_access,
        a,
        b,
        c,
        d,
    );
}

/// A device that is created is as its options say, and so is the disk that presents it; one that is
/// not created gives back the storage and the tracker of bad blocks. A memory node that does not
/// exist and a block size that a disk cannot have are refused.
pub proof fn lemma_new_device<
    T: Fn(TagRequest) -> i32,
    A: Fn(QueueLimits) -> i32,
    B: Fn(u64, bool) -> i32,
>(
    options: NullBlkOptions,
    online_nodes: u32,
    request_size: u32,
    alloc_tags: T,
    alloc_disk: A,
    add_disk: B,
)
    requires
        options.settings.zone_args().zone_sizes_ok() ==> options.settings.zone_args().computable(),
    ensures
        forall|
            shared: &mut Option<TagSet<NullBlkTagsetData>>,
            r: core::result::Result<NullBlkDisk, NotCreated>,
        |
            #[trigger] call_ensures(
                NullBlkDevice::new::<T, A, B>,
                (
                    options,
                    online_nodes,
                    request_size,
                    shared,
                    &alloc_tags,
                    &alloc_disk,
                    &add_disk,
                ),
                r,
            ) ==> match r {
                Ok(disk) => {
                    &&& configured(options.settings, disk.queue.queue_data)
                    &&& presented(options.settings, options.storage@.cache_size != 0, disk)
                    &&& disk.queue.queue_data.storage == options.storage
                    &&& disk.queue.queue_data.bad_blocks == options.bad_blocks
                    &&& disk.name@ == options.name@
                    &&& disk.name@.len() < 32
                    &&& 512 <= options.settings.block_size_bytes <= 4096
                    &&& options.settings.home_node <= online_nodes
                    &&& options.settings.shared_tags ==> disk.tag_set is None && *final(shared)
                        is Some
                    &&& !options.settings.shared_tags ==> *final(shared) == *shared
                    &&& !options.settings.shared_tags ==> (disk.tag_set matches Some(set)
                        && set.nr_hw_queues == options.settings.submit_queues
                        + options.settings.poll_queues && set.queue_depth
                        == options.settings.hw_queue_depth && set.cmd_size == request_size)
                },
                Err(failed) => {
                    &&& failed.storage == options.storage
                    &&& failed.bad_blocks == options.bad_blocks
                },
            },
{
    assert forall|
        shared: &mut Option<TagSet<NullBlkTagsetData>>,
        r: core::result::Result<NullBlkDisk, NotCreated>,
    |
        #[trigger] call_ensures(
            NullBlkDevice::new::<T, A, B>,
            (options, online_nodes, request_size, shared, &alloc_tags, &alloc_disk, &add_disk),
            r,
        ) && r is Ok implies {
        let disk = r->Ok_0;
        &&& configured(options.settings, disk.queue.queue_data)
        &&& presented(options.settings, options.storage@.cache_size != 0, disk)
        &&& disk.queue.queue_data.storage == options.storage
        &&& disk.queue.queue_data.bad_blocks == options.bad_blocks
        &&& disk.name@ == options.name@
        &&& disk.name@.len() < 32
    } by {
        let disk = r->Ok_0;
        assert(crate::device::setup::disk_outcome(
            options,
            alloc_disk,
            add_disk,
            Ok::<NullBlkDisk, Errno>(disk),
        ));
        lemma_disk_right(options, alloc_disk, add_disk, disk);
    }
}

/// The settings of a configured device are those of its attributes: a MiB per second for
/// each unit of bandwidth, no polled queues and no zones.
pub proof fn lemma_device_settings(config: DeviceConfig, r: NullBlkSettings)
    requires
        call_ensures(DeviceConfig::device_settings, (&config,), r),
    ensures
        r.block_size_bytes == config.block_size,
        r.rotational == config.rotational,
        r.device_capacity_mib == config.capacity_mib,
        r.irq_mode == config.irq_mode,
        r.completion_time == config.completion_time,
        r.memory_backed == config.memory_backed,
        r.submit_queues == config.submit_queues,
        r.poll_queues == 0,
        r.home_node == config.home_node,
        r.discard == config.discard,
        r.no_sched == config.no_sched,
        r.bad_blocks_once == config.bad_blocks_once,
        r.bad_blocks_partial_io == config.bad_blocks_partial_io,
        r.bandwidth_limit == config.mbps * 0x10_0000,
        r.blocking == config.blocking,
        r.shared_tags == config.shared_tags,
        r.hw_queue_depth == config.hw_queue_depth,
        !r.zoned,
{
}

/// A map holds so many queues from an offset on.
pub open spec fn spans(map: QueueMap, offset: int, count: int) -> bool {
    &&& map.nr_queues == count
    &&& count > 0 ==> map.queue_offset == offset
}

/// The queues of a device are divided among the types: submission queues come first and polled queues
/// behind them, and there are no others. Where the number of hardware queues is not that of the
/// configuration, there is one submission queue.
pub proof fn lemma_map_queues()
    ensures
        forall|set: &mut TagSet<NullBlkTagsetData>|
            #[trigger] call_ensures(NullBlkDevice::map_queues, (set,), ()) && set.inv()
                && set.maps@.len() == 3 && set.data.queue_config.submit_queues
                + set.data.queue_config.poll_queues <= u32::MAX ==> {
                let config = set.data.queue_config;
                let after = final(set).maps@;
                &&& after.len() == 3
                &&& set.nr_hw_queues == config.submit_queues + config.poll_queues ==> spans(
                    after[0],
                    0,
                    config.submit_queues as int,
                ) && spans(after[1], 0, 0) && spans(
                    after[2],
                    config.submit_queues as int,
                    config.poll_queues as int,
                )
                &&& set.nr_hw_queues != config.submit_queues + config.poll_queues ==> spans(
                    after[0],
                    0,
                    1,
                ) && spans(after[1], 0, 0) && spans(after[2], 1, 0)
            },
{
    assert forall|set: &mut TagSet<NullBlkTagsetData>|
        #[trigger] call_ensures(NullBlkDevice::map_queues, (set,), ()) && set.inv()
            && set.maps@.len() == 3 && set.data.queue_config.submit_queues
            + set.data.queue_config.poll_queues <= u32::MAX implies {
        let config = set.data.queue_config;
        let after = final(set).maps@;
        &&& after.len() == 3
        &&& set.nr_hw_queues == config.submit_queues + config.poll_queues ==> spans(
            after[0],
            0,
            config.submit_queues as int,
        ) && spans(after[1], 0, 0) && spans(
            after[2],
            config.submit_queues as int,
            config.poll_queues as int,
        )
        &&& set.nr_hw_queues != config.submit_queues + config.poll_queues ==> spans(
            after[0],
            0,
            1,
        ) && spans(after[1], 0, 0) && spans(after[2], 1, 0)
    } by {
        assert(set.maps@[0].kind.raw() == 0 && set.maps@[1].kind.raw() == 1
            && set.maps@[2].kind.raw() == 2);
    }
}

} // verus!
