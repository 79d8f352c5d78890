//! Laws on the attributes of a device and on switching it on and off.

use crate::block::mq::gen_disk::QueueLimits;
use crate::block::mq::tag_set::TagSet;
use crate::configfs::{DeviceConfig, IRQMode};
use crate::device::setup::{
    NullBlkDisk, NullBlkOptions, NullBlkSettings, NullBlkTagsetData, TagRequest,
};
use crate::error::{Errno, Result, EBUSY, EINVAL};
use crate::laws::setup::{configured, presented};
use crate::module::ModuleParameters;
use vstd::prelude::*;

verus! {

/// Storing an attribute came to `expected`, unless the device exists: then nothing changes.
pub open spec fn stored(
    before: DeviceConfig,
    expected: DeviceConfig,
    after: DeviceConfig,
    r: Result<()>,
) -> bool {
    if before.powered {
        &&& r == Err::<(), Errno>(Errno(EBUSY))
        &&& after == before
    } else {
        &&& r is Ok
        &&& after == expected
    }
}

/// What is shown of `size` and stored again is the value that was shown, and nothing else changes.
pub proof fn lemma_size(shown: DeviceConfig, text: Vec<u8>, page: &[u8])
    requires
        call_ensures(DeviceConfig::show_size, (&shown,), text),
        page@ == text@,
    ensures
        forall|config: &mut DeviceConfig, r: Result<()>|
            #[trigger] call_ensures(DeviceConfig::store_size, (config, page), r) ==> stored(
                *config,
                (DeviceConfig { capacity_mib: shown.capacity_mib, ..*config }),
                *final(config),
                r,
            ),
{
    crate::configfs::lemma_number_shown_then_stored(
        shown.capacity_mib as int,
        0,
        u64::MAX as int,
    );
}

/// What is shown of `completion_nsec` and stored again is the value that was shown, and nothing else changes.
pub proof fn lemma_completion_nsec(shown: DeviceConfig, text: Vec<u8>, page: &[u8])
    requires
        call_ensures(DeviceConfig::show_completion_nsec, (&shown,), text),
        page@ == text@,
    ensures
        forall|config: &mut DeviceConfig, r: Result<()>|
            #[trigger] call_ensures(DeviceConfig::store_completion_nsec, (config, page), r) ==> stored(
                *config,
                (DeviceConfig { completion_time: shown.completion_time, ..*config }),
                *final(config),
                r,
            ),
{
    crate::configfs::lemma_number_shown_then_stored(
        shown.completion_time as int,
        i64::MIN as int,
        i64::MAX as int,
    );
}

/// What is shown of `mbps` and stored again is the value that was shown, and nothing else changes.
pub proof fn lemma_mbps(shown: DeviceConfig, text: Vec<u8>, page: &[u8])
    requires
        call_ensures(DeviceConfig::show_mbps, (&shown,), text),
        page@ == text@,
    ensures
        forall|config: &mut DeviceConfig, r: Result<()>|
            #[trigger] call_ensures(DeviceConfig::store_mbps, (config, page), r) ==> stored(
                *config,
                (DeviceConfig { mbps: shown.mbps, ..*config }),
                *final(config),
                r,
            ),
{
    crate::configfs::lemma_number_shown_then_stored(
        shown.mbps as int,
        0,
        u32::MAX as int,
    );
}

/// What is shown of `hw_queue_depth` and stored again is the value that was shown, and nothing else changes.
pub proof fn lemma_hw_queue_depth(shown: DeviceConfig, text: Vec<u8>, page: &[u8])
    requires
        call_ensures(DeviceConfig::show_hw_queue_depth, (&shown,), text),
        page@ == text@,
    ensures
        forall|config: &mut DeviceConfig, r: Result<()>|
            #[trigger] call_ensures(DeviceConfig::store_hw_queue_depth, (config, page), r) ==> stored(
                *config,
                (DeviceConfig { hw_queue_depth: shown.hw_queue_depth, ..*config }),
                *final(config),
                r,
            ),
{
    crate::configfs::lemma_number_shown_then_stored(
        shown.hw_queue_depth as int,
        0,
        u32::MAX as int,
    );
}

/// Storing a condition sets that attribute and no other, and is refused for a device that exists.
pub proof fn lemma_conditions(flag: bool)
    ensures
        forall|config: &mut DeviceConfig, r: Result<()>|
            #[trigger] call_ensures(
                DeviceConfig::store_rotational,
                (config, Ok::<bool, Errno>(flag)),
                r,
            ) ==> stored(
                *config,
                (DeviceConfig { rotational: flag, ..*config }),
                *final(config),
                r,
            ),
        forall|config: &mut DeviceConfig, r: Result<()>|
            #[trigger] call_ensures(
                DeviceConfig::store_no_sched,
                (config, Ok::<bool, Errno>(flag)),
                r,
            ) ==> stored(
                *config,
                (DeviceConfig { no_sched: flag, ..*config }),
                *final(config),
                r,
            ),
        forall|config: &mut DeviceConfig, r: Result<()>|
            #[trigger] call_ensures(
                DeviceConfig::store_badblocks_once,
                (config, Ok::<bool, Errno>(flag)),
                r,
            ) ==> stored(
                *config,
                (DeviceConfig { bad_blocks_once: flag, ..*config }),
                *final(config),
                r,
            ),
        forall|config: &mut DeviceConfig, r: Result<()>|
            #[trigger] call_ensures(
                DeviceConfig::store_badblocks_partial_io,
                (config, Ok::<bool, Errno>(flag)),
                r,
            ) ==> stored(
                *config,
                (DeviceConfig { bad_blocks_partial_io: flag, ..*config }),
                *final(config),
                r,
            ),
        forall|config: &mut DeviceConfig, r: Result<()>|
            #[trigger] call_ensures(
                DeviceConfig::store_blocking,
                (config, Ok::<bool, Errno>(flag)),
                r,
            ) ==> stored(
                *config,
                (DeviceConfig { blocking: flag, ..*config }),
                *final(config),
                r,
            ),
        forall|config: &mut DeviceConfig, r: Result<()>|
            #[trigger] call_ensures(
                DeviceConfig::store_shared_tags,
                (config, Ok::<bool, Errno>(flag)),
                r,
            ) ==> stored(
                *config,
                (DeviceConfig { shared_tags: flag, ..*config }),
                *final(config),
                r,
            ),
{
}

/// What switching a device on does.
pub open spec fn switched_on(before: DeviceConfig, after: DeviceConfig, r: Result<()>) -> bool {
    &&& r is Err || before.powered ==> after == before
    &&& before.powered ==> r is Ok
    &&& r is Ok ==> after.powered
    &&& r is Ok && !before.powered ==> {
        let settings = before.settings();
        &&& after.disk matches Some(disk)
        &&& after.disk_storage is None
        &&& before.disk_storage matches Some(storage)
        &&& disk.queue.queue_data.storage == storage
        &&& disk.queue.queue_data.bad_blocks == before.bad_blocks
        &&& configured(settings, disk.queue.queue_data)
        &&& presented(settings, storage@.cache_size != 0, disk)
        &&& disk.name@ == before.name@
    }
}

/// A disk that was made is right for its options.
proof fn lemma_made<
    T: Fn(TagRequest) -> i32,
    A: Fn(QueueLimits) -> i32,
    B: Fn(u64, bool) -> i32,
>(
    options: NullBlkOptions,
    online_nodes: u32,
    request_size: u32,
    shared: (Option<TagSet<NullBlkTagsetData>>, Option<TagSet<NullBlkTagsetData>>),
    alloc_tags: T,
    alloc_disk: A,
    add_disk: B,
    disk: NullBlkDisk,
)
    requires
        options.settings.zone_args().computable(),
        crate::device::setup::new_outcome(
            options,
            online_nodes,
            request_size,
            shared,
            alloc_tags,
            alloc_disk,
            add_disk,
            Ok::<NullBlkDisk, Errno>(disk),
        ),
    ensures
        configured(options.settings, disk.queue.queue_data),
        presented(options.settings, options.storage@.cache_size != 0, disk),
        disk.queue.queue_data.storage == options.storage,
        disk.queue.queue_data.bad_blocks == options.bad_blocks,
        disk.name@ == options.name@,
{
    assert(crate::device::setup::disk_outcome(
        options,
        alloc_disk,
        add_disk,
        Ok::<NullBlkDisk, Errno>(disk),
    ));
    crate::laws::setup::lemma_disk_right(options, alloc_disk, add_disk, disk);
}

/// Switching a device on makes a disk that is as the attributes say, with the storage and the tracker
/// of bad blocks of the configuration; where that fails, and where the device exists already, nothing
/// changes.
#[verifier::spinoff_prover]
pub proof fn lemma_switched_on<
    T: Fn(TagRequest) -> i32,
    A: Fn(QueueLimits) -> i32,
    B: Fn(u64, bool) -> i32,
    D: FnOnce(&[u8]),
>(online_nodes: u32, request_size: u32, alloc_tags: T, alloc_disk: A, add_disk: B, del_disk: D)
    ensures
        forall|
            config: &mut DeviceConfig,
            shared: &mut Option<TagSet<NullBlkTagsetData>>,
            r: Result<()>,
        |
            #[trigger] call_ensures(
                DeviceConfig::store_power::<T, A, B, D>,
                (
                    config,
                    Ok::<bool, Errno>(true),
                    online_nodes,
                    request_size,
                    shared,
                    &alloc_tags,
                    &alloc_disk,
                    &add_disk,
                    del_disk,
                ),
                r,
            ) && config.settings().zone_args().computable() ==> switched_on(
                *config,
                *final(config),
                r,
            ),
{
    assert forall|
        config: &mut DeviceConfig,
        shared: &mut Option<TagSet<NullBlkTagsetData>>,
        r: Result<()>,
    |
        #[trigger] call_ensures(
            DeviceConfig::store_power::<T, A, B, D>,
            (
                config,
                Ok::<bool, Errno>(true),
                online_nodes,
                request_size,
                shared,
                &alloc_tags,
                &alloc_disk,
                &add_disk,
                del_disk,
            ),
            r,
        ) && config.settings().zone_args().computable() implies switched_on(
        *config,
        *final(config),
        r,
    ) by {
        if !config.powered {
            let (options, made) = choose|options: NullBlkOptions, made: Result<NullBlkDisk>|
                {
                    &&& config.made_of(options)
                    &&& #[trigger] crate::device::setup::new_outcome(
                        options,
                        online_nodes,
                        request_size,
                        (*shared, *final(shared)),
                        alloc_tags,
                        alloc_disk,
                        add_disk,
                        made,
                    )
                    &&& match made {
                        Ok(disk) => r is Ok && *final(config) == (DeviceConfig {
                            powered: true,
                            disk: Some(disk),
                            disk_storage: None,
                            ..*config
                        }),
                        Err(e) => r == Err::<(), Errno>(e) && *final(config) == *config,
                    }
                };
            if let Ok(disk) = made {
                lemma_made(
                    options,
                    online_nodes,
                    request_size,
                    (*shared, *final(shared)),
                    alloc_tags,
                    alloc_disk,
                    add_disk,
                    disk,
                );
            }
        }
    }
}

/// Switching a device off takes its disk off the system and gives the storage of the device, with all
/// that was written to it, back to the configuration; all attributes stay as they were.
pub proof fn lemma_switched_off<
    T: Fn(TagRequest) -> i32,
    A: Fn(QueueLimits) -> i32,
    B: Fn(u64, bool) -> i32,
    D: FnOnce(&[u8]),
>(online_nodes: u32, request_size: u32, alloc_tags: T, alloc_disk: A, add_disk: B, del_disk: D)
    ensures
        forall|
            config: &mut DeviceConfig,
            shared: &mut Option<TagSet<NullBlkTagsetData>>,
            r: Result<()>,
        |
            #[trigger] call_ensures(
                DeviceConfig::store_power::<T, A, B, D>,
                (
                    config,
                    Ok::<bool, Errno>(false),
                    online_nodes,
                    request_size,
                    shared,
                    &alloc_tags,
                    &alloc_disk,
                    &add_disk,
                    del_disk,
                ),
                r,
            ) ==> {
                &&& r is Ok
                &&& *final(shared) == *shared
                &&& !config.powered ==> *final(config) == *config
                &&& config.powered ==> {
                    &&& config.disk matches Some(disk)
                    &&& final(config).disk_storage == Some(disk.queue.queue_data.storage)
                    &&& final(config).disk is None
                    &&& !final(config).powered
                    &&& final(config).settings() == config.settings()
                    &&& final(config).bad_blocks == config.bad_blocks
                    &&& exists|name: &[u8]|
                        name@ == disk.name@ && #[trigger] call_ensures(del_disk, (name,), ())
                }
            },
{
}

/// The settings of the devices of the module are those of its parameters: the capacity in units of
/// 1024 MiB, a MiB per second for each unit of bandwidth, and a submission queue for each memory node
/// where that is wanted. A number of a completion mode that does not exist is refused.
pub proof fn lemma_module_settings(
    params: ModuleParameters,
    online_nodes: u32,
    r: Result<NullBlkSettings>,
)
    requires
        params.gb * 1024 <= u64::MAX,
        params.completion_nsec <= i64::MAX,
        call_ensures(ModuleParameters::settings, (&params, online_nodes), r),
    ensures
        (r is Ok) == (params.irqmode <= 2),
        r matches Ok(settings) ==> {
            &&& settings.device_capacity_mib == params.gb * 1024
            &&& settings.block_size_bytes == params.bs
            &&& settings.rotational == (params.rotational != 0)
            &&& settings.irq_mode == (if params.irqmode == 0 {
                IRQMode::Immediate
            } else if params.irqmode == 1 {
                IRQMode::Soft
            } else {
                IRQMode::Timer
            })
            &&& settings.completion_time == params.completion_nsec
            &&& settings.memory_backed == (params.memory_backed != 0)
            &&& params.use_per_node_hctx != 0 ==> settings.submit_queues == online_nodes
            &&& params.use_per_node_hctx == 0 ==> settings.submit_queues == params.submit_queues
            &&& settings.poll_queues == params.poll_queues
            &&& settings.home_node == params.home_node
            &&& settings.discard == (params.discard != 0)
            &&& settings.no_sched == (params.no_sched != 0)
            &&& !settings.bad_blocks_once && !settings.bad_blocks_partial_io
            &&& settings.bandwidth_limit == params.mbps * 0x10_0000
            &&& settings.blocking == (params.blocking != 0)
            &&& settings.shared_tags == (params.shared_tags != 0)
            &&& settings.hw_queue_depth == params.hw_queue_depth
            &&& settings.zoned == (params.zoned != 0)
            &&& settings.zone_size_mib == params.zone_size
            &&& settings.zone_capacity_mib == params.zone_capacity
            &&& settings.zone_nr_conv == params.zone_nr_conv
            &&& settings.zone_max_open == params.zone_max_open
            &&& settings.zone_max_active == params.zone_max_active
            &&& settings.zone_append_max_sectors == params.zone_append_max_sectors
            &&& settings.forced_unit_access == (params.fua != 0)
            &&& settings.max_sectors == params.max_sectors
            &&& settings.virt_boundary == (params.virt_boundary != 0)
            &&& settings.shared_tag_bitmap == (params.shared_tag_bitmap != 0)
        },
{
}

/// Storing an attribute whose value is checked: a value that is not allowed is refused and changes
/// nothing.
pub open spec fn checked_stored(
    before: DeviceConfig,
    allowed: bool,
    expected: DeviceConfig,
    after: DeviceConfig,
    r: Result<()>,
) -> bool {
    if before.powered || allowed {
        stored(before, expected, after, r)
    } else {
        &&& r == Err::<(), Errno>(Errno(EINVAL))
        &&& after == before
    }
}

/// Discards can be switched on and off where data is kept, and nowhere else.
pub proof fn lemma_discard(flag: bool)
    ensures
        forall|config: &mut DeviceConfig, r: Result<()>|
            #[trigger] call_ensures(
                DeviceConfig::store_discard,
                (config, Ok::<bool, Errno>(flag)),
                r,
            ) ==> checked_stored(
                *config,
                config.memory_backed,
                (DeviceConfig { discard: flag, ..*config }),
                *final(config),
                r,
            ),
{
}

/// A block size is 512, 1024, 2048 or 4096 bytes.
pub proof fn lemma_blocksize(value: u32, page: &[u8])
    requires
        page@ == crate::configfs::line(crate::text::number_text(value as int)),
    ensures
        forall|config: &mut DeviceConfig, r: Result<()>|
            #[trigger] call_ensures(DeviceConfig::store_blocksize, (config, page), r)
                ==> checked_stored(
                *config,
                value == 512 || value == 1024 || value == 2048 || value == 4096,
                (DeviceConfig { block_size: value, ..*config }),
                *final(config),
                r,
            ),
{
    crate::configfs::lemma_number_shown_then_stored(value as int, 0, u32::MAX as int);
    vstd::arithmetic::power2::lemma2_to64();
    if crate::block::mq::gen_disk::valid_block_size(value) {
        let e: nat = choose|e: nat| value == #[trigger] vstd::arithmetic::power2::pow2(e);
        if e > 12 {
            vstd::arithmetic::power2::lemma_pow2_strictly_increases(12, e);
        }
        if e < 9 {
            vstd::arithmetic::power2::lemma_pow2_strictly_increases(e, 9);
        }
        assert(e == 9 || e == 10 || e == 11 || e == 12);
    }
    if value == 512 || value == 1024 || value == 2048 || value == 4096 {
        assert(crate::util::is_power(value as int)) by {
            assert(value == vstd::arithmetic::power2::pow2(9) || value
                == vstd::arithmetic::power2::pow2(10) || value
                == vstd::arithmetic::power2::pow2(11) || value
                == vstd::arithmetic::power2::pow2(12));
        }
    }
}

/// There is at least one submission queue, and at most one for each processor.
pub proof fn lemma_submit_queues(value: u32, page: &[u8], possible_cpus: u32)
    requires
        page@ == crate::configfs::line(crate::text::number_text(value as int)),
    ensures
        forall|config: &mut DeviceConfig, r: Result<()>|
            #[trigger] call_ensures(
                DeviceConfig::store_submit_queues,
                (config, page, possible_cpus),
                r,
            ) ==> checked_stored(
                *config,
                1 <= value <= possible_cpus,
                (DeviceConfig { submit_queues: value, ..*config }),
                *final(config),
                r,
            ),
{
    crate::configfs::lemma_number_shown_then_stored(value as int, 0, u32::MAX as int);
}

/// The first place of a byte in a text is the one behind a part without it.
proof fn lemma_place(text: Seq<u8>, byte: u8, at: int)
    requires
        0 <= at < text.len(),
        text[at] == byte,
        forall|i: int| 0 <= i < at ==> #[trigger] text[i] != byte,
    ensures
        crate::configfs::badblocks::position(text, byte) == at,
{
    crate::configfs::badblocks::lemma_position(text, byte);
    let p = crate::configfs::badblocks::position(text, byte);
    if p < at {
        assert(text[p] != byte);
    }
    if p > at {
        assert(text[at] != byte);
    }
}

/// A line that marks sectors as bad, with `+`, or as good, with `-`.
pub open spec fn marking(bad: bool, first: u64, last: u64) -> Seq<u8> {
    seq![
        if bad {
            43u8
        } else {
            45u8
        },
    ] + crate::text::number_text(first as int) + seq![45u8] + crate::text::number_text(last as int)
}

proof fn lemma_marking(bad: bool, first: u64, last: u64)
    requires
        first <= last,
    ensures
        crate::configfs::badblocks::line_ops(marking(bad, first, last) + seq![10u8]) == (
            seq![
                crate::configfs::badblocks::BadBlockOp { bad, start: first, end: last },
            ],
            true,
        ),
{
    let a = crate::text::number_text(first as int);
    let b = crate::text::number_text(last as int);
    crate::text::lemma_digits_read(first as nat);
    crate::text::lemma_digits_read(last as nat);
    crate::text::lemma_number_round_trip(first as int, 0, u64::MAX as int);
    crate::text::lemma_number_round_trip(last as int, 0, u64::MAX as int);
    let line = marking(bad, first, last);
    let page = line + seq![10u8];
    assert forall|i: int| 0 <= i < line.len() implies #[trigger] page[i] != 10 by {
        if 1 <= i < 1 + a.len() {
            assert(page[i] == a[i - 1]);
        } else if i >= 2 + a.len() {
            assert(page[i] == b[i - 2 - a.len()]);
        }
    }
    lemma_place(page, 10, line.len() as int);
    assert(page[line.len() - 1] == b.last());
    assert(crate::configfs::badblocks::first_line(page) =~= line);
    assert(crate::configfs::badblocks::other_lines(page) =~= Seq::<u8>::empty());
    let body = line.skip(1);
    assert(body =~= a + seq![45u8] + b);
    lemma_place(body, 45, a.len() as int);
    assert(body.take(a.len() as int) =~= a);
    assert(body.skip(a.len() as int + 1) =~= b);
    reveal_with_fuel(crate::configfs::badblocks::line_ops, 2);
    let op = crate::configfs::badblocks::BadBlockOp { bad, start: first, end: last };
    assert(seq![op] + Seq::<crate::configfs::badblocks::BadBlockOp>::empty() =~= seq![op]);
}

/// A line that marks the sectors from the first to the last one as bad or as good starts the tracking
/// of bad blocks and asks the host for exactly these sectors, the last one among them; it succeeds
/// exactly if the host carries that out.
pub proof fn lemma_sectors_marked<S: Fn(u64, u64, i32) -> bool, C: Fn(u64, u64) -> bool>(
    bad: bool,
    first: u64,
    last: u64,
    page: &[u8],
    set: S,
    clear: C,
)
    requires
        first <= last < u64::MAX,
        page@ == marking(bad, first, last) + seq![10u8],
        vstd::utf8::valid_utf8(page@),
    ensures
        forall|config: &mut DeviceConfig, r: Result<()>|
            #[trigger] call_ensures(
                DeviceConfig::store_badblocks::<S, C>,
                (config, page, &set, &clear),
                r,
            ) ==> {
                let count = (last - first + 1) as u64;
                &&& final(config).bad_blocks.is_enabled()
                &&& bad ==> call_ensures(set, (first, count, 1i32), r is Ok)
                &&& !bad ==> call_ensures(clear, (first, count), r is Ok)
                &&& final(config).settings() == config.settings()
            },
{
    lemma_marking(bad, first, last);
    let op = crate::configfs::badblocks::BadBlockOp { bad, start: first, end: last };
    assert(seq![op][0] == op);
}

} // verus!
