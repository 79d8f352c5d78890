//! The module: its parameters and the devices that it creates.

use crate::block::badblocks::BadBlocks;
use crate::block::mq::gen_disk::QueueLimits;
use crate::block::mq::tag_set::TagSet;
use crate::configfs::{IRQMode, NUMA_NO_NODE};
use crate::device::setup::{
    NullBlkDisk, NullBlkOptions, NullBlkSettings, NullBlkTagsetData, TagRequest,
};
use crate::device::NullBlkDevice;
use crate::disk_storage::DiskStorage;
use crate::error::{Errno, Result, EINVAL};
use crate::text::decimal;
use vstd::prelude::*;

verus! {

/// Parameters of the module. Of parameters that are conditions zero stands for no.
#[derive(Debug, Clone, Copy, PartialEq, Eq, Structural)]
pub struct ModuleParameters {
    /// Capacity of a device in GiB.
    pub gb: u64,
    /// Whether the media rotates.
    pub rotational: u8,
    /// Size of a block in bytes.
    pub bs: u32,
    /// Number of devices to register.
    pub nr_devices: u64,
    /// How requests are completed: 0 by the submitter, 1 by a software interrupt, 2 by a timer.
    pub irqmode: u8,
    /// Time to complete a request, in nanoseconds.
    pub completion_nsec: u64,
    /// Whether data is kept.
    pub memory_backed: u8,
    /// Number of submission queues.
    pub submit_queues: u32,
    /// Whether there is a submission queue for each memory node.
    pub use_per_node_hctx: u8,
    /// Memory node.
    pub home_node: i32,
    /// Whether discards are supported.
    pub discard: u8,
    /// Whether there is no I/O scheduler.
    pub no_sched: u8,
    /// Bandwidth limit in MiB per second, zero for none.
    pub mbps: u32,
    /// Whether requests are processed where the driver can sleep.
    pub blocking: u8,
    /// Whether the tag set is shared between devices.
    pub shared_tags: u8,
    /// Queue depth of each hardware queue.
    pub hw_queue_depth: u32,
    /// Whether devices are zoned.
    pub zoned: u8,
    /// Size of a zone in MiB.
    pub zone_size: u32,
    /// Capacity of a zone in MiB, zero for the size of a zone.
    pub zone_capacity: u32,
    /// Number of conventional zones.
    pub zone_nr_conv: u32,
    /// Maximum number of open zones, zero for no limit.
    pub zone_max_open: u32,
    /// Maximum number of active zones, zero for no limit.
    pub zone_max_active: u32,
    /// Maximum size of an append in sectors.
    pub zone_append_max_sectors: u32,
    /// Number of polled queues.
    pub poll_queues: u32,
    /// Whether forced unit access is supported where there is a cache.
    pub fua: u8,
    /// Maximum size of a command in sectors.
    pub max_sectors: u32,
    /// Whether I/O buffers are aligned to pages.
    pub virt_boundary: u8,
    /// Whether all queues share one tag bitmap.
    pub shared_tag_bitmap: u8,
}

impl Default for ModuleParameters {
    fn default() -> (r: Self)
        ensures
            r == Self::initial(),
    {
        ModuleParameters {
            gb: 4,
            rotational: 0,
            bs: 4096,
            nr_devices: 1,
            irqmode: 0,
            completion_nsec: 10_000,
            memory_backed: 0,
            submit_queues: 1,
            use_per_node_hctx: 0,
            home_node: NUMA_NO_NODE,
            discard: 0,
            no_sched: 0,
            mbps: 0,
            blocking: 0,
            shared_tags: 0,
            hw_queue_depth: 64,
            zoned: 0,
            zone_size: 256,
            zone_capacity: 0,
            zone_nr_conv: 0,
            zone_max_open: 0,
            zone_max_active: 0,
            zone_append_max_sectors: 0,
            poll_queues: 0,
            fua: 1,
            max_sectors: 0,
            virt_boundary: 0,
            shared_tag_bitmap: 0,
        }
    }
}

impl ModuleParameters {
    /// The time to complete a request is a time, and the way to complete requests exists where there
    /// are devices.
    pub open spec fn acceptable(self) -> bool {
        self.completion_nsec <= i64::MAX && (self.nr_devices > 0 ==> self.irqmode <= 2)
    }

    /// The parameters where none is set.
    pub open spec fn initial() -> ModuleParameters {
        ModuleParameters {
            gb: 4,
            rotational: 0,
            bs: 4096,
            nr_devices: 1,
            irqmode: 0,
            completion_nsec: 10_000,
            memory_backed: 0,
            submit_queues: 1,
            use_per_node_hctx: 0,
            home_node: NUMA_NO_NODE,
            discard: 0,
            no_sched: 0,
            mbps: 0,
            blocking: 0,
            shared_tags: 0,
            hw_queue_depth: 64,
            zoned: 0,
            zone_size: 256,
            zone_capacity: 0,
            zone_nr_conv: 0,
            zone_max_open: 0,
            zone_max_active: 0,
            zone_append_max_sectors: 0,
            poll_queues: 0,
            fua: 1,
            max_sectors: 0,
            virt_boundary: 0,
            shared_tag_bitmap: 0,
        }
    }

    /// How requests are completed.
    pub open spec fn irq_mode(self) -> IRQMode {
        match self.irqmode {
            0 => IRQMode::Immediate,
            1 => IRQMode::Soft,
            _ => IRQMode::Timer,
        }
    }

    /// The settings of the devices.
    pub open spec fn settings_spec(self, online_nodes: u32) -> NullBlkSettings {
        NullBlkSettings {
            block_size_bytes: self.bs,
            rotational: self.rotational != 0,
            device_capacity_mib: (self.gb * 1024) as u64,
            irq_mode: self.irq_mode(),
            completion_time: self.completion_nsec as i64,
            memory_backed: self.memory_backed != 0,
            submit_queues: if self.use_per_node_hctx != 0 {
                online_nodes
            } else {
                self.submit_queues
            },
            poll_queues: self.poll_queues,
            home_node: self.home_node,
            discard: self.discard != 0,
            no_sched: self.no_sched != 0,
            bad_blocks_once: false,
            bad_blocks_partial_io: false,
            bandwidth_limit: (self.mbps * 0x10_0000) as u64,
            blocking: self.blocking != 0,
            shared_tags: self.shared_tags != 0,
            hw_queue_depth: self.hw_queue_depth,
            zoned: self.zoned != 0,
            zone_size_mib: self.zone_size,
            zone_capacity_mib: self.zone_capacity,
            zone_nr_conv: self.zone_nr_conv,
            zone_max_open: self.zone_max_open,
            zone_max_active: self.zone_max_active,
            zone_append_max_sectors: self.zone_append_max_sectors,
            forced_unit_access: self.fua != 0,
            max_sectors: self.max_sectors,
            virt_boundary: self.virt_boundary != 0,
            shared_tag_bitmap: self.shared_tag_bitmap != 0,
        }
    }

    /// The settings of the devices, where the number of the completion mode is one of a mode.
    pub fn settings(&self, online_nodes: u32) -> (r: Result<NullBlkSettings>)
        requires
            self.gb * 1024 <= u64::MAX,
            self.completion_nsec <= i64::MAX,
        ensures
            match r {
                Ok(settings) => self.irqmode <= 2 && settings == self.settings_spec(online_nodes),
                Err(e) => self.irqmode > 2 && e == Errno(EINVAL),
            },
    {
        let irq_mode = match IRQMode::try_from(self.irqmode) {
            Ok(mode) => mode,
            Err(e) => {
                return Err(e);
            },
        };
        Ok(NullBlkSettings {
            block_size_bytes: self.bs,
            rotational: self.rotational != 0,
            device_capacity_mib: self.gb * 1024,
            irq_mode: irq_mode,
            completion_time: self.completion_nsec as i64,
            memory_backed: self.memory_backed != 0,
            submit_queues: if self.use_per_node_hctx != 0 {
                online_nodes
            } else {
                self.submit_queues
            },
            poll_queues: self.poll_queues,
            home_node: self.home_node,
            discard: self.discard != 0,
            no_sched: self.no_sched != 0,
            bad_blocks_once: false,
            bad_blocks_partial_io: false,
            bandwidth_limit: self.mbps as u64 * 0x10_0000,
            blocking: self.blocking != 0,
            shared_tags: self.shared_tags != 0,
            hw_queue_depth: self.hw_queue_depth,
            zoned: self.zoned != 0,
            zone_size_mib: self.zone_size,
            zone_capacity_mib: self.zone_capacity,
            zone_nr_conv: self.zone_nr_conv,
            zone_max_open: self.zone_max_open,
            zone_max_active: self.zone_max_active,
            zone_append_max_sectors: self.zone_append_max_sectors,
            forced_unit_access: self.fua != 0,
            max_sectors: self.max_sectors,
            virt_boundary: self.virt_boundary != 0,
            shared_tag_bitmap: self.shared_tag_bitmap != 0,
        })
    }
}

/// The name of a device: `rnullb` and its number.
pub open spec fn device_name(index: int) -> Seq<u8> {
    seq![114u8, 110u8, 117u8, 108u8, 108u8, 98u8] + crate::text::digits(index as nat)
}

/// The name of a device.
fn name_of(index: u64) -> (r: Vec<u8>)
    ensures
        r@ == device_name(index as int),
{
    let mut name: Vec<u8> = vec![114u8, 110u8, 117u8, 108u8, 108u8, 98u8];
    let mut digits = decimal(index);
    name.append(&mut digits);
    assert(name@ =~= device_name(index as int));
    name
}

/// What device number `index` is made of.
pub open spec fn device_options(
    params: ModuleParameters,
    online_nodes: u32,
    index: int,
    options: NullBlkOptions,
) -> bool {
    &&& options.name@ == device_name(index)
    &&& options.settings == params.settings_spec(online_nodes)
    &&& !options.bad_blocks.is_enabled()
    &&& options.storage.inv()
    &&& options.storage@ == (crate::disk_storage::StorageState {
        cache: Map::empty(),
        disk: Map::empty(),
        cache_size: 0,
        cache_size_used: 0,
        next_flush_sector: 0,
        block_size: params.bs,
    })
}

/// The shared tag set, before and after a device is created.
pub type SharedTags = (Option<TagSet<NullBlkTagsetData>>, Option<TagSet<NullBlkTagsetData>>);

/// The outcome of creating device number `index`.
pub open spec fn device_outcome<
    T: Fn(TagRequest) -> i32,
    A: Fn(QueueLimits) -> i32,
    B: Fn(u64, bool) -> i32,
>(
    params: ModuleParameters,
    online_nodes: u32,
    request_size: u32,
    index: int,
    shared: SharedTags,
    alloc_tags: T,
    alloc_disk: A,
    add_disk: B,
    r: Result<NullBlkDisk>,
) -> bool {
    exists|options: NullBlkOptions| #[trigger]
        device_options(params, online_nodes, index, options)
            && crate::device::setup::new_outcome(
            options,
            online_nodes,
            request_size,
            shared,
            alloc_tags,
            alloc_disk,
            add_disk,
            r,
        )
}

/// The first devices were created one after the other; `shared` holds what the shared tag set was
/// before each of them, and after the last.
pub open spec fn devices_created<
    T: Fn(TagRequest) -> i32,
    A: Fn(QueueLimits) -> i32,
    B: Fn(u64, bool) -> i32,
>(
    params: ModuleParameters,
    online_nodes: u32,
    request_size: u32,
    shared: Seq<Option<TagSet<NullBlkTagsetData>>>,
    alloc_tags: T,
    alloc_disk: A,
    add_disk: B,
    disks: Seq<NullBlkDisk>,
) -> bool {
    &&& shared.len() == disks.len() + 1
    &&& shared[0] is None
    &&& forall|i: int|
        0 <= i < disks.len() ==> device_outcome(
            params,
            online_nodes,
            request_size,
            i,
            (shared[i], shared[i + 1]),
            alloc_tags,
            alloc_disk,
            add_disk,
            Ok(#[trigger] disks[i]),
        )
}

/// The device after those that were created fails: the host refuses its table of bad blocks, or
/// granted it and the device cannot be created.
pub open spec fn next_failed<
    W: Fn() -> i32,
    T: Fn(TagRequest) -> i32,
    A: Fn(QueueLimits) -> i32,
    B: Fn(u64, bool) -> i32,
>(
    params: ModuleParameters,
    online_nodes: u32,
    request_size: u32,
    shared: Seq<Option<TagSet<NullBlkTagsetData>>>,
    alloc_table: W,
    alloc_tags: T,
    alloc_disk: A,
    add_disk: B,
    disks: Seq<NullBlkDisk>,
    e: Errno,
) -> bool {
    exists|status: i32| #[trigger]
        call_ensures(alloc_table, (), status) && if status < 0 {
            crate::block::mq::gen_disk::refused(status, e)
        } else {
            exists|after: Option<TagSet<NullBlkTagsetData>>| #[trigger]
                device_outcome(
                    params,
                    online_nodes,
                    request_size,
                    disks.len() as int,
                    (shared.last(), after),
                    alloc_tags,
                    alloc_disk,
                    add_disk,
                    Err(e),
                )
        }
}

/// Devices that share their tag set have none of their own; there is one, once there is a device.
pub proof fn lemma_tags_are_shared<
    T: Fn(TagRequest) -> i32,
    A: Fn(QueueLimits) -> i32,
    B: Fn(u64, bool) -> i32,
>(
    params: ModuleParameters,
    online_nodes: u32,
    request_size: u32,
    shared: Seq<Option<TagSet<NullBlkTagsetData>>>,
    alloc_tags: T,
    alloc_disk: A,
    add_disk: B,
    disks: Seq<NullBlkDisk>,
    i: int,
)
    requires
        devices_created(
            params,
            online_nodes,
            request_size,
            shared,
            alloc_tags,
            alloc_disk,
            add_disk,
            disks,
        ),
        params.shared_tags != 0,
        0 <= i < disks.len(),
    ensures
        disks[i].tag_set is None,
        shared[i + 1] is Some,
        shared[i + 1] == shared[1],
    decreases i,
{
    if i > 0 {
        lemma_tags_are_shared(
            params,
            online_nodes,
            request_size,
            shared,
            alloc_tags,
            alloc_disk,
            add_disk,
            disks,
            i - 1,
        );
    }
    assert(device_outcome(
        params,
        online_nodes,
        request_size,
        i,
        (shared[i], shared[i + 1]),
        alloc_tags,
        alloc_disk,
        add_disk,
        Ok(disks[i]),
    ));
}

/// The devices that the module created.
pub struct NullBlkModule {
    /// The devices.
    pub param_disks: Vec<NullBlkDisk>,
    /// The tag set that devices share, once there is one.
    pub shared_tags: Option<TagSet<NullBlkTagsetData>>,
}

impl NullBlkModule {
    /// Creates the devices that the parameters ask for. The host allocates tables of bad blocks
    /// (`alloc_table`) and does what [`NullBlkDevice::new`] asks for.
    pub fn init<
        W: Fn() -> i32,
        T: Fn(TagRequest) -> i32,
        A: Fn(QueueLimits) -> i32,
        B: Fn(u64, bool) -> i32,
    >(
        params: ModuleParameters,
        online_nodes: u32,
        request_size: u32,
        alloc_table: &W,
        alloc_tags: &T,
        alloc_disk: &A,
        add_disk: &B,
    ) -> (r: Result<NullBlkModule>)
        requires
            params.nr_devices > 0 && params.completion_nsec <= i64::MAX ==> params.gb * 1024
                <= u64::MAX,
            params.nr_devices > 0 && params.acceptable() ==> {
                &&& call_requires(*alloc_table, ())
                &&& forall|index: int, options: NullBlkOptions|
                    0 <= index < params.nr_devices && #[trigger] device_options(
                        params,
                        online_nodes,
                        index,
                        options,
                    ) ==> options.answerable(
                        online_nodes,
                        None,
                        *alloc_tags,
                        *alloc_disk,
                        *add_disk,
                    )
            },
        ensures
            !params.acceptable() ==> (r matches Err(e) && e == Errno(EINVAL)),
            params.acceptable() ==> exists|
                shared: Seq<Option<TagSet<NullBlkTagsetData>>>,
                disks: Seq<NullBlkDisk>,
            |
                {
                    &&& #[trigger] devices_created(
                        params,
                        online_nodes,
                        request_size,
                        shared,
                        *alloc_tags,
                        *alloc_disk,
                        *add_disk,
                        disks,
                    )
                    &&& match r {
                        Ok(module) => {
                            &&& disks.len() == params.nr_devices
                            &&& disks == module.param_disks@
                            &&& shared.last() == module.shared_tags
                        },
                        Err(e) => {
                            &&& disks.len() < params.nr_devices
                            &&& next_failed(
                                params,
                                online_nodes,
                                request_size,
                                shared,
                                *alloc_table,
                                *alloc_tags,
                                *alloc_disk,
                                *add_disk,
                                disks,
                                e,
                            )
                        },
                    }
                },
    {
        if params.completion_nsec > i64::MAX as u64 {
            return Err(Errno(EINVAL));
        }
        let mut disks: Vec<NullBlkDisk> = Vec::new();
        let mut shared: Option<TagSet<NullBlkTagsetData>> = None;
        let ghost mut chain: Seq<Option<TagSet<NullBlkTagsetData>>> = seq![shared];
        let mut i: u64 = 0;
        while i < params.nr_devices
            invariant
                i <= params.nr_devices,
                params.nr_devices > 0 ==> params.gb * 1024 <= u64::MAX,
                params.completion_nsec <= i64::MAX,
                i > 0 ==> params.irqmode <= 2,
                params.nr_devices > 0 && params.irqmode <= 2 ==> {
                    &&& call_requires(*alloc_table, ())
                    &&& forall|index: int, options: NullBlkOptions|
                        0 <= index < params.nr_devices && #[trigger] device_options(
                            params,
                            online_nodes,
                            index,
                            options,
                        ) ==> options.answerable(
                            online_nodes,
                            None,
                            *alloc_tags,
                            *alloc_disk,
                            *add_disk,
                        )
                },
                shared is Some ==> params.settings_spec(online_nodes).tags_granted(*alloc_tags),
                disks@.len() == i,
                devices_created(
                    params,
                    online_nodes,
                    request_size,
                    chain,
                    *alloc_tags,
                    *alloc_disk,
                    *add_disk,
                    disks@,
                ),
                chain.last() == shared,
            decreases params.nr_devices - i,
        {
            let name = name_of(i);
            let settings = match params.settings(online_nodes) {
                Ok(settings) => settings,
                Err(e) => {
                    return Err(e);
                },
            };
            let status: i32 = alloc_table();
            let bad_blocks = match BadBlocks::new(false, status) {
                Ok(bad_blocks) => bad_blocks,
                Err(e) => {
                    assert(call_ensures(*alloc_table, (), status));
                    assert(next_failed(
                        params,
                        online_nodes,
                        request_size,
                        chain,
                        *alloc_table,
                        *alloc_tags,
                        *alloc_disk,
                        *add_disk,
                        disks@,
                        e,
                    ));
                    return Err(e);
                },
            };
            let options = NullBlkOptions {
                name,
                settings,
                bad_blocks,
                storage: DiskStorage::new(0, params.bs),
            };
            let ghost before = shared;
            let ghost made_of = options;
            assert(device_options(params, online_nodes, i as int, made_of));
            let made = NullBlkDevice::new(
                options,
                online_nodes,
                request_size,
                &mut shared,
                alloc_tags,
                alloc_disk,
                add_disk,
            );
            assert(device_outcome(
                params,
                online_nodes,
                request_size,
                i as int,
                (before, shared),
                *alloc_tags,
                *alloc_disk,
                *add_disk,
                crate::device::setup::outcome_of(made),
            ));
            match made {
                Ok(disk) => {
                    proof {
                        chain = chain.push(shared);
                    }
                    disks.push(disk);
                },
                Err(failed) => {
                    assert(next_failed(
                        params,
                        online_nodes,
                        request_size,
                        chain,
                        *alloc_table,
                        *alloc_tags,
                        *alloc_disk,
                        *add_disk,
                        disks@,
                        failed.error,
                    ));
                    return Err(failed.error);
                },
            }
            i += 1;
        }
        let module = NullBlkModule { param_disks: disks, shared_tags: shared };
        assert(devices_created(
            params,
            online_nodes,
            request_size,
            chain,
            *alloc_tags,
            *alloc_disk,
            *add_disk,
            module.param_disks@,
        ));
        Ok(module)
    }
}

} // verus!
