//! Creation of devices.

use crate::block::badblocks::BadBlocks;
use crate::block::mq::gen_disk::{GenDisk, GenDiskBuilder, QueueLimits};
use crate::block::mq::tag_set::{Flag, Flags, QueueMap, QueueType, TagSet};
use crate::configfs::IRQMode;
use crate::device::NullBlkDevice;
use crate::disk_storage::DiskStorage;
use crate::error::{Errno, Result, EINVAL};
use crate::text::is_utf8;
use crate::util::{mib_to_sectors, PAGE_SIZE, SECTOR_SHIFT};
use crate::zoned::{ZoneOptions, ZoneOptionsArgs};
use vstd::prelude::*;

verus! {

/// Settings of a device.
#[derive(Debug, Clone, Copy, PartialEq, Eq, Structural)]
pub struct NullBlkSettings {
    /// Size of a block in bytes.
    pub block_size_bytes: u32,
    /// Whether the media rotates.
    pub rotational: bool,
    /// Capacity in MiB.
    pub device_capacity_mib: u64,
    /// How requests are completed.
    pub irq_mode: IRQMode,
    /// Time to complete a request, in nanoseconds.
    pub completion_time: i64,
    /// Whether data is kept.
    pub memory_backed: bool,
    /// Number of submission queues.
    pub submit_queues: u32,
    /// Number of polled queues.
    pub poll_queues: u32,
    /// Memory node.
    pub home_node: i32,
    /// Whether discards are supported.
    pub discard: bool,
    /// Whether there is no I/O scheduler.
    pub no_sched: bool,
    /// Whether bad blocks become good when they are hit.
    pub bad_blocks_once: bool,
    /// Whether data before a bad block is transferred.
    pub bad_blocks_partial_io: bool,
    /// Bandwidth limit in bytes per second, zero for none.
    pub bandwidth_limit: u64,
    /// Whether requests are processed where the driver can sleep.
    pub blocking: bool,
    /// Whether the tag set is shared between devices.
    pub shared_tags: bool,
    /// Queue depth of each hardware queue.
    pub hw_queue_depth: u32,
    /// Whether the device is zoned.
    pub zoned: bool,
    /// Size of a zone in MiB.
    pub zone_size_mib: u32,
    /// Capacity of a zone in MiB, zero for the size of a zone.
    pub zone_capacity_mib: u32,
    /// Number of conventional zones.
    pub zone_nr_conv: u32,
    /// Maximum number of open zones, zero for no limit.
    pub zone_max_open: u32,
    /// Maximum number of active zones, zero for no limit.
    pub zone_max_active: u32,
    /// Maximum size of an append in sectors.
    pub zone_append_max_sectors: u32,
    /// Whether forced unit access is supported where there is a cache.
    pub forced_unit_access: bool,
    /// Maximum size of a command in sectors.
    pub max_sectors: u32,
    /// Whether I/O buffers are aligned to pages.
    pub virt_boundary: bool,
    /// Whether all queues share one tag bitmap.
    pub shared_tag_bitmap: bool,
}

/// Everything that a device is made of.
pub struct NullBlkOptions {
    /// Name of the device.
    pub name: Vec<u8>,
    /// Settings.
    pub settings: NullBlkSettings,
    /// Tracker of bad blocks.
    pub bad_blocks: BadBlocks,
    /// Memory that backs the device.
    pub storage: DiskStorage,
}

/// Number of queues.
#[derive(Debug, Clone, Copy, PartialEq, Eq, Structural)]
pub struct QueueConfig {
    /// Number of submission queues.
    pub submit_queues: u32,
    /// Number of polled queues.
    pub poll_queues: u32,
}

/// Data of a tag set.
#[derive(Debug, Clone, Copy, PartialEq, Eq, Structural)]
pub struct NullBlkTagsetData {
    /// Queue depth of each hardware queue.
    pub queue_depth: u32,
    /// Number of queues.
    pub queue_config: QueueConfig,
}

/// A disk with its tag set, where that is not the shared one.
pub type NullBlkDisk = GenDisk<NullBlkDevice, Option<TagSet<NullBlkTagsetData>>>;

/// What the host is asked for when it allocates tags.
#[derive(Debug, Clone, Copy, PartialEq, Eq, Structural)]
pub struct TagRequest {
    /// Number of hardware queues.
    pub nr_hw_queues: u32,
    /// Queue depth of each hardware queue.
    pub queue_depth: u32,
    /// Number of queue maps.
    pub nr_maps: u32,
    /// Memory node.
    pub home_node: i32,
    /// Bits of the flags.
    pub flags: u32,
}

impl NullBlkSettings {
    /// The memory node is one that the host can have.
    pub open spec fn node_ok(self, online_nodes: u32) -> bool {
        online_nodes <= i32::MAX && self.home_node <= online_nodes
    }

    /// The flags of the tag set.
    pub open spec fn flag_bits(self) -> u32 {
        let blocking = if self.blocking || self.memory_backed {
            0u32 | Flag::Blocking.bit()
        } else {
            0u32
        };
        let scheduler = if self.no_sched {
            blocking | Flag::NoDefaultScheduler.bit()
        } else {
            blocking
        };
        if self.shared_tag_bitmap {
            scheduler | Flag::TagHctxShared.bit()
        } else {
            scheduler
        }
    }

    /// The tags that the device needs.
    pub open spec fn tag_request(self) -> TagRequest {
        TagRequest {
            nr_hw_queues: (self.submit_queues + self.poll_queues) as u32,
            queue_depth: self.hw_queue_depth,
            nr_maps: if self.poll_queues == 0 {
                1
            } else {
                3
            },
            home_node: self.home_node,
            flags: self.flag_bits(),
        }
    }

    /// Whether a tag set has to be created.
    pub open spec fn needs_tags(self, shared: Option<TagSet<NullBlkTagsetData>>) -> bool {
        !(self.shared_tags && shared is Some)
    }

    /// The host was asked for the tags of the device and granted them.
    pub open spec fn tags_granted<T: Fn(TagRequest) -> i32>(self, alloc_tags: T) -> bool {
        exists|status: i32| #[trigger]
            call_ensures(alloc_tags, (self.tag_request(),), status) && status >= 0
    }

    /// A tag set that belongs to the device. `request_size` is the size of the driver data of a
    /// request.
    pub open spec fn tags_ok(self, request_size: u32, set: TagSet<NullBlkTagsetData>) -> bool {
        &&& set.inv()
        &&& set.cmd_size == request_size
        &&& set.nr_hw_queues == self.submit_queues + self.poll_queues
        &&& set.queue_depth == self.hw_queue_depth
        &&& set.numa_node == self.home_node
        &&& set.flags.bits() == self.flag_bits()
        &&& set.maps@ == crate::block::mq::tag_set::new_maps(self.tag_request().nr_maps as int)
        &&& set.data == (NullBlkTagsetData {
            queue_depth: self.hw_queue_depth,
            queue_config: QueueConfig {
                submit_queues: self.submit_queues,
                poll_queues: self.poll_queues,
            },
        })
    }

    /// The arithmetic on the settings stays in its words.
    pub open spec fn computable(self, shared: Option<TagSet<NullBlkTagsetData>>) -> bool {
        &&& self.needs_tags(shared) ==> self.submit_queues + self.poll_queues <= u32::MAX
        &&& self.zone_args().zone_sizes_ok() ==> self.zone_args().computable()
    }

    /// The configuration of the zones.
    pub open spec fn zone_args(self) -> ZoneOptionsArgs {
        ZoneOptionsArgs {
            enable: self.zoned,
            device_capacity_mib: self.device_capacity_mib,
            block_size_bytes: self.block_size_bytes,
            zone_size_mib: self.zone_size_mib,
            zone_capacity_mib: self.zone_capacity_mib,
            zone_nr_conv: self.zone_nr_conv,
            zone_max_open: self.zone_max_open,
            zone_max_active: self.zone_max_active,
            zone_append_max_sectors: self.zone_append_max_sectors,
        }
    }

    /// The zones can be set up.
    pub open spec fn zones_ok(self) -> bool {
        self.zone_args().zone_sizes_ok() && self.zone_args().zone_count() <= u32::MAX
    }

    /// The configuration of the disk.
    pub open spec fn builder(self, cache: bool) -> GenDiskBuilder {
        GenDiskBuilder {
            rotational: self.rotational,
            logical_block_size: self.block_size_bytes,
            physical_block_size: self.block_size_bytes,
            capacity_sectors: self.zone_args().device_sectors() as u64,
            max_hw_discard_sectors: if self.memory_backed && self.discard && !self.zoned {
                0x7f_ffff
            } else {
                0
            },
            zoned: self.zoned,
            zone_size_sectors: self.zone_args().zone_sectors() as u32,
            zone_append_max_sectors: self.zone_append_max_sectors,
            write_cache: cache,
            forced_unit_access: self.forced_unit_access && cache,
            max_sectors: self.max_sectors,
            virt_boundary_mask: if self.virt_boundary {
                4095
            } else {
                0
            },
        }
    }

    /// The device that is made with these settings.
    pub open spec fn device_ok(self, options: NullBlkOptions, device: NullBlkDevice) -> bool {
        &&& device.storage == options.storage
        &&& device.irq_mode == self.irq_mode
        &&& device.completion_time == self.completion_time
        &&& device.memory_backed == self.memory_backed
        &&& device.block_size_bytes == self.block_size_bytes
        &&& device.bad_blocks == options.bad_blocks
        &&& device.bad_blocks_once == self.bad_blocks_once
        &&& device.bad_blocks_partial_io == self.bad_blocks_partial_io
        &&& device.bandwidth_limit == self.bandwidth_limit / 50
        &&& device.bandwidth_bytes == 0
        &&& device.zoned.inv()
        &&& crate::zoned::exact(device.zoned@)
        &&& device.zoned@ == self.zone_args().new_zones()
        &&& device.requeue_selector == 0
    }
}

impl NullBlkOptions {
    /// The configuration of the disk.
    pub open spec fn builder(self) -> GenDiskBuilder {
        self.settings.builder(self.storage@.cache_size != 0)
    }

    /// Nothing is wrong with the options but for a name that may be too long.
    pub open spec fn acceptable(self) -> bool {
        &&& self.settings.zones_ok()
        &&& crate::block::mq::gen_disk::valid_block_size(self.settings.block_size_bytes)
        &&& vstd::utf8::valid_utf8(self.name@)
    }

    /// A device can be created for as far as arithmetic goes, and the host can be asked for what it
    /// takes. Nothing is asked for a memory node that does not exist; tags are asked for where the
    /// device needs a tag set; and a disk is asked for once the device has one, where the options
    /// are acceptable.
    pub open spec fn answerable<
        T: Fn(TagRequest) -> i32,
        A: Fn(QueueLimits) -> i32,
        B: Fn(u64, bool) -> i32,
    >(
        self,
        online_nodes: u32,
        shared: Option<TagSet<NullBlkTagsetData>>,
        alloc_tags: T,
        alloc_disk: A,
        add_disk: B,
    ) -> bool {
        self.settings.node_ok(online_nodes) ==> {
            &&& self.settings.computable(shared)
            &&& self.settings.needs_tags(shared) ==> call_requires(
                alloc_tags,
                (self.settings.tag_request(),),
            )
            &&& self.acceptable() && (self.settings.needs_tags(shared)
                ==> self.settings.tags_granted(alloc_tags)) ==> self.builder().answerable(
                self.name@,
                alloc_disk,
                add_disk,
            )
        }
    }
}

/// The outcome of building the disk of a device: what is wrong with the options is found before the
/// host is asked, except for a name that is too long.
pub open spec fn disk_outcome<A: Fn(QueueLimits) -> i32, B: Fn(u64, bool) -> i32>(
    options: NullBlkOptions,
    alloc_disk: A,
    add_disk: B,
    r: Result<NullBlkDisk>,
) -> bool {
    if options.acceptable() {
        &&& options.builder().built(options.name@, alloc_disk, add_disk, r)
        &&& r matches Ok(disk) ==> options.settings.device_ok(options, disk.queue.queue_data)
    } else {
        r == Err::<NullBlkDisk, Errno>(Errno(EINVAL))
    }
}

/// The outcome of creating a device. `shared` is the shared tag set before and after.
pub open spec fn new_outcome<
    T: Fn(TagRequest) -> i32,
    A: Fn(QueueLimits) -> i32,
    B: Fn(u64, bool) -> i32,
>(
    options: NullBlkOptions,
    online_nodes: u32,
    request_size: u32,
    shared: (Option<TagSet<NullBlkTagsetData>>, Option<TagSet<NullBlkTagsetData>>),
    alloc_tags: T,
    alloc_disk: A,
    add_disk: B,
    r: Result<NullBlkDisk>,
) -> bool {
    let settings = options.settings;
    let tags = match r {
        Ok(disk) => disk.tag_set,
        Err(_) => None,
    };
    if !settings.node_ok(online_nodes) {
        r == Err::<NullBlkDisk, Errno>(Errno(EINVAL)) && shared.1 == shared.0
    } else if !settings.needs_tags(shared.0) {
        &&& shared.1 == shared.0
        &&& tags is None
        &&& disk_outcome(options, alloc_disk, add_disk, r)
    } else {
        exists|status: i32| #[trigger]
            call_ensures(alloc_tags, (settings.tag_request(),), status) && if status < 0 {
                &&& shared.1 == shared.0
                &&& r matches Err(e)
                &&& crate::block::mq::gen_disk::refused(status, e)
            } else {
                &&& disk_outcome(options, alloc_disk, add_disk, r)
                &&& if settings.shared_tags {
                    tags is None && (shared.1 matches Some(set) && settings.tags_ok(request_size, set))
                } else {
                    shared.1 == shared.0 && (r is Ok ==> (tags matches Some(set)
                        && settings.tags_ok(request_size, set)))
                }
            }
    }
}

/// What is left where a device could not be created.
pub struct NotCreated {
    /// The error.
    pub error: Errno,
    /// Tracker of bad blocks.
    pub bad_blocks: BadBlocks,
    /// Memory that backs the device.
    pub storage: DiskStorage,
}

/// The outcome of creating a device, without what is handed back.
pub open spec fn outcome_of(r: core::result::Result<NullBlkDisk, NotCreated>) -> Result<NullBlkDisk> {
    match r {
        Ok(disk) => Ok(disk),
        Err(failed) => Err(failed.error),
    }
}

impl NullBlkDevice {
    /// Takes apart a device that could not be added to the system.
    fn not_created(self, error: Errno) -> (r: NotCreated)
        ensures
            r == (NotCreated { error, bad_blocks: self.bad_blocks, storage: self.storage }),
    {
        NotCreated { error, bad_blocks: self.bad_blocks, storage: self.storage }
    }
}

/// The flags of the tag set.
fn tag_flags(settings: &NullBlkSettings) -> (r: Flags)
    ensures
        r.bits() == settings.flag_bits(),
{
    let mut flags = Flags::default();
    if settings.blocking || settings.memory_backed {
        flags.insert_all(Flags::from_flag(Flag::Blocking));
    }
    if settings.no_sched {
        flags.insert_all(Flags::from_flag(Flag::NoDefaultScheduler));
    }
    if settings.shared_tag_bitmap {
        flags.insert_all(Flags::from_flag(Flag::TagHctxShared));
    }
    flags
}

impl NullBlkDevice {
    /// Creates a tag set. `request_size` is the size of the driver data of a request.
    fn create_tags<T: Fn(TagRequest) -> i32>(
        settings: &NullBlkSettings,
        request_size: u32,
        alloc_tags: &T,
    ) -> (r: Result<TagSet<NullBlkTagsetData>>)
        requires
            settings.submit_queues + settings.poll_queues <= u32::MAX,
            call_requires(*alloc_tags, (settings.tag_request(),)),
        ensures
            exists|status: i32| #[trigger]
                call_ensures(*alloc_tags, (settings.tag_request(),), status) && match r {
                    Ok(set) => status >= 0 && settings.tags_ok(request_size, set),
                    Err(e) => crate::block::mq::gen_disk::refused(status, e),
                },
    {
        let flags = tag_flags(settings);
        let nr_maps: u32 = if settings.poll_queues == 0 {
            1
        } else {
            3
        };
        let request = TagRequest {
            nr_hw_queues: settings.submit_queues + settings.poll_queues,
            queue_depth: settings.hw_queue_depth,
            nr_maps,
            home_node: settings.home_node,
            flags: flags.into_inner(),
        };
        let status: i32 = alloc_tags(request);
        let data = NullBlkTagsetData {
            queue_depth: settings.hw_queue_depth,
            queue_config: QueueConfig {
                submit_queues: settings.submit_queues,
                poll_queues: settings.poll_queues,
            },
        };
        let set = TagSet::new(
            request.nr_hw_queues,
            data,
            settings.hw_queue_depth,
            nr_maps,
            settings.home_node,
            flags,
            request_size as usize,
            status,
        );
        match set {
            Ok(set) => Ok(set),
            Err((e, _)) => Err(e),
        }
    }

    /// Builds a disk.
    fn build_disk<A: Fn(QueueLimits) -> i32, B: Fn(u64, bool) -> i32>(
        options: NullBlkOptions,
        tags: Option<TagSet<NullBlkTagsetData>>,
        alloc_disk: &A,
        add_disk: &B,
    ) -> (r: core::result::Result<NullBlkDisk, NotCreated>)
        requires
            options.settings.zone_args().zone_sizes_ok()
                ==> options.settings.zone_args().computable(),
            options.acceptable() ==> options.builder().answerable(
                options.name@,
                *alloc_disk,
                *add_disk,
            ),
        ensures
            disk_outcome(options, *alloc_disk, *add_disk, outcome_of(r)),
            r matches Ok(disk) ==> disk.tag_set == tags,
            r matches Err(failed) ==> failed.bad_blocks == options.bad_blocks && failed.storage
                == options.storage,
    {
        let settings = options.settings;
        let ghost goal = options.builder();
        let device_capacity_sectors: u64 = mib_to_sectors(settings.device_capacity_mib);
        let zoned = match ZoneOptions::new(
            ZoneOptionsArgs {
                enable: settings.zoned,
                device_capacity_mib: settings.device_capacity_mib,
                block_size_bytes: settings.block_size_bytes,
                zone_size_mib: settings.zone_size_mib,
                zone_capacity_mib: settings.zone_capacity_mib,
                zone_nr_conv: settings.zone_nr_conv,
                zone_max_open: settings.zone_max_open,
                zone_max_active: settings.zone_max_active,
                zone_append_max_sectors: settings.zone_append_max_sectors,
            },
        ) {
            Ok(zoned) => zoned,
            Err(error) => {
                return Err(
                    NotCreated { error, bad_blocks: options.bad_blocks, storage: options.storage },
                );
            },
        };
        let zone_size: u32 = zoned.size_sectors;
        assert(zone_size == settings.zone_args().zone_sectors());
        let cache_enabled: bool = options.storage.cache_enabled();
        let queue_data = NullBlkDevice {
            storage: options.storage,
            irq_mode: settings.irq_mode,
            completion_time: settings.completion_time,
            memory_backed: settings.memory_backed,
            block_size_bytes: settings.block_size_bytes,
            bad_blocks: options.bad_blocks,
            bad_blocks_once: settings.bad_blocks_once,
            bad_blocks_partial_io: settings.bad_blocks_partial_io,
            bandwidth_limit: settings.bandwidth_limit / 50,
            bandwidth_bytes: 0,
            zoned,
            requeue_selector: 0,
        };
        let sized = match GenDiskBuilder::new().capacity_sectors(
            device_capacity_sectors,
        ).logical_block_size(settings.block_size_bytes) {
            Ok(builder) => builder,
            Err(error) => {
                return Err(queue_data.not_created(error));
            },
        };
        let sized = match sized.physical_block_size(settings.block_size_bytes) {
            Ok(builder) => builder,
            Err(error) => {
                return Err(queue_data.not_created(error));
            },
        };
        let mut builder = sized.rotational(settings.rotational).write_cache(
            cache_enabled,
        ).forced_unit_access(settings.forced_unit_access && cache_enabled).max_sectors(
            settings.max_sectors,
        );
        if settings.virt_boundary {
            builder = builder.virt_boundary_mask(PAGE_SIZE - 1);
        }
        builder = builder.zoned(settings.zoned).zone_size(zone_size).zone_append_max(
            settings.zone_append_max_sectors,
        );
        if settings.memory_backed && settings.discard && !settings.zoned {
            assert(0xffff_ffffu32 >> 9u32 == 0x7f_ffffu32) by (bit_vector);
            builder = builder.max_hw_discard_sectors(u32::MAX >> SECTOR_SHIFT);
        }
        assert(builder == goal);
        if !is_utf8(options.name.as_slice()) {
            return Err(queue_data.not_created(Errno(EINVAL)));
        }
        let built = builder.build(options.name, tags, queue_data, true, alloc_disk, add_disk);
        match built {
            Ok(disk) => Ok(disk),
            Err((error, queue_data)) => Err(queue_data.not_created(error)),
        }
    }

    /// Creates a device. The host allocates tags (`alloc_tags`), allocates a disk with given limits
    /// (`alloc_disk`) and adds it to the system (`add_disk`); all answer with zero or a negative
    /// error number. The first device that shares its tag set leaves it in `shared`. Where there is
    /// no device the tracker of bad blocks and the storage are handed back.
    pub fn new<T: Fn(TagRequest) -> i32, A: Fn(QueueLimits) -> i32, B: Fn(u64, bool) -> i32>(
        options: NullBlkOptions,
        online_nodes: u32,
        request_size: u32,
        shared: &mut Option<TagSet<NullBlkTagsetData>>,
        alloc_tags: &T,
        alloc_disk: &A,
        add_disk: &B,
    ) -> (r: core::result::Result<NullBlkDisk, NotCreated>)
        requires
            options.answerable(online_nodes, *old(shared), *alloc_tags, *alloc_disk, *add_disk),
        ensures
            new_outcome(
                options,
                online_nodes,
                request_size,
                (*old(shared), *final(shared)),
                *alloc_tags,
                *alloc_disk,
                *add_disk,
                outcome_of(r),
            ),
            r matches Ok(disk) ==> (options.storage.inv() && options.storage@.below_limit()
                ==> disk.queue.queue_data.inv()),
            r matches Err(failed) ==> failed.bad_blocks == options.bad_blocks && failed.storage
                == options.storage,
    {
        let settings = options.settings;
        if online_nodes > i32::MAX as u32 || settings.home_node > online_nodes as i32 {
            return Err(
                NotCreated {
                    error: Errno(EINVAL),
                    bad_blocks: options.bad_blocks,
                    storage: options.storage,
                },
            );
        }
        let mut tags: Option<TagSet<NullBlkTagsetData>> = None;
        let create: bool = if settings.shared_tags {
            shared.is_none()
        } else {
            true
        };
        if create {
            let set = match Self::create_tags(&settings, request_size, alloc_tags) {
                Ok(set) => set,
                Err(error) => {
                    return Err(
                        NotCreated {
                            error,
                            bad_blocks: options.bad_blocks,
                            storage: options.storage,
                        },
                    );
                },
            };
            if settings.shared_tags {
                *shared = Some(set);
            } else {
                tags = Some(set);
            }
        }
        Self::build_disk(options, tags, alloc_disk, add_disk)
    }

    /// Lays out the queues: submission queues first, then polled queues. Where the number of
    /// hardware queues is not the configured one, there is one submission queue.
    pub fn map_queues(tag_set: &mut TagSet<NullBlkTagsetData>)
        requires
            old(tag_set).inv(),
            old(tag_set).data.queue_config.submit_queues + old(
                tag_set,
            ).data.queue_config.poll_queues <= u32::MAX,
        ensures
            final(tag_set).inv(),
            *final(tag_set) == (TagSet { maps: final(tag_set).maps, ..*old(tag_set) }),
            final(tag_set).maps@ == mapped_queues(
                old(tag_set).maps@,
                layout(old(tag_set).nr_hw_queues, old(tag_set).data.queue_config),
            ),
    {
        let config = tag_set.data().queue_config;
        let mut submit_queue_count: u32 = config.submit_queues;
        let mut poll_queue_count: u32 = config.poll_queues;
        if tag_set.hw_queue_count() != submit_queue_count + poll_queue_count {
            submit_queue_count = 1;
            poll_queue_count = 0;
        }
        let ghost layout = layout(old(tag_set).nr_hw_queues, old(tag_set).data.queue_config);
        let ghost before = tag_set.maps@;
        let place = |map: QueueMap| -> (r: QueueMap)
            ensures
                r == mapped_queue(map, layout),
            {
                let mut qmap = map;
                let queue_count: u32 = match qmap.kind() {
                    QueueType::Default => submit_queue_count,
                    QueueType::Read => 0,
                    QueueType::Poll => poll_queue_count,
                };
                let offset: u32 = match qmap.kind() {
                    QueueType::Default => 0,
                    QueueType::Read => submit_queue_count,
                    QueueType::Poll => submit_queue_count,
                };
                qmap.set_queue_count(queue_count);
                qmap.set_offset(offset);
                qmap.map_queues();
                qmap
            };
        let updated = tag_set.update_maps(place);
        assert(updated is Ok);
        proof {
            assert forall|i: int| 0 <= i < before.len() implies #[trigger] tag_set.maps@[i]
                == mapped_queue(before[i], layout) by {
                assert(call_ensures(place, (before[i],), tag_set.maps@[i]));
            }
            assert(tag_set.maps@ =~= mapped_queues(before, layout));
        }
    }
}

/// The number of queues that are laid out.
pub open spec fn layout(nr_hw_queues: u32, config: QueueConfig) -> QueueConfig {
    if nr_hw_queues == config.submit_queues + config.poll_queues {
        config
    } else {
        QueueConfig { submit_queues: 1, poll_queues: 0 }
    }
}

/// The layout of the queues of one type.
pub open spec fn mapped_queue(map: QueueMap, config: QueueConfig) -> QueueMap {
    QueueMap {
        nr_queues: match map.kind {
            QueueType::Default => config.submit_queues,
            QueueType::Read => 0,
            QueueType::Poll => config.poll_queues,
        },
        queue_offset: if map.kind == QueueType::Default {
            0
        } else {
            config.submit_queues
        },
        mapped: true,
        kind: map.kind,
    }
}

/// The layout of the queues.
pub open spec fn mapped_queues(maps: Seq<QueueMap>, config: QueueConfig) -> Seq<QueueMap> {
    Seq::new(maps.len(), |i: int| mapped_queue(maps[i], config))
}

/// With maps for all types each hardware queue belongs to exactly one map.
pub proof fn lemma_queues_are_mapped_once(set: TagSet<NullBlkTagsetData>, queue: int)
    requires
        set.inv(),
        set.maps@.len() == 3,
        set.nr_hw_queues == set.data.queue_config.submit_queues
            + set.data.queue_config.poll_queues,
        0 <= queue < set.nr_hw_queues,
    ensures
        ({
            let maps = mapped_queues(
                set.maps@,
                layout(set.nr_hw_queues, set.data.queue_config),
            );
            exists|i: int|
                0 <= i < 3 && #[trigger] in_map(maps[i], queue) && forall|j: int|
                    0 <= j < 3 && #[trigger] in_map(maps[j], queue) ==> i == j
        }),
{
    let config = layout(set.nr_hw_queues, set.data.queue_config);
    let maps = mapped_queues(set.maps@, config);
    assert(set.maps@[0].kind.raw() == 0 && set.maps@[1].kind.raw() == 1 && set.maps@[2].kind.raw()
        == 2);
    let i: int = if queue < config.submit_queues {
        0
    } else {
        2
    };
    assert(in_map(maps[i], queue));
}

/// A hardware queue is one of a map.
pub open spec fn in_map(map: QueueMap, queue: int) -> bool {
    map.queue_offset <= queue < map.queue_offset + map.nr_queues
}

} // verus!
