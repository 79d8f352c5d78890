//! Configuration of devices.

use crate::block::badblocks::BadBlocks;
use crate::block::mq::gen_disk::{GenDisk, GenDiskBuilder, QueueLimits};
use crate::block::mq::request_queue::RequestQueue;
use crate::block::mq::tag_set::TagSet;
use crate::device::setup::{NullBlkDisk, NullBlkOptions, NullBlkSettings, NullBlkTagsetData, TagRequest};
use crate::device::NullBlkDevice;
use crate::disk_storage::{DiskStorage, StorageState};
use crate::error::{Errno, Result, EBUSY, EINVAL};
use crate::text::{decimal, parse_signed, parse_unsigned, signed_decimal, trim};
use vstd::prelude::*;

pub mod badblocks;

verus! {

/// No memory node.
pub const NUMA_NO_NODE: i32 = -1;

/// How requests are completed.
#[derive(Debug, Clone, Copy, PartialEq, Eq, Structural)]
pub enum IRQMode {
    /// By the submitter, at once.
    Immediate,
    /// By a software interrupt.
    Soft,
    /// By a timer.
    Timer,
}

impl IRQMode {
    /// The number of the mode.
    pub open spec fn raw(self) -> int {
        match self {
            IRQMode::Immediate => 0,
            IRQMode::Soft => 1,
            IRQMode::Timer => 2,
        }
    }

    /// The mode with a number.
    pub fn try_from(value: u8) -> (r: Result<Self>)
        ensures
            match r {
                Ok(mode) => mode.raw() == value,
                Err(e) => value > 2 && e == Errno(EINVAL),
            },
    {
        match value {
            0 => Ok(IRQMode::Immediate),
            1 => Ok(IRQMode::Soft),
            2 => Ok(IRQMode::Timer),
            _ => Err(Errno(EINVAL)),
        }
    }

    /// The mode as text.
    pub fn text(self) -> (r: Vec<u8>)
        ensures
            r@ == crate::text::digits(self.raw() as nat),
    {
        match self {
            IRQMode::Immediate => decimal(0),
            IRQMode::Soft => decimal(1),
            IRQMode::Timer => decimal(2),
        }
    }

    /// Reads a mode.
    pub fn from_str(s: &[u8]) -> (r: Result<Self>)
        ensures
            match r {
                Ok(mode) => crate::text::parsed(s@, 0, 255) == Some(mode.raw()),
                Err(e) => {
                    &&& e == Errno(EINVAL)
                    &&& match crate::text::parsed(s@, 0, 255) {
                        Some(value) => value > 2,
                        None => true,
                    }
                },
            },
    {
        match parse_unsigned(s, 255) {
            Some(value) => IRQMode::try_from(value as u8),
            None => Err(Errno(EINVAL)),
        }
    }
}

/// A mode that is written and read again is the same mode.
pub proof fn lemma_irq_mode_round_trip(mode: IRQMode)
    ensures
        crate::text::parsed(crate::text::digits(mode.raw() as nat), 0, 255) == Some(mode.raw()),
{
    crate::text::lemma_number_round_trip(mode.raw(), 0, 255);
}

/// The configuration of a device.
pub struct DeviceConfig {
    /// Whether the device exists.
    pub powered: bool,
    /// Name of the device.
    pub name: Vec<u8>,
    /// Size of a block in bytes.
    pub block_size: u32,
    /// Whether the media rotates.
    pub rotational: bool,
    /// Capacity in MiB.
    pub capacity_mib: u64,
    /// How requests are completed.
    pub irq_mode: IRQMode,
    /// Time to complete a request, in nanoseconds.
    pub completion_time: i64,
    /// Whether data is kept.
    pub memory_backed: bool,
    /// Number of submission queues.
    pub submit_queues: u32,
    /// Memory node.
    pub home_node: i32,
    /// Whether discards are supported.
    pub discard: bool,
    /// Whether there is no I/O scheduler.
    pub no_sched: bool,
    /// Tracker of bad blocks.
    pub bad_blocks: BadBlocks,
    /// Whether bad blocks become good when they are hit.
    pub bad_blocks_once: bool,
    /// Whether data before a bad block is transferred.
    pub bad_blocks_partial_io: bool,
    /// Size of the write cache in MiB.
    pub cache_size_mib: u64,
    /// Memory that backs the device, where the device does not hold it.
    pub disk_storage: Option<DiskStorage>,
    /// The device, where it exists.
    pub disk: Option<NullBlkDisk>,
    /// Bandwidth limit in MiB per second, zero for none.
    pub mbps: u32,
    /// Whether requests are processed where the driver can sleep.
    pub blocking: bool,
    /// Whether the tag set is shared between devices.
    pub shared_tags: bool,
    /// Queue depth of each hardware queue.
    pub hw_queue_depth: u32,
}

/// A text with a line end.
pub open spec fn line(s: Seq<u8>) -> Seq<u8> {
    s.push(10)
}

/// The text of a condition.
pub open spec fn condition_text(condition: bool) -> Seq<u8> {
    if condition {
        seq![116u8, 114u8, 117u8, 101u8]
    } else {
        seq![102u8, 97u8, 108u8, 115u8, 101u8]
    }
}

/// The digit of a condition.
pub open spec fn condition_digit(condition: bool) -> Seq<u8> {
    if condition {
        seq![49u8]
    } else {
        seq![48u8]
    }
}

/// Shows a number.
fn show_number(value: u64) -> (r: Vec<u8>)
    ensures
        r@ == line(crate::text::number_text(value as int)),
{
    let mut r = decimal(value);
    r.push(10);
    r
}

/// Shows a number that can be negative.
fn show_signed(value: i64) -> (r: Vec<u8>)
    ensures
        r@ == line(crate::text::number_text(value as int)),
{
    let mut r = signed_decimal(value);
    r.push(10);
    r
}

/// Shows a condition as a word.
fn show_condition(value: bool) -> (r: Vec<u8>)
    ensures
        r@ == line(condition_text(value)),
{
    let r: Vec<u8> = if value {
        vec![116u8, 114u8, 117u8, 101u8, 10u8]
    } else {
        vec![102u8, 97u8, 108u8, 115u8, 101u8, 10u8]
    };
    assert(r@ =~= line(condition_text(value)));
    r
}

/// Shows a condition as a digit.
fn show_digit(value: bool) -> (r: Vec<u8>)
    ensures
        r@ == line(condition_digit(value)),
{
    let r: Vec<u8> = if value {
        vec![49u8, 10u8]
    } else {
        vec![48u8, 10u8]
    };
    assert(r@ =~= line(condition_digit(value)));
    r
}

/// The number that an attribute is set to: attributes of a device that exists cannot be set, and a
/// text that is not a number between `min` and `max`, with white space around it, is refused.
pub open spec fn number_given(powered: bool, page: Seq<u8>, min: int, max: int) -> Result<int> {
    if powered {
        Err(Errno(EBUSY))
    } else {
        match crate::text::parsed(crate::text::trimmed(page), min, max) {
            Some(value) => Ok(value),
            None => Err(Errno(EINVAL)),
        }
    }
}

/// The condition that an attribute is set to, where the host reads the text: attributes of a device
/// that exists cannot be set.
pub open spec fn condition_given(powered: bool, flag: Result<bool>) -> Result<bool> {
    if powered {
        Err(Errno(EBUSY))
    } else {
        flag
    }
}

impl DeviceConfig {
    /// The configuration is powered exactly where there is a disk. The storage is with the disk, or
    /// else with the configuration, and is well formed; and the disk tracks bad blocks exactly where
    /// the configuration does.
    pub open spec fn inv(&self) -> bool {
        &&& self.powered == self.disk is Some
        &&& self.powered == self.disk_storage is None
        &&& self.disk_storage matches Some(storage) ==> storage.inv() && storage@.below_limit()
        &&& self.disk matches Some(disk) ==> disk.queue.queue_data.inv()
            && disk.queue.queue_data.bad_blocks == self.bad_blocks
    }

    /// The configuration, and its device where it exists, with bad blocks tracked.
    pub open spec fn tracking(self) -> DeviceConfig {
        DeviceConfig {
            bad_blocks: self.bad_blocks.with_switch_on(),
            disk: match self.disk {
                Some(disk) => Some(
                    GenDisk {
                        queue: RequestQueue {
                            queue_data: NullBlkDevice {
                                bad_blocks: disk.queue.queue_data.bad_blocks.with_switch_on(),
                                ..disk.queue.queue_data
                            },
                            ..disk.queue
                        },
                        ..disk
                    },
                ),
                None => None,
            },
            ..self
        }
    }

    /// Lets the configuration and its device track bad blocks.
    fn track_bad_blocks(&mut self)
        ensures
            *final(self) == old(self).tracking(),
            final(self).bad_blocks.is_enabled(),
    {
        self.bad_blocks.enable();
        if let Some(disk) = &mut self.disk {
            disk.queue.queue_data.bad_blocks.enable();
        }
    }

    /// The configuration of a new device. `table` is the answer of the host, which allocates the
    /// table of bad blocks.
    pub fn make_group(name: Vec<u8>, table: i32) -> (r: Result<Self>)
        ensures
            match r {
                Ok(config) => {
                    &&& table >= 0
                    &&& config.inv()
                    &&& !config.powered
                    &&& config.name@ == name@
                    &&& config.block_size == 4096
                    &&& !config.rotational
                    &&& config.capacity_mib == 4096
                    &&& config.irq_mode == IRQMode::Immediate
                    &&& config.completion_time == 0
                    &&& !config.memory_backed
                    &&& config.submit_queues == 1
                    &&& config.home_node == NUMA_NO_NODE
                    &&& !config.discard
                    &&& !config.no_sched
                    &&& !config.bad_blocks.is_enabled()
                    &&& !config.bad_blocks_once
                    &&& !config.bad_blocks_partial_io
                    &&& config.cache_size_mib == 0
                    &&& config.disk is None
                    &&& config.disk_storage matches Some(storage) && storage@ == (StorageState {
                        cache: Map::empty(),
                        disk: Map::empty(),
                        cache_size: 0,
                        cache_size_used: 0,
                        next_flush_sector: 0,
                        block_size: 4096,
                    })
                    &&& config.mbps == 0
                    &&& !config.blocking
                    &&& !config.shared_tags
                    &&& config.hw_queue_depth == 64
                },
                Err(e) => crate::block::mq::gen_disk::refused(table, e),
            },
    {
        let block_size: u32 = 4096;
        let bad_blocks = match BadBlocks::new(false, table) {
            Ok(bad_blocks) => bad_blocks,
            Err(e) => {
                return Err(e);
            },
        };
        Ok(
            DeviceConfig {
                powered: false,
                block_size,
                rotational: false,
                capacity_mib: 4096,
                irq_mode: IRQMode::Immediate,
                completion_time: 0,
                name,
                memory_backed: false,
                submit_queues: 1,
                home_node: NUMA_NO_NODE,
                discard: false,
                no_sched: false,
                bad_blocks,
                bad_blocks_once: false,
                bad_blocks_partial_io: false,
                disk_storage: Some(DiskStorage::new(0, block_size)),
                disk: None,
                cache_size_mib: 0,
                mbps: 0,
                blocking: false,
                shared_tags: false,
                hw_queue_depth: 64,
            },
        )
    }

    /// Reads the number that an attribute is set to.
    fn read_unsigned(&self, page: &[u8], max: u64) -> (r: Result<u64>)
        ensures
            match r {
                Ok(value) => number_given(self.powered, page@, 0, max as int) == Ok::<int, Errno>(
                    value as int,
                ),
                Err(e) => number_given(self.powered, page@, 0, max as int) == Err::<int, Errno>(e),
            },
    {
        if self.powered {
            return Err(Errno(EBUSY));
        }
        match parse_unsigned(trim(page).as_slice(), max) {
            Some(value) => Ok(value),
            None => Err(Errno(EINVAL)),
        }
    }

    /// Reads the number, which can be negative, that an attribute is set to.
    fn read_signed(&self, page: &[u8], max: i64) -> (r: Result<i64>)
        requires
            max >= 0,
        ensures
            match r {
                Ok(value) => number_given(self.powered, page@, -max - 1, max as int) == Ok::<
                    int,
                    Errno,
                >(value as int),
                Err(e) => number_given(self.powered, page@, -max - 1, max as int) == Err::<
                    int,
                    Errno,
                >(e),
            },
    {
        if self.powered {
            return Err(Errno(EBUSY));
        }
        match parse_signed(trim(page).as_slice(), max) {
            Some(value) => Ok(value),
            None => Err(Errno(EINVAL)),
        }
    }

    /// Shows whether the device exists.
    pub fn show_power(&self) -> (r: Vec<u8>)
        ensures
            r@ == line(condition_digit(self.powered)),
    {
        show_digit(self.powered)
    }

    /// The settings of the device.
    pub open spec fn settings(&self) -> NullBlkSettings {
        NullBlkSettings {
            block_size_bytes: self.block_size,
            rotational: self.rotational,
            device_capacity_mib: self.capacity_mib,
            irq_mode: self.irq_mode,
            completion_time: self.completion_time,
            memory_backed: self.memory_backed,
            submit_queues: self.submit_queues,
            poll_queues: 0,
            home_node: self.home_node,
            discard: self.discard,
            no_sched: self.no_sched,
            bad_blocks_once: self.bad_blocks_once,
            bad_blocks_partial_io: self.bad_blocks_partial_io,
            bandwidth_limit: (self.mbps * 0x10_0000) as u64,
            blocking: self.blocking,
            shared_tags: self.shared_tags,
            hw_queue_depth: self.hw_queue_depth,
            zoned: false,
            zone_size_mib: 256,
            zone_capacity_mib: 0,
            zone_nr_conv: 0,
            zone_max_open: 0,
            zone_max_active: 0,
            zone_append_max_sectors: 0,
            forced_unit_access: true,
            max_sectors: 0,
            virt_boundary: false,
            shared_tag_bitmap: false,
        }
    }

    /// The settings of the device.
    pub fn device_settings(&self) -> (r: NullBlkSettings)
        ensures
            r == self.settings(),
    {
        NullBlkSettings {
            block_size_bytes: self.block_size,
            rotational: self.rotational,
            device_capacity_mib: self.capacity_mib,
            irq_mode: self.irq_mode,
            completion_time: self.completion_time,
            memory_backed: self.memory_backed,
            submit_queues: self.submit_queues,
            poll_queues: 0,
            home_node: self.home_node,
            discard: self.discard,
            no_sched: self.no_sched,
            bad_blocks_once: self.bad_blocks_once,
            bad_blocks_partial_io: self.bad_blocks_partial_io,
            bandwidth_limit: self.mbps as u64 * 0x10_0000,
            blocking: self.blocking,
            shared_tags: self.shared_tags,
            hw_queue_depth: self.hw_queue_depth,
            zoned: false,
            zone_size_mib: 256,
            zone_capacity_mib: 0,
            zone_nr_conv: 0,
            zone_max_open: 0,
            zone_max_active: 0,
            zone_append_max_sectors: 0,
            forced_unit_access: true,
            max_sectors: 0,
            virt_boundary: false,
            shared_tag_bitmap: false,
        }
    }

    /// A device of this configuration is made of these options.
    pub open spec fn made_of(&self, options: NullBlkOptions) -> bool {
        &&& options.name@ == self.name@
        &&& options.settings == self.settings()
        &&& options.bad_blocks == self.bad_blocks
        &&& self.disk_storage == Some(options.storage)
    }

    /// Creates or removes the device, or leaves it alone where it exists or does not exist already.
    /// The host reads the text (`requested`), does what [`NullBlkDevice::new`] asks for, and takes
    /// the disk off the system (`del_disk`). The storage goes to the device and comes back when it
    /// is removed, or cannot be created.
    pub fn store_power<
        T: Fn(TagRequest) -> i32,
        A: Fn(QueueLimits) -> i32,
        B: Fn(u64, bool) -> i32,
        D: FnOnce(&[u8]),
    >(
        &mut self,
        requested: Result<bool>,
        online_nodes: u32,
        request_size: u32,
        shared: &mut Option<TagSet<NullBlkTagsetData>>,
        alloc_tags: &T,
        alloc_disk: &A,
        add_disk: &B,
        del_disk: D,
    ) -> (r: Result<()>)
        requires
            old(self).inv(),
            requested == Ok::<bool, Errno>(true) && !old(self).powered ==> forall|
                options: NullBlkOptions,
            |
                old(self).made_of(options) ==> #[trigger] options.answerable(
                    online_nodes,
                    *old(shared),
                    *alloc_tags,
                    *alloc_disk,
                    *add_disk,
                ),
            requested == Ok::<bool, Errno>(false) ==> (old(self).disk matches Some(disk)
                ==> forall|name: &[u8]|
                name@ == disk.name@ ==> #[trigger] call_requires(del_disk, (name,))),
        ensures
            final(self).inv(),
            match requested {
                Err(e) => {
                    &&& r == Err::<(), Errno>(e)
                    &&& *final(self) == *old(self) && *final(shared) == *old(shared)
                },
                Ok(on) => if on == old(self).powered {
                    &&& r is Ok
                    &&& *final(self) == *old(self) && *final(shared) == *old(shared)
                } else if on {
                    exists|options: NullBlkOptions, made: Result<NullBlkDisk>|
                        {
                            &&& old(self).made_of(options)
                            &&& #[trigger] crate::device::setup::new_outcome(
                                options,
                                online_nodes,
                                request_size,
                                (*old(shared), *final(shared)),
                                *alloc_tags,
                                *alloc_disk,
                                *add_disk,
                                made,
                            )
                            &&& match made {
                                Ok(disk) => r is Ok && *final(self) == (DeviceConfig {
                                    powered: true,
                                    disk: Some(disk),
                                    disk_storage: None,
                                    ..*old(self)
                                }),
                                Err(e) => r == Err::<(), Errno>(e) && *final(self) == *old(self),
                            }
                        }
                } else {
                    &&& r is Ok
                    &&& *final(shared) == *old(shared)
                    &&& old(self).disk matches Some(disk) && {
                        &&& *final(self) == (DeviceConfig {
                            powered: false,
                            disk: None,
                            disk_storage: Some(disk.queue.queue_data.storage),
                            ..*old(self)
                        })
                        &&& exists|name: &[u8]|
                            name@ == disk.name@ && #[trigger] call_ensures(del_disk, (name,), ())
                    }
                },
            },
    {
        let on: bool = match requested {
            Ok(on) => on,
            Err(e) => {
                return Err(e);
            },
        };
        if !self.powered && on {
            let settings = self.device_settings();
            let name = self.name.clone();
            assert(name@ =~= self.name@);
            let options = NullBlkOptions {
                name,
                settings,
                bad_blocks: self.bad_blocks.share(),
                storage: self.disk_storage.take().unwrap(),
            };
            let ghost given = options;
            assert(old(self).made_of(given));
            let made = NullBlkDevice::new(
                options,
                online_nodes,
                request_size,
                shared,
                alloc_tags,
                alloc_disk,
                add_disk,
            );
            let ghost outcome = crate::device::setup::outcome_of(made);
            assert(crate::device::setup::new_outcome(
                given,
                online_nodes,
                request_size,
                (*old(shared), *shared),
                *alloc_tags,
                *alloc_disk,
                *add_disk,
                outcome,
            ));
            match made {
                Ok(disk) => {
                    self.disk = Some(disk);
                    self.powered = true;
                },
                Err(failed) => {
                    self.disk_storage = Some(failed.storage);
                    return Err(failed.error);
                },
            }
        } else if self.powered && !on {
            if let Some(disk) = self.disk.take() {
                let device = disk.release(del_disk);
                self.disk_storage = Some(device.storage);
            }
            self.powered = false;
        }
        Ok(())
    }

    /// Shows the size of a block.
    pub fn show_blocksize(&self) -> (r: Vec<u8>)
        ensures
            r@ == line(crate::text::number_text(self.block_size as int)),
    {
        show_number(self.block_size as u64)
    }

    /// Sets the size of a block, which has to be one that a disk can have.
    pub fn store_blocksize(&mut self, page: &[u8]) -> (r: Result<()>)
        ensures
            old(self).inv() ==> final(self).inv(),
            match number_given(old(self).powered, page@, 0, u32::MAX as int) {
                Ok(value) => if crate::block::mq::gen_disk::valid_block_size(value as u32) {
                    r is Ok && *final(self) == (DeviceConfig {
                        block_size: value as u32,
                        ..*old(self)
                    })
                } else {
                    r == Err::<(), Errno>(Errno(EINVAL)) && *final(self) == *old(self)
                },
                Err(e) => r == Err::<(), Errno>(e) && *final(self) == *old(self),
            },
    {
        let value: u64 = match self.read_unsigned(page, u32::MAX as u64) {
            Ok(value) => value,
            Err(e) => {
                return Err(e);
            },
        };
        match GenDiskBuilder::validate_block_size(value as u32) {
            Ok(()) => {},
            Err(e) => {
                return Err(e);
            },
        }
        self.block_size = value as u32;
        Ok(())
    }

    /// Shows whether the media rotates.
    pub fn show_rotational(&self) -> (r: Vec<u8>)
        ensures
            r@ == line(condition_text(self.rotational)),
    {
        show_condition(self.rotational)
    }

    /// Sets whether the media rotates. The host reads the text.
    pub fn store_rotational(&mut self, flag: Result<bool>) -> (r: Result<()>)
        ensures
            old(self).inv() ==> final(self).inv(),
            match condition_given(old(self).powered, flag) {
                Ok(value) => r is Ok && *final(self) == (DeviceConfig {
                    rotational: value,
                    ..*old(self)
                }),
                Err(e) => r == Err::<(), Errno>(e) && *final(self) == *old(self),
            },
    {
        if self.powered {
            return Err(Errno(EBUSY));
        }
        match flag {
            Ok(value) => {
                self.rotational = value;
                Ok(())
            },
            Err(e) => Err(e),
        }
    }

    /// Shows the capacity in MiB.
    pub fn show_size(&self) -> (r: Vec<u8>)
        ensures
            r@ == line(crate::text::number_text(self.capacity_mib as int)),
    {
        show_number(self.capacity_mib as u64)
    }

    /// Sets the capacity in MiB.
    pub fn store_size(&mut self, page: &[u8]) -> (r: Result<()>)
        ensures
            old(self).inv() ==> final(self).inv(),
            match number_given(old(self).powered, page@, 0, u64::MAX as int) {
                Ok(value) => r is Ok && *final(self) == (DeviceConfig {
                    capacity_mib: value as u64,
                    ..*old(self)
                }),
                Err(e) => r == Err::<(), Errno>(e) && *final(self) == *old(self),
            },
    {
        let value: u64 = match self.read_unsigned(page, u64::MAX as u64) {
            Ok(value) => value,
            Err(e) => {
                return Err(e);
            },
        };
        self.capacity_mib = value as u64;
        Ok(())
    }

    /// Shows how requests are completed.
    pub fn show_irqmode(&self) -> (r: Vec<u8>)
        ensures
            r@ == line(crate::text::digits(self.irq_mode.raw() as nat)),
    {
        let mut r = self.irq_mode.text();
        r.push(10);
        r
    }

    /// Sets how requests are completed.
    pub fn store_irqmode(&mut self, page: &[u8]) -> (r: Result<()>)
        ensures
            old(self).inv() ==> final(self).inv(),
            match number_given(old(self).powered, page@, 0, 255) {
                Ok(value) => if value <= 2 {
                    r is Ok && final(self).irq_mode.raw() == value && *final(self) == (
                    DeviceConfig { irq_mode: final(self).irq_mode, ..*old(self) })
                } else {
                    r == Err::<(), Errno>(Errno(EINVAL)) && *final(self) == *old(self)
                },
                Err(e) => r == Err::<(), Errno>(e) && *final(self) == *old(self),
            },
    {
        if self.powered {
            return Err(Errno(EBUSY));
        }
        match IRQMode::from_str(trim(page).as_slice()) {
            Ok(mode) => {
                self.irq_mode = mode;
                Ok(())
            },
            Err(e) => Err(e),
        }
    }

    /// Shows the time to complete a request, in nanoseconds.
    pub fn show_completion_nsec(&self) -> (r: Vec<u8>)
        ensures
            r@ == line(crate::text::number_text(self.completion_time as int)),
    {
        show_signed(self.completion_time)
    }

    /// Sets the time to complete a request, in nanoseconds.
    pub fn store_completion_nsec(&mut self, page: &[u8]) -> (r: Result<()>)
        ensures
            old(self).inv() ==> final(self).inv(),
            match number_given(old(self).powered, page@, i64::MIN as int, i64::MAX as int) {
                Ok(value) => r is Ok && *final(self) == (DeviceConfig {
                    completion_time: value as i64,
                    ..*old(self)
                }),
                Err(e) => r == Err::<(), Errno>(e) && *final(self) == *old(self),
            },
    {
        let value: i64 = match self.read_signed(page, i64::MAX) {
            Ok(value) => value,
            Err(e) => {
                return Err(e);
            },
        };
        self.completion_time = value;
        Ok(())
    }

    /// Shows whether data is kept.
    pub fn show_memory_backed(&self) -> (r: Vec<u8>)
        ensures
            r@ == line(condition_digit(self.memory_backed)),
    {
        show_digit(self.memory_backed)
    }

    /// Sets whether data is kept: it is unless the number is zero.
    pub fn store_memory_backed(&mut self, page: &[u8]) -> (r: Result<()>)
        ensures
            old(self).inv() ==> final(self).inv(),
            match number_given(old(self).powered, page@, 0, 255) {
                Ok(value) => r is Ok && *final(self) == (DeviceConfig {
                    memory_backed: value != 0,
                    ..*old(self)
                }),
                Err(e) => r == Err::<(), Errno>(e) && *final(self) == *old(self),
            },
    {
        let value: u64 = match self.read_unsigned(page, 255) {
            Ok(value) => value,
            Err(e) => {
                return Err(e);
            },
        };
        self.memory_backed = value != 0;
        Ok(())
    }

    /// Shows the number of submission queues.
    pub fn show_submit_queues(&self) -> (r: Vec<u8>)
        ensures
            r@ == line(crate::text::number_text(self.submit_queues as int)),
    {
        show_number(self.submit_queues as u64)
    }

    /// Sets the number of submission queues, at least one and at most one for each processor.
    pub fn store_submit_queues(&mut self, page: &[u8], possible_cpus: u32) -> (r: Result<()>)
        ensures
            old(self).inv() ==> final(self).inv(),
            match number_given(old(self).powered, page@, 0, u32::MAX as int) {
                Ok(value) => if 0 < value <= possible_cpus {
                    r is Ok && *final(self) == (DeviceConfig {
                        submit_queues: value as u32,
                        ..*old(self)
                    })
                } else {
                    r == Err::<(), Errno>(Errno(EINVAL)) && *final(self) == *old(self)
                },
                Err(e) => r == Err::<(), Errno>(e) && *final(self) == *old(self),
            },
    {
        let value: u64 = match self.read_unsigned(page, u32::MAX as u64) {
            Ok(value) => value,
            Err(e) => {
                return Err(e);
            },
        };
        if value == 0 || value > possible_cpus as u64 {
            return Err(Errno(EINVAL));
        }
        self.submit_queues = value as u32;
        Ok(())
    }

    /// Shows whether there is a submission queue for each memory node.
    pub fn show_use_per_node_hctx(&self, online_nodes: u32) -> (r: Vec<u8>)
        ensures
            r@ == line(condition_text(self.submit_queues == online_nodes)),
    {
        show_condition(self.submit_queues == online_nodes)
    }

    /// Multiplies the number of submission queues by the number of memory nodes, unless the number
    /// is zero.
    pub fn store_use_per_node_hctx(&mut self, page: &[u8], online_nodes: u32) -> (r: Result<()>)
        requires
            number_given(old(self).powered, page@, 0, 255) matches Ok(value) && value != 0
                ==> old(self).submit_queues * online_nodes <= u32::MAX,
        ensures
            old(self).inv() ==> final(self).inv(),
            match number_given(old(self).powered, page@, 0, 255) {
                Ok(value) => r is Ok && *final(self) == (DeviceConfig {
                    submit_queues: if value != 0 {
                        (old(self).submit_queues * online_nodes) as u32
                    } else {
                        old(self).submit_queues
                    },
                    ..*old(self)
                }),
                Err(e) => r == Err::<(), Errno>(e) && *final(self) == *old(self),
            },
    {
        let value: u64 = match self.read_unsigned(page, 255) {
            Ok(value) => value,
            Err(e) => {
                return Err(e);
            },
        };
        if value != 0 {
            self.submit_queues = self.submit_queues * online_nodes;
        }
        Ok(())
    }

    /// Shows the memory node.
    pub fn show_home_node(&self) -> (r: Vec<u8>)
        ensures
            r@ == line(crate::text::number_text(self.home_node as int)),
    {
        show_signed(self.home_node as i64)
    }

    /// Sets the memory node, which is neither zero nor as large as the number of nodes.
    pub fn store_home_node(&mut self, page: &[u8], online_nodes: u32) -> (r: Result<()>)
        ensures
            old(self).inv() ==> final(self).inv(),
            match number_given(old(self).powered, page@, i32::MIN as int, i32::MAX as int) {
                Ok(value) => if value != 0 && value < online_nodes <= i32::MAX {
                    r is Ok && *final(self) == (DeviceConfig {
                        home_node: value as i32,
                        ..*old(self)
                    })
                } else {
                    r == Err::<(), Errno>(Errno(EINVAL)) && *final(self) == *old(self)
                },
                Err(e) => r == Err::<(), Errno>(e) && *final(self) == *old(self),
            },
    {
        let value: i64 = match self.read_signed(page, i32::MAX as i64) {
            Ok(value) => value,
            Err(e) => {
                return Err(e);
            },
        };
        if value == 0 {
            return Err(Errno(EINVAL));
        }
        if online_nodes > i32::MAX as u32 {
            return Err(Errno(EINVAL));
        }
        if value >= online_nodes as i64 {
            return Err(Errno(EINVAL));
        }
        self.home_node = value as i32;
        Ok(())
    }

    /// Shows whether discards are supported.
    pub fn show_discard(&self) -> (r: Vec<u8>)
        ensures
            r@ == line(condition_text(self.discard)),
    {
        show_condition(self.discard)
    }

    /// Sets whether discards are supported, which needs data to be kept. The host reads the text.
    pub fn store_discard(&mut self, flag: Result<bool>) -> (r: Result<()>)
        ensures
            old(self).inv() ==> final(self).inv(),
            if old(self).powered {
                r == Err::<(), Errno>(Errno(EBUSY)) && *final(self) == *old(self)
            } else if !old(self).memory_backed {
                r == Err::<(), Errno>(Errno(EINVAL)) && *final(self) == *old(self)
            } else {
                match flag {
                    Ok(value) => r is Ok && *final(self) == (DeviceConfig {
                        discard: value,
                        ..*old(self)
                    }),
                    Err(e) => r == Err::<(), Errno>(e) && *final(self) == *old(self),
                }
            },
    {
        if self.powered {
            return Err(Errno(EBUSY));
        }
        if !self.memory_backed {
            return Err(Errno(EINVAL));
        }
        match flag {
            Ok(value) => {
                self.discard = value;
                Ok(())
            },
            Err(e) => Err(e),
        }
    }

    /// Shows whether there is no I/O scheduler.
    pub fn show_no_sched(&self) -> (r: Vec<u8>)
        ensures
            r@ == line(condition_digit(self.no_sched)),
    {
        show_digit(self.no_sched)
    }

    /// Sets whether there is no I/O scheduler. The host reads the text.
    pub fn store_no_sched(&mut self, flag: Result<bool>) -> (r: Result<()>)
        ensures
            old(self).inv() ==> final(self).inv(),
            match condition_given(old(self).powered, flag) {
                Ok(value) => r is Ok && *final(self) == (DeviceConfig {
                    no_sched: value,
                    ..*old(self)
                }),
                Err(e) => r == Err::<(), Errno>(e) && *final(self) == *old(self),
            },
    {
        if self.powered {
            return Err(Errno(EBUSY));
        }
        match flag {
            Ok(value) => {
                self.no_sched = value;
                Ok(())
            },
            Err(e) => Err(e),
        }
    }

    /// Shows whether bad blocks become good when they are hit.
    pub fn show_badblocks_once(&self) -> (r: Vec<u8>)
        ensures
            r@ == line(condition_text(self.bad_blocks_once)),
    {
        show_condition(self.bad_blocks_once)
    }

    /// Sets whether bad blocks become good when they are hit. The host reads the text.
    pub fn store_badblocks_once(&mut self, flag: Result<bool>) -> (r: Result<()>)
        ensures
            old(self).inv() ==> final(self).inv(),
            match condition_given(old(self).powered, flag) {
                Ok(value) => r is Ok && *final(self) == (DeviceConfig {
                    bad_blocks_once: value,
                    ..*old(self)
                }),
                Err(e) => r == Err::<(), Errno>(e) && *final(self) == *old(self),
            },
    {
        if self.powered {
            return Err(Errno(EBUSY));
        }
        match flag {
            Ok(value) => {
                self.bad_blocks_once = value;
                Ok(())
            },
            Err(e) => Err(e),
        }
    }

    /// Shows whether data before a bad block is transferred.
    pub fn show_badblocks_partial_io(&self) -> (r: Vec<u8>)
        ensures
            r@ == line(condition_text(self.bad_blocks_partial_io)),
    {
        show_condition(self.bad_blocks_partial_io)
    }

    /// Sets whether data before a bad block is transferred. The host reads the text.
    pub fn store_badblocks_partial_io(&mut self, flag: Result<bool>) -> (r: Result<()>)
        ensures
            old(self).inv() ==> final(self).inv(),
            match condition_given(old(self).powered, flag) {
                Ok(value) => r is Ok && *final(self) == (DeviceConfig {
                    bad_blocks_partial_io: value,
                    ..*old(self)
                }),
                Err(e) => r == Err::<(), Errno>(e) && *final(self) == *old(self),
            },
    {
        if self.powered {
            return Err(Errno(EBUSY));
        }
        match flag {
            Ok(value) => {
                self.bad_blocks_partial_io = value;
                Ok(())
            },
            Err(e) => Err(e),
        }
    }

    /// Shows the size of the write cache.
    pub fn show_cache_size_mib(&self) -> (r: Vec<u8>)
        ensures
            r@ == line(crate::text::number_text(self.cache_size_mib as int)),
    {
        show_number(self.cache_size_mib)
    }

    /// Sets the size of the write cache and starts with empty storage.
    pub fn store_cache_size_mib(&mut self, page: &[u8]) -> (r: Result<()>)
        ensures
            old(self).inv() ==> final(self).inv(),
            match number_given(old(self).powered, page@, 0, u64::MAX as int) {
                Ok(value) => {
                    &&& r is Ok
                    &&& *final(self) == (DeviceConfig {
                        cache_size_mib: value as u64,
                        disk_storage: final(self).disk_storage,
                        ..*old(self)
                    })
                    &&& final(self).disk_storage matches Some(storage) && storage.inv() && storage@
                        == (StorageState {
                        cache: Map::empty(),
                        disk: Map::empty(),
                        cache_size: value as u64,
                        cache_size_used: 0,
                        next_flush_sector: 0,
                        block_size: old(self).block_size,
                    })
                },
                Err(e) => r == Err::<(), Errno>(e) && *final(self) == *old(self),
            },
    {
        let value: u64 = match self.read_unsigned(page, u64::MAX) {
            Ok(value) => value,
            Err(e) => {
                return Err(e);
            },
        };
        self.disk_storage = Some(DiskStorage::new(value, self.block_size));
        self.cache_size_mib = value;
        Ok(())
    }

    /// Shows the bandwidth limit in MiB per second.
    pub fn show_mbps(&self) -> (r: Vec<u8>)
        ensures
            r@ == line(crate::text::number_text(self.mbps as int)),
    {
        show_number(self.mbps as u64)
    }

    /// Sets the bandwidth limit in MiB per second.
    pub fn store_mbps(&mut self, page: &[u8]) -> (r: Result<()>)
        ensures
            old(self).inv() ==> final(self).inv(),
            match number_given(old(self).powered, page@, 0, u32::MAX as int) {
                Ok(value) => r is Ok && *final(self) == (DeviceConfig {
                    mbps: value as u32,
                    ..*old(self)
                }),
                Err(e) => r == Err::<(), Errno>(e) && *final(self) == *old(self),
            },
    {
        let value: u64 = match self.read_unsigned(page, u32::MAX as u64) {
            Ok(value) => value,
            Err(e) => {
                return Err(e);
            },
        };
        self.mbps = value as u32;
        Ok(())
    }

    /// Shows whether requests are processed where the driver can sleep.
    pub fn show_blocking(&self) -> (r: Vec<u8>)
        ensures
            r@ == line(condition_text(self.blocking)),
    {
        show_condition(self.blocking)
    }

    /// Sets whether requests are processed where the driver can sleep. The host reads the text.
    pub fn store_blocking(&mut self, flag: Result<bool>) -> (r: Result<()>)
        ensures
            old(self).inv() ==> final(self).inv(),
            match condition_given(old(self).powered, flag) {
                Ok(value) => r is Ok && *final(self) == (DeviceConfig {
                    blocking: value,
                    ..*old(self)
                }),
                Err(e) => r == Err::<(), Errno>(e) && *final(self) == *old(self),
            },
    {
        if self.powered {
            return Err(Errno(EBUSY));
        }
        match flag {
            Ok(value) => {
                self.blocking = value;
                Ok(())
            },
            Err(e) => Err(e),
        }
    }

    /// Shows whether the tag set is shared between devices.
    pub fn show_shared_tags(&self) -> (r: Vec<u8>)
        ensures
            r@ == line(condition_text(self.shared_tags)),
    {
        show_condition(self.shared_tags)
    }

    /// Sets whether the tag set is shared between devices. The host reads the text.
    pub fn store_shared_tags(&mut self, flag: Result<bool>) -> (r: Result<()>)
        ensures
            old(self).inv() ==> final(self).inv(),
            match condition_given(old(self).powered, flag) {
                Ok(value) => r is Ok && *final(self) == (DeviceConfig {
                    shared_tags: value,
                    ..*old(self)
                }),
                Err(e) => r == Err::<(), Errno>(e) && *final(self) == *old(self),
            },
    {
        if self.powered {
            return Err(Errno(EBUSY));
        }
        match flag {
            Ok(value) => {
                self.shared_tags = value;
                Ok(())
            },
            Err(e) => Err(e),
        }
    }

    /// Shows the queue depth of each hardware queue.
    pub fn show_hw_queue_depth(&self) -> (r: Vec<u8>)
        ensures
            r@ == line(crate::text::number_text(self.hw_queue_depth as int)),
    {
        show_number(self.hw_queue_depth as u64)
    }

    /// Sets the queue depth of each hardware queue.
    pub fn store_hw_queue_depth(&mut self, page: &[u8]) -> (r: Result<()>)
        ensures
            old(self).inv() ==> final(self).inv(),
            match number_given(old(self).powered, page@, 0, u32::MAX as int) {
                Ok(value) => r is Ok && *final(self) == (DeviceConfig {
                    hw_queue_depth: value as u32,
                    ..*old(self)
                }),
                Err(e) => r == Err::<(), Errno>(e) && *final(self) == *old(self),
            },
    {
        let value: u64 = match self.read_unsigned(page, u32::MAX as u64) {
            Ok(value) => value,
            Err(e) => {
                return Err(e);
            },
        };
        self.hw_queue_depth = value as u32;
        Ok(())
    }
}

/// Tracking bad blocks again changes nothing.
pub proof fn lemma_tracking_once(config: DeviceConfig)
    ensures
        config.tracking().tracking() == config.tracking(),
{
    crate::block::badblocks::lemma_enabled_once(config.bad_blocks);
    if let Some(disk) = config.disk {
        crate::block::badblocks::lemma_enabled_once(disk.queue.queue_data.bad_blocks);
    }
}

/// The configuration of the driver.
pub struct Config {}

impl Config {
    /// Shows the attributes of devices that can be set.
    pub fn show(&self) -> (r: &'static str)
        ensures
            r@ == "blocksize,size,rotational,irqmode,completion_nsec,memory_backedsubmit_queues,use_per_node_hctx,discard,blocking,shared_tags\n"@,
    {
        "blocksize,size,rotational,irqmode,completion_nsec,memory_backedsubmit_queues,use_per_node_hctx,discard,blocking,shared_tags\n"
    }
}

/// A number that is shown and then stored again is the number that was shown.
pub proof fn lemma_number_shown_then_stored(value: int, min: int, max: int)
    requires
        min <= value <= max,
        min <= 0,
    ensures
        number_given(false, line(crate::text::number_text(value)), min, max) == Ok::<int, Errno>(
            value,
        ),
{
    let text = crate::text::number_text(value);
    crate::text::lemma_number_round_trip(value, min, max);
    crate::text::lemma_number_text(value);
    crate::text::lemma_trim_line(text);
}

} // verus!
