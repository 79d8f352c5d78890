//! Generic disk abstraction.

use crate::block::mq::feature::{Feature, Features};
use crate::block::mq::request_queue::RequestQueue;
use crate::error::{to_result, Errno, Result, EINVAL};
use crate::util::{is_power_of_two, PAGE_SIZE};
use vstd::prelude::*;

verus! {

/// Number of bytes of the name of a disk, with the terminator.
pub const DISK_NAME_LEN: usize = 32;

/// A builder for [`GenDisk`].
#[derive(Clone, Copy, Debug, PartialEq, Eq, Structural)]
pub struct GenDiskBuilder {
    /// Whether the media rotates.
    pub rotational: bool,
    /// Smallest unit that can be addressed, in bytes.
    pub logical_block_size: u32,
    /// Smallest unit that is written atomically, in bytes.
    pub physical_block_size: u32,
    /// Capacity in sectors.
    pub capacity_sectors: u64,
    /// Maximum size of a discard in sectors.
    pub max_hw_discard_sectors: u32,
    /// Whether the device is zoned.
    pub zoned: bool,
    /// Size of a zone in sectors.
    pub zone_size_sectors: u32,
    /// Maximum size of an append in sectors.
    pub zone_append_max_sectors: u32,
    /// Whether there is a write-back cache.
    pub write_cache: bool,
    /// Whether forced unit access is supported.
    pub forced_unit_access: bool,
    /// Maximum size of a command in sectors.
    pub max_sectors: u32,
    /// Alignment mask of segments.
    pub virt_boundary_mask: usize,
}

/// Limits of a request queue.
#[derive(Clone, Copy, Debug, PartialEq, Eq, Structural)]
pub struct QueueLimits {
    /// Features.
    pub features: Features,
    /// Smallest unit that can be addressed, in bytes.
    pub logical_block_size: u32,
    /// Smallest unit that is written atomically, in bytes.
    pub physical_block_size: u32,
    /// Maximum size of a discard in sectors.
    pub max_hw_discard_sectors: u32,
    /// Maximum size of a command in sectors.
    pub max_sectors: u32,
    /// Alignment mask of segments.
    pub virt_boundary_mask: usize,
    /// Size of a zone in sectors, zero where the device is not zoned.
    pub chunk_sectors: u32,
    /// Maximum size of an append in sectors.
    pub max_hw_zone_append_sectors: u32,
}

/// `size` is a block size that a disk can have.
pub open spec fn valid_block_size(size: u32) -> bool {
    512 <= size <= PAGE_SIZE && crate::util::is_power(size as int)
}

impl Default for GenDiskBuilder {
    fn default() -> (r: Self)
        ensures
            r == Self::initial(),
    {
        GenDiskBuilder {
            rotational: false,
            logical_block_size: PAGE_SIZE as u32,
            physical_block_size: PAGE_SIZE as u32,
            capacity_sectors: 0,
            max_hw_discard_sectors: 0,
            zoned: false,
            zone_size_sectors: 0,
            zone_append_max_sectors: 0,
            write_cache: false,
            forced_unit_access: false,
            max_sectors: 0,
            virt_boundary_mask: 0,
        }
    }
}

impl GenDiskBuilder {
    /// A builder before anything was configured.
    pub open spec fn initial() -> GenDiskBuilder {
        GenDiskBuilder {
            rotational: false,
            logical_block_size: 4096,
            physical_block_size: 4096,
            capacity_sectors: 0,
            max_hw_discard_sectors: 0,
            zoned: false,
            zone_size_sectors: 0,
            zone_append_max_sectors: 0,
            write_cache: false,
            forced_unit_access: false,
            max_sectors: 0,
            virt_boundary_mask: 0,
        }
    }

    /// Create a new instance.
    pub fn new() -> (r: Self)
        ensures
            r == Self::initial(),
    {
        Self::default()
    }

    /// Set the rotational media attribute for the device to be built.
    pub fn rotational(self, rotational: bool) -> (r: Self)
        ensures
            r == (GenDiskBuilder { rotational, ..self }),
    {
        GenDiskBuilder { rotational, ..self }
    }

    /// Validate block size by verifying that it is between 512 and `PAGE_SIZE`, and that it is a
    /// power of two.
    pub fn validate_block_size(size: u32) -> (r: Result<()>)
        ensures
            r == (if valid_block_size(size) {
                Ok::<(), Errno>(())
            } else {
                Err(Errno(EINVAL))
            }),
    {
        if size < 512 || size > PAGE_SIZE as u32 || !is_power_of_two(size) {
            Err(Errno(EINVAL))
        } else {
            Ok(())
        }
    }

    /// Set the logical block size of the device to be built.
    ///
    /// This method will check that block size is a power of two and between 512 and 4096. If not,
    /// an error is returned and the block size is not set.
    ///
    /// This is the smallest unit the storage device can address. It is typically 4096 bytes.
    pub fn logical_block_size(self, block_size: u32) -> (r: Result<Self>)
        ensures
            r == (if valid_block_size(block_size) {
                Ok::<Self, Errno>(GenDiskBuilder { logical_block_size: block_size, ..self })
            } else {
                Err(Errno(EINVAL))
            }),
    {
        match Self::validate_block_size(block_size) {
            Ok(()) => Ok(GenDiskBuilder { logical_block_size: block_size, ..self }),
            Err(e) => Err(e),
        }
    }

    /// Set the physical block size of the device to be built.
    ///
    /// This method will check that block size is a power of two and between 512 and 4096. If not,
    /// an error is returned and the block size is not set.
    ///
    /// This is the smallest unit a physical storage device can write atomically. It is usually the
    /// same as the logical block size but may be bigger. One example is SATA drives with 4096 byte
    /// physical block size that expose a 512 byte logical block size to the operating system.
    pub fn physical_block_size(self, block_size: u32) -> (r: Result<Self>)
        ensures
            r == (if valid_block_size(block_size) {
                Ok::<Self, Errno>(GenDiskBuilder { physical_block_size: block_size, ..self })
            } else {
                Err(Errno(EINVAL))
            }),
    {
        match Self::validate_block_size(block_size) {
            Ok(()) => Ok(GenDiskBuilder { physical_block_size: block_size, ..self }),
            Err(e) => Err(e),
        }
    }

    /// Set the capacity of the device to be built, in sectors (512 bytes).
    pub fn capacity_sectors(self, capacity: u64) -> (r: Self)
        ensures
            r == (GenDiskBuilder { capacity_sectors: capacity, ..self }),
    {
        GenDiskBuilder { capacity_sectors: capacity, ..self }
    }

    /// Set the maximum amount of sectors the underlying hardware device can discard/trim in a
    /// single operation.
    ///
    /// Setting 0 (default) here will cause the disk to report discard not supported.
    pub fn max_hw_discard_sectors(self, max_hw_discard_sectors: u32) -> (r: Self)
        ensures
            r == (GenDiskBuilder { max_hw_discard_sectors, ..self }),
    {
        GenDiskBuilder { max_hw_discard_sectors, ..self }
    }

    /// Mark this device as a zoned block device.
    pub fn zoned(self, enable: bool) -> (r: Self)
        ensures
            r == (GenDiskBuilder { zoned: enable, ..self }),
    {
        GenDiskBuilder { zoned: enable, ..self }
    }

    /// Set the zone size of this block device.
    pub fn zone_size(self, sectors: u32) -> (r: Self)
        ensures
            r == (GenDiskBuilder { zone_size_sectors: sectors, ..self }),
    {
        GenDiskBuilder { zone_size_sectors: sectors, ..self }
    }

    /// Set the max zone append size for this block device.
    pub fn zone_append_max(self, sectors: u32) -> (r: Self)
        ensures
            r == (GenDiskBuilder { zone_append_max_sectors: sectors, ..self }),
    {
        GenDiskBuilder { zone_append_max_sectors: sectors, ..self }
    }

    /// Declare that this device supports forced unit access.
    pub fn forced_unit_access(self, enable: bool) -> (r: Self)
        ensures
            r == (GenDiskBuilder { forced_unit_access: enable, ..self }),
    {
        GenDiskBuilder { forced_unit_access: enable, ..self }
    }

    /// Declare that this device has a write-back cache.
    pub fn write_cache(self, enable: bool) -> (r: Self)
        ensures
            r == (GenDiskBuilder { write_cache: enable, ..self }),
    {
        GenDiskBuilder { write_cache: enable, ..self }
    }

    /// Maximum size of a command in 512 byte sectors.
    pub fn max_sectors(self, sectors: u32) -> (r: Self)
        ensures
            r == (GenDiskBuilder { max_sectors: sectors, ..self }),
    {
        GenDiskBuilder { max_sectors: sectors, ..self }
    }

    /// Set the I/O segment memory alignment mask for the block device. I/O requests to this device
    /// will be split between segments wherever either the memory address of the end of the
    /// previous segment or the memory address of the beginning of the current segment is not
    /// aligned to virt_boundary_mask + 1 bytes.
    pub fn virt_boundary_mask(self, mask: usize) -> (r: Self)
        ensures
            r == (GenDiskBuilder { virt_boundary_mask: mask, ..self }),
    {
        GenDiskBuilder { virt_boundary_mask: mask, ..self }
    }

    /// Features of the device to be built.
    pub open spec fn feature_bits(self) -> u32 {
        let rotational = if self.rotational {
            Feature::Rotational.bit()
        } else {
            0
        };
        let zoned = if self.zoned {
            rotational | Feature::Zoned.bit()
        } else {
            rotational
        };
        let cache = if self.write_cache {
            zoned | Feature::WriteCache.bit()
        } else {
            zoned
        };
        if self.forced_unit_access {
            cache | Feature::ForcedUnitAccess.bit()
        } else {
            cache
        }
    }

    /// The limits with which a disk is allocated.
    pub open spec fn limits_ok(self, limits: QueueLimits) -> bool {
        &&& limits.features.bits() == self.feature_bits()
        &&& limits.logical_block_size == self.logical_block_size
        &&& limits.physical_block_size == self.physical_block_size
        &&& limits.max_hw_discard_sectors == self.max_hw_discard_sectors
        &&& limits.max_sectors == self.max_sectors
        &&& limits.virt_boundary_mask == self.virt_boundary_mask
        &&& limits.chunk_sectors == (if self.zoned {
            self.zone_size_sectors
        } else {
            0
        })
        &&& limits.max_hw_zone_append_sectors == (if self.zoned {
            self.zone_append_max_sectors
        } else {
            0
        })
    }

    /// The limits with which a disk is allocated. A zoned disk needs a driver that can report
    /// zones.
    pub fn limits(&self, has_report_zones: bool) -> (r: Result<QueueLimits>)
        ensures
            match r {
                Ok(limits) => !(self.zoned && !has_report_zones) && self.limits_ok(limits),
                Err(e) => self.zoned && !has_report_zones && e == Errno(EINVAL),
            },
    {
        let mut features = Features::default();
        if self.rotational {
            features = Features::from_raw(Feature::Rotational.as_raw());
        }
        let mut limits = QueueLimits {
            features,
            logical_block_size: self.logical_block_size,
            physical_block_size: self.physical_block_size,
            max_hw_discard_sectors: self.max_hw_discard_sectors,
            max_sectors: self.max_sectors,
            virt_boundary_mask: self.virt_boundary_mask,
            chunk_sectors: 0,
            max_hw_zone_append_sectors: 0,
        };
        if self.zoned {
            if !has_report_zones {
                return Err(Errno(EINVAL));
            }
            limits.features.insert(Feature::Zoned);
            limits.chunk_sectors = self.zone_size_sectors;
            limits.max_hw_zone_append_sectors = self.zone_append_max_sectors;
        }
        if self.write_cache {
            limits.features.insert(Feature::WriteCache);
        }
        if self.forced_unit_access {
            limits.features.insert(Feature::ForcedUnitAccess);
        }
        Ok(limits)
    }

    /// A disk with these limits can be built: a zoned disk needs a driver that can report zones.
    pub open spec fn buildable(self, has_report_zones: bool) -> bool {
        !(self.zoned && !has_report_zones)
    }

    /// The host was asked to allocate the disk with `limits` and answered with `status`.
    pub open spec fn allocated<A: Fn(QueueLimits) -> i32>(
        self,
        alloc_disk: A,
        limits: QueueLimits,
        status: i32,
    ) -> bool {
        self.limits_ok(limits) && call_ensures(alloc_disk, (limits,), status)
    }

    /// The host can be asked for what building the disk takes: for the allocation with the limits of
    /// the disk, and once it was granted, and if the name fits, for the addition to the system.
    pub open spec fn answerable<A: Fn(QueueLimits) -> i32, B: Fn(u64, bool) -> i32>(
        self,
        name: Seq<u8>,
        alloc_disk: A,
        add_disk: B,
    ) -> bool {
        &&& forall|limits: QueueLimits|
            self.limits_ok(limits) ==> #[trigger] call_requires(alloc_disk, (limits,))
        &&& (name.len() < DISK_NAME_LEN && exists|limits: QueueLimits, status: i32| #[trigger]
            self.allocated(alloc_disk, limits, status) && status >= 0) ==> call_requires(
            add_disk,
            (self.capacity_sectors, self.zoned),
        )
    }

    /// The outcome of building a disk that can be built: where the host refuses the allocation,
    /// where the name does not fit, and where the host refuses to add the disk, in this order, there
    /// is none.
    pub open spec fn built<Q, T, A: Fn(QueueLimits) -> i32, B: Fn(u64, bool) -> i32>(
        self,
        name: Seq<u8>,
        alloc_disk: A,
        add_disk: B,
        r: Result<GenDisk<Q, T>>,
    ) -> bool {
        exists|limits: QueueLimits, status: i32| #[trigger]
            self.allocated(alloc_disk, limits, status) && if status < 0 {
                r matches Err(e) && refused(status, e)
            } else if name.len() >= DISK_NAME_LEN {
                r matches Err(e) && e == Errno(EINVAL)
            } else {
                exists|added: i32| #[trigger]
                    call_ensures(add_disk, (self.capacity_sectors, self.zoned), added) && match r {
                        Ok(disk) => {
                            &&& added >= 0
                            &&& disk.limits == limits
                            &&& disk.name@ == name
                            &&& disk.capacity_sectors == self.capacity_sectors
                            &&& disk.zones_validated == self.zoned
                            &&& !disk.queue.stopped
                        },
                        Err(e) => refused(added, e),
                    }
            }
    }

    /// Build a new `GenDisk`. The host allocates the disk with the limits (`alloc_disk`) and adds
    /// it to the system (`add_disk`); both answer with zero or a negative error number. Where the
    /// disk cannot be built the data of the queue is handed back.
    pub fn build<Q, T, A: Fn(QueueLimits) -> i32, B: Fn(u64, bool) -> i32>(
        self,
        name: Vec<u8>,
        tagset: T,
        queue_data: Q,
        has_report_zones: bool,
        alloc_disk: &A,
        add_disk: &B,
    ) -> (r: core::result::Result<GenDisk<Q, T>, (Errno, Q)>)
        requires
            self.buildable(has_report_zones) ==> self.answerable(name@, *alloc_disk, *add_disk),
        ensures
            r matches Ok(disk) ==> disk.queue.queue_data == queue_data && disk.tag_set == tagset,
            r matches Err((_, data)) ==> data == queue_data,
            if self.buildable(has_report_zones) {
                self.built(name@, *alloc_disk, *add_disk, without_data(r))
            } else {
                r matches Err((e, _)) && e == Errno(EINVAL)
            },
    {
        let limits = match self.limits(has_report_zones) {
            Ok(limits) => limits,
            Err(e) => {
                return Err((e, queue_data));
            },
        };
        let allocated: i32 = alloc_disk(limits);
        assert(self.allocated(*alloc_disk, limits, allocated));
        match to_result(allocated) {
            Ok(()) => {},
            Err(e) => {
                return Err((e, queue_data));
            },
        }
        if name.len() >= DISK_NAME_LEN {
            return Err((Errno(EINVAL), queue_data));
        }
        let added: i32 = add_disk(self.capacity_sectors, self.zoned);
        match to_result(added) {
            Ok(()) => {},
            Err(e) => {
                return Err((e, queue_data));
            },
        }
        Ok(
            GenDisk {
                limits,
                name,
                capacity_sectors: self.capacity_sectors,
                zones_validated: self.zoned,
                queue: RequestQueue::new(queue_data),
                tag_set: tagset,
            },
        )
    }
}

/// The outcome of building a disk, without what is handed back.
pub open spec fn without_data<Q, T>(
    r: core::result::Result<GenDisk<Q, T>, (Errno, Q)>,
) -> Result<GenDisk<Q, T>> {
    match r {
        Ok(disk) => Ok(disk),
        Err((e, _)) => Err(e),
    }
}

/// `e` is the error for a status of the host.
pub open spec fn refused(status: i32, e: Errno) -> bool {
    status < 0 && e.0 == (if -4095 <= status {
        status
    } else {
        EINVAL
    })
}

/// A generic block device. `T` is how it refers to its tag set.
pub struct GenDisk<Q, T> {
    /// The limits of its queue.
    pub limits: QueueLimits,
    /// Its name.
    pub name: Vec<u8>,
    /// Its capacity in sectors.
    pub capacity_sectors: u64,
    /// Whether its zones were validated before it was added.
    pub zones_validated: bool,
    /// Its queue.
    pub queue: RequestQueue<Q>,
    /// Its tag set.
    pub tag_set: T,
}

impl<Q, T> GenDisk<Q, T> {
    /// Get a `GenDiskRef` referencing this `GenDisk`.
    pub fn get_ref(&self) -> (r: GenDiskRef<'_, Q, T>)
        ensures
            *r.0 == *self,
    {
        GenDiskRef(self)
    }

    /// Get the [`RequestQueue`] associated with this [`GenDisk`].
    pub fn queue(&self) -> (r: &RequestQueue<Q>)
        ensures
            *r == self.queue,
    {
        &self.queue
    }

    /// Get the queue data associated with this [`GenDisk`].
    pub fn queue_data(&self) -> (r: &Q)
        ensures
            *r == self.queue.queue_data,
    {
        &self.queue.queue_data
    }

    /// Removes the disk from the system. The host takes it off by its name (`del_disk`). The data of
    /// the queue is handed back.
    pub fn release<D: FnOnce(&[u8])>(self, del_disk: D) -> (r: Q)
        requires
            forall|name: &[u8]| name@ == self.name@ ==> #[trigger] call_requires(del_disk, (name,)),
        ensures
            r == self.queue.queue_data,
            exists|name: &[u8]|
                name@ == self.name@ && #[trigger] call_ensures(del_disk, (name,), ()),
    {
        del_disk(self.name.as_slice());
        self.queue.queue_data
    }

    /// Get the tag set associated with this [`GenDisk`].
    pub fn tag_set(&self) -> (r: &T)
        ensures
            *r == self.tag_set,
    {
        &self.tag_set
    }
}

/// A reference to a `GenDisk`.
pub struct GenDiskRef<'a, Q, T>(pub &'a GenDisk<Q, T>);

} // verus!
