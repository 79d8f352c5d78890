//! The null block device.

use crate::bio::{Segment, SegmentState};
use crate::block::badblocks::BadBlocks;
use crate::configfs::IRQMode;
use crate::disk_storage::page::{NullBlockPage, PageState};
use crate::disk_storage::{DiskStorage, StorageState};
use crate::error::{Errno, Result, ENOMEM};
use crate::util::{bytes_to_sectors, PAGE_SIZE, SECTOR_MASK, SECTOR_SHIFT};
use crate::zoned::ZoneOptions;
use vstd::prelude::*;

pub mod io;
pub mod queue;
pub mod readback;
pub mod setup;
pub mod zoned;

verus! {

/// The null block device.
pub struct NullBlkDevice {
    /// Memory that backs the device.
    pub storage: DiskStorage,
    /// How requests are completed.
    pub irq_mode: IRQMode,
    /// Time to complete a request, in nanoseconds.
    pub completion_time: i64,
    /// Whether data is kept.
    pub memory_backed: bool,
    /// Size of a block in bytes.
    pub block_size_bytes: u32,
    /// Tracker of bad blocks.
    pub bad_blocks: BadBlocks,
    /// Whether bad blocks become good when they are hit.
    pub bad_blocks_once: bool,
    /// Whether data before a bad block is transferred.
    pub bad_blocks_partial_io: bool,
    /// Number of bytes that can be transferred in one interval, zero for no limit.
    pub bandwidth_limit: u64,
    /// Number of bytes that were transferred in the current interval.
    pub bandwidth_bytes: u64,
    /// Zones.
    pub zoned: ZoneOptions,
    /// Number of injected requeue faults.
    pub requeue_selector: u64,
}

/// Memory that the host grants: the number of allocations that succeed before one fails.
pub struct Memory {
    /// Number of allocations that succeed.
    pub grants: u64,
}

impl Memory {
    /// Asks for an allocation.
    pub fn allocate(&mut self) -> (r: Result<()>)
        ensures
            match r {
                Ok(_) => old(self).grants > 0 && final(self).grants == old(self).grants - 1,
                Err(e) => {
                    &&& old(self).grants == 0
                    &&& final(self).grants == 0
                    &&& e == Errno(ENOMEM)
                },
            },
    {
        if self.grants == 0 {
            return Err(Errno(ENOMEM));
        }
        self.grants = self.grants - 1;
        Ok(())
    }
}

/// The state of a transfer between a segment and the storage.
#[verifier::ext_equal]
pub struct TransferState {
    /// The storage.
    pub store: StorageState,
    /// A page that is available for the next write.
    pub spare: Option<PageState>,
    /// Number of allocations that succeed.
    pub grants: int,
    /// The segment.
    pub seg: SegmentState,
    /// The next sector.
    pub sector: int,
}

/// Position of a sector in its page.
pub open spec fn page_offset(sector: int) -> int {
    (sector % 8) * 512
}

impl TransferState {
    /// The outcome of setting memory aside for one step of a write: a page where there is none,
    /// and internal nodes of the trees.
    pub open spec fn preloaded(self, block_size: int) -> (TransferState, Result<()>) {
        if self.spare is None && self.grants == 0 {
            (self, Err(Errno(ENOMEM)))
        } else {
            let page = if self.spare is None {
                TransferState {
                    spare: Some(PageState::fresh(block_size as usize)),
                    grants: self.grants - 1,
                    ..self
                }
            } else {
                self
            };
            if page.grants == 0 {
                (page, Err(Errno(ENOMEM)))
            } else {
                (TransferState { grants: page.grants - 1, ..page }, Ok(()))
            }
        }
    }

    /// The storage with a sector marked as free in the cache.
    pub open spec fn cache_freed(self) -> StorageState {
        let index = crate::disk_storage::index_of(self.sector as u64);
        if self.store.cache.contains_key(index) {
            StorageState {
                cache: self.store.cache.insert(
                    index,
                    self.store.cache[index].with_free(self.sector as u64),
                ),
                ..self.store
            }
        } else {
            self.store
        }
    }

    /// The storage in which one step of a write looks for its page.
    pub open spec fn write_store(self, bypass_cache: bool) -> StorageState {
        if bypass_cache {
            self.cache_freed()
        } else {
            self.store
        }
    }

    /// Number of bytes that one step of a write moves: a block at most.
    pub open spec fn write_len(self, block_size: int) -> int {
        let room = PAGE_SIZE - page_offset(self.sector);
        self.seg.step(if block_size <= room { block_size } else { room })
    }

    /// One step of a write.
    pub open spec fn chunk_written(self, bypass_cache: bool, block_size: int) -> TransferState {
        let sector = self.sector as u64;
        let store = self.write_store(bypass_cache);
        let page = store.write_page(sector, bypass_cache, self.spare).with_occupied(sector);
        let len = self.write_len(block_size);
        let bytes = crate::disk_storage::page::splice(
            page.bytes,
            page_offset(self.sector),
            self.seg.data.subrange(self.seg.pos, self.seg.pos + len),
        );
        TransferState {
            store: store.write_base(sector, bypass_cache).put(
                sector,
                bypass_cache,
                page.with_bytes(bytes),
            ),
            spare: store.write_spare(sector, bypass_cache, self.spare),
            seg: self.seg.advanced(len),
            sector: self.sector + len / 512,
            ..self
        }
    }

    /// The outcome of a write of the whole segment.
    pub open spec fn written(self, bypass_cache: bool, block_size: int) -> (TransferState, Result<()>)
        decreases self.seg.len(),
        when block_size > 0
    {
        if self.seg.len() <= 0 {
            (self, Ok(()))
        } else {
            match self.preloaded(block_size) {
                (ready, Err(e)) => (ready, Err(e)),
                (ready, Ok(_)) => ready.chunk_written(bypass_cache, block_size).written(
                    bypass_cache,
                    block_size,
                ),
            }
        }
    }

    /// One step of a read: from the page of the sector, or zeros where there is none.
    pub open spec fn chunk_read(self) -> TransferState {
        match self.store.read_page(self.sector as u64) {
            Some(page) => {
                let at = page_offset(self.sector);
                let len = self.seg.step(PAGE_SIZE - at);
                TransferState {
                    seg: self.seg.filled(page.bytes.subrange(at, at + len)),
                    sector: self.sector + len / 512,
                    ..self
                }
            },
            None => {
                let len = self.seg.step(PAGE_SIZE as int);
                TransferState {
                    seg: self.seg.filled(Seq::new(len as nat, |i: int| 0u8)),
                    sector: self.sector + len / 512,
                    ..self
                }
            },
        }
    }

    /// The outcome of a read of the whole segment.
    pub open spec fn read(self) -> TransferState
        decreases self.seg.len(),
    {
        if self.seg.len() <= 0 || !(0 <= self.chunk_read().seg.len() < self.seg.len()) {
            self
        } else {
            self.chunk_read().read()
        }
    }
}

/// A block size that a disk can have fits in a page.
proof fn lemma_block_size_fits(block_size: u32)
    requires
        crate::block::mq::gen_disk::valid_block_size(block_size),
    ensures
        crate::disk_storage::page::block_shift(block_size as usize) <= 12,
        PageState::fresh(block_size as usize).inv(),
        block_size % 512 == 0,
{
    let e: nat = choose|e: nat| block_size == #[trigger] vstd::arithmetic::power2::pow2(e);
    vstd::arithmetic::power2::lemma2_to64();
    if e > 12 {
        vstd::arithmetic::power2::lemma_pow2_strictly_increases(12, e);
    }
    if e < 9 {
        vstd::arithmetic::power2::lemma_pow2_strictly_increases(e, 9);
    }
    crate::disk_storage::page::lemma_block_shift(block_size as usize, e as u64);
    assert(e == 9 || e == 10 || e == 11 || e == 12);
}

/// A step of a transfer moves at least one byte and does not leave the segment.
proof fn lemma_step(seg: SegmentState, limit: int)
    requires
        seg.len() > 0,
        limit > 0,
    ensures
        1 <= seg.step(limit) <= seg.len(),
        seg.step(limit) <= limit,
        seg.step(limit) <= PAGE_SIZE,
{
}

impl NullBlkDevice {
    /// Sets aside a page for the next write.
    pub fn preload(page: &mut Option<NullBlockPage>, memory: &mut Memory, block_size_bytes: u32) -> (r: Result<()>)
        ensures
            r is Ok <==> *old(page) is Some || old(memory).grants > 0,
            r matches Err(e) ==> e == Errno(ENOMEM) && *final(page) == *old(page),
            *old(page) is Some ==> *final(page) == *old(page) && final(memory).grants == old(
                memory,
            ).grants,
            *old(page) is None && r is Ok ==> {
                &&& *final(page) is Some
                &&& (*final(page))->Some_0@ == PageState::fresh(block_size_bytes as usize)
                &&& final(memory).grants == old(memory).grants - 1
            },
            r is Err ==> final(memory).grants == old(memory).grants,
    {
        if page.is_none() {
            match NullBlockPage::new(block_size_bytes as usize, memory.allocate()) {
                Ok(new) => {
                    *page = Some(new);
                },
                Err(e) => {
                    return Err(e);
                },
            }
        }
        Ok(())
    }

    /// Number of internal nodes set aside for a write: the path in each of the two trees.
    pub fn sheaf_size() -> (r: usize)
        ensures
            r == 2 * crate::xarray::preload::nodes_per_entry(),
    {
        2 * crate::xarray::preload::levels()
    }
}

/// The state of a transfer.
pub open spec fn transfer_state(
    storage: DiskStorage,
    spare: Option<NullBlockPage>,
    memory: Memory,
    segment: Segment,
    sector: int,
) -> TransferState {
    TransferState {
        store: storage@,
        spare: crate::disk_storage::spare_state(spare),
        grants: memory.grants as int,
        seg: segment@,
        sector,
    }
}

impl NullBlkDevice {
    /// Writes a segment to the storage from a sector on, a block at a time.
    pub fn write(
        storage: &mut DiskStorage,
        spare: &mut Option<NullBlockPage>,
        memory: &mut Memory,
        block_size_bytes: u32,
        sector: u64,
        segment: &mut Segment,
        bypass_cache: bool,
    ) -> (r: Result<()>)
        requires
            old(storage).inv(),
            old(storage)@.below_limit(),
            crate::disk_storage::spare_ok(crate::disk_storage::spare_state(*old(spare))),
            old(segment).inv(),
            crate::block::mq::gen_disk::valid_block_size(block_size_bytes),
            sector + old(segment)@.len() / 512 <= u64::MAX,
        ensures
            final(storage).inv(),
            final(storage)@.below_limit(),
            crate::disk_storage::spare_ok(crate::disk_storage::spare_state(*final(spare))),
            final(segment).inv(),
            final(segment)@.data == old(segment)@.data,
            final(segment)@.len() <= old(segment)@.len(),
            ({
                let start = transfer_state(
                    *old(storage),
                    *old(spare),
                    *old(memory),
                    *old(segment),
                    sector as int,
                );
                let (end, outcome) = start.written(bypass_cache, block_size_bytes as int);
                &&& r == outcome
                &&& end == transfer_state(
                    *final(storage),
                    *final(spare),
                    *final(memory),
                    *final(segment),
                    end.sector,
                )
            }),
    {
        let mut at: u64 = sector;
        let ghost start = transfer_state(
            *storage,
            *spare,
            *memory,
            *segment,
            sector as int,
        );
        let ghost goal = start.written(bypass_cache, block_size_bytes as int);
        proof {
            lemma_block_size_fits(block_size_bytes);
        }
        while !segment.is_empty()
            invariant
                storage.inv(),
                storage@.below_limit(),
                crate::disk_storage::spare_ok(crate::disk_storage::spare_state(*spare)),
                segment.inv(),
                crate::block::mq::gen_disk::valid_block_size(block_size_bytes),
                PageState::fresh(block_size_bytes as usize).inv(),
                segment@.data == old(segment)@.data,
                segment@.len() <= old(segment)@.len(),
                at + segment@.len() / 512 <= u64::MAX,
                goal == transfer_state(
                    *old(storage),
                    *old(spare),
                    *old(memory),
                    *old(segment),
                    sector as int,
                ).written(bypass_cache, block_size_bytes as int),
                goal == transfer_state(*storage, *spare, *memory, *segment, at as int).written(
                    bypass_cache,
                    block_size_bytes as int,
                ),
            decreases segment@.len(),
        {
            let ghost before = transfer_state(*storage, *spare, *memory, *segment, at as int);
            match Self::preload(spare, memory, block_size_bytes) {
                Ok(()) => {},
                Err(e) => {
                    assert(before.preloaded(block_size_bytes as int) == (before, Err::<(), Errno>(e)));
                    return Err(e);
                },
            }
            let ghost with_page = transfer_state(*storage, *spare, *memory, *segment, at as int);
            match memory.allocate() {
                Ok(()) => {},
                Err(e) => {
                    assert(before.preloaded(block_size_bytes as int) == (
                        with_page,
                        Err::<(), Errno>(e),
                    ));
                    return Err(e);
                },
            }
            let ghost ready = transfer_state(*storage, *spare, *memory, *segment, at as int);
            assert(before.preloaded(block_size_bytes as int) == (ready, Ok::<(), Errno>(())));
            if bypass_cache {
                if let Some(page) = storage.get_cache_page(at) {
                    page.set_free(at);
                }
            }
            let ghost freed = storage@;
            assert(freed =~= ready.write_store(bypass_cache));
            proof {
                crate::disk_storage::lemma_write_ready(
                    storage@,
                    at,
                    bypass_cache,
                    crate::disk_storage::spare_state(*spare),
                );
                crate::util::lemma_offset_in_page(at);
                lemma_step(segment@, if block_size_bytes <= PAGE_SIZE - page_offset(at as int) {
                    block_size_bytes as int
                } else {
                    PAGE_SIZE - page_offset(at as int)
                });
            }
            let offset: u64 = (at & SECTOR_MASK as u64) << SECTOR_SHIFT;
            let page = match storage.get_write_page(spare, at, bypass_cache) {
                Ok(page) => page,
                Err(e) => {
                    return Err(e);
                },
            };
            page.set_occupied(at);
            let moved: usize = segment.copy_to_page_limit(
                page.page_mut(),
                offset as usize,
                block_size_bytes as usize,
            );
            let ghost len = moved as u64;
            proof {
                crate::util::lemma_shr_sector(len);
            }
            at += moved as u64 >> SECTOR_SHIFT;
            proof {
                let after = transfer_state(*storage, *spare, *memory, *segment, at as int);
                assert(after =~= ready.chunk_written(bypass_cache, block_size_bytes as int));
            }
        }
        Ok(())
    }
}

impl NullBlkDevice {
    /// Reads a segment from the storage from a sector on.
    pub fn read(storage: &DiskStorage, sector: u64, segment: &mut Segment) -> (r: Result<()>)
        requires
            storage.inv(),
            old(segment).inv(),
            sector + old(segment)@.len() / 512 <= u64::MAX,
        ensures
            r is Ok,
            final(segment).inv(),
            final(segment)@ == read_state(storage@, sector as int, old(segment)@).read().seg,
            final(segment)@.len() == 0,
    {
        let mut at: u64 = sector;
        let ghost goal = read_state(storage@, sector as int, segment@).read();
        while !segment.is_empty()
            invariant
                storage.inv(),
                segment.inv(),
                at + segment@.len() / 512 <= u64::MAX,
                goal == read_state(storage@, sector as int, old(segment)@).read(),
                goal == read_state(storage@, at as int, segment@).read(),
            decreases segment@.len(),
        {
            let ghost before = read_state(storage@, at as int, segment@);
            match storage.get_read_page(at) {
                Some(page) => {
                    proof {
                        crate::util::lemma_offset_in_page(at);
                        lemma_step(segment@, PAGE_SIZE - page_offset(at as int));
                    }
                    let offset: u64 = (at & SECTOR_MASK as u64) << SECTOR_SHIFT;
                    let moved: usize = segment.copy_from_page(page.page(), offset as usize);
                    let ghost len = moved as u64;
                    proof {
                        crate::util::lemma_shr_sector(len);
                    }
                    at += moved as u64 >> SECTOR_SHIFT;
                },
                None => {
                    proof {
                        lemma_step(segment@, PAGE_SIZE as int);
                    }
                    let moved: usize = segment.zero_page();
                    at += bytes_to_sectors(moved as u64);
                },
            }
            assert(read_state(storage@, at as int, segment@) =~= before.chunk_read());
        }
        Ok(())
    }
}

/// The state of a read.
pub open spec fn read_state(store: StorageState, sector: int, seg: SegmentState) -> TransferState {
    TransferState { store, spare: None, grants: 0, seg, sector }
}

} // verus!
