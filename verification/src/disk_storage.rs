//! Memory that backs a disk, with an optional write cache in front of it.

use crate::error::Result;
use crate::util::{bytes_to_sectors, sectors_to_bytes, PAGE_SECTORS, PAGE_SECTORS_SHIFT, PAGE_SIZE, SECTOR_SIZE};
use crate::xarray::{AllocKind, Entry, Guard, XArray};
use vstd::prelude::*;

pub mod page;

pub use page::NullBlockPage;
use page::{Page, PageState};

verus! {

/// A tree of pages, indexed by page number.
pub type Tree = XArray<NullBlockPage>;

/// The states of the pages of a tree.
pub open spec fn states(pages: Map<usize, NullBlockPage>) -> Map<usize, PageState> {
    pages.map_values(|page: NullBlockPage| page@)
}

/// The number of the page that holds a sector.
pub open spec fn index_of(sector: u64) -> usize {
    (sector / 8) as usize
}

/// `pages` after a sector was given back: the sector is marked as free, and its page is dropped
/// where nothing else of it is in use.
pub open spec fn freed(pages: Map<usize, PageState>, sector: u64) -> Map<usize, PageState> {
    let index = index_of(sector);
    if pages.contains_key(index) {
        let page = pages[index].with_free(sector);
        if page.status == 0 {
            pages.remove(index)
        } else {
            pages.insert(index, page)
        }
    } else {
        pages
    }
}

/// Number of bytes that one step of [`DiskStorage::discard`] processes.
pub open spec fn discard_chunk(remaining: int, block_size: int) -> int {
    if remaining <= block_size {
        remaining
    } else {
        block_size
    }
}

/// Distance between two sectors that [`DiskStorage::discard`] frees one after the other.
pub open spec fn discard_step(remaining: int, block_size: int) -> int {
    discard_chunk(remaining, block_size) / 512
}

/// The sector at which [`DiskStorage::discard`] ends.
pub open spec fn discard_end(sector: int, remaining: int, block_size: int) -> int
    decreases remaining,
{
    if remaining <= 0 || block_size <= 0 {
        sector
    } else {
        discard_end(
            sector + discard_step(remaining, block_size),
            remaining - discard_chunk(remaining, block_size),
            block_size,
        )
    }
}

/// `pages` after a range of sectors was discarded.
pub open spec fn discarded(
    pages: Map<usize, PageState>,
    sector: int,
    remaining: int,
    block_size: int,
) -> Map<usize, PageState>
    decreases remaining,
{
    if remaining <= 0 || block_size <= 0 {
        pages
    } else {
        discarded(
            freed(pages, sector as u64),
            sector + discard_step(remaining, block_size),
            remaining - discard_chunk(remaining, block_size),
            block_size,
        )
    }
}

/// The state of a [`DiskStorage`].
#[verifier::ext_equal]
pub struct StorageState {
    /// Pages in the write cache.
    pub cache: Map<usize, PageState>,
    /// Pages on the disk.
    pub disk: Map<usize, PageState>,
    /// Limit of the recorded use of the write cache, zero where there is no cache.
    pub cache_size: u64,
    /// Recorded use of the write cache: a page that leaves the cache is taken off, as far as there
    /// is any use on record.
    pub cache_size_used: u64,
    /// Where the next search for a page to flush starts.
    pub next_flush_sector: u64,
    /// Size of a block in bytes.
    pub block_size: u32,
}

impl StorageState {
    /// All pages are complete, and their blocks fit in a page.
    pub open spec fn inv(self) -> bool {
        &&& self.cache.dom().finite()
        &&& forall|i: usize| #[trigger] self.cache.contains_key(i) ==> self.cache[i].inv()
        &&& forall|i: usize| #[trigger] self.disk.contains_key(i) ==> self.disk[i].inv()
    }

    /// The recorded use of the cache is below its limit, so that a page can enter the cache without
    /// another one leaving it.
    pub open spec fn below_limit(self) -> bool {
        self.cache_size > 0 ==> self.cache_size_used < self.cache_size
    }

    /// The page from which a sector is read.
    pub open spec fn read_page(self, sector: u64) -> Option<PageState> {
        let index = index_of(sector);
        if self.cache_size > 0 && self.cache.contains_key(index) {
            Some(self.cache[index])
        } else if self.disk.contains_key(index) {
            Some(self.disk[index])
        } else {
            None
        }
    }

    /// The content that a read of a sector finds in its page.
    pub open spec fn read_bytes(self, sector: u64) -> Option<Seq<u8>> {
        match self.read_page(sector) {
            Some(page) => Some(page.bytes),
            None => None,
        }
    }

    /// `index` is the next page that leaves the cache.
    pub open spec fn flushes_next(self, index: usize) -> bool {
        crate::xarray::is_next_circular(self.cache, self.next_flush_sector as usize, Some(index))
    }

    /// The next page that leaves the cache.
    pub open spec fn next_flush(self) -> usize {
        choose|i: usize| self.flushes_next(i)
    }

    /// The page at `index` can leave the cache: where the disk has no page of that number, `spare`
    /// can replace the page that moves there.
    pub open spec fn can_flush(self, index: usize, spare: Option<PageState>) -> bool {
        self.disk.contains_key(index) || spare is Some
    }

    /// The state after the page at `index` left the cache.
    pub open spec fn after_flush(self, index: usize) -> StorageState {
        let src = self.cache[index];
        StorageState {
            cache: self.cache.remove(index),
            disk: self.disk.insert(
                index,
                if self.disk.contains_key(index) && !src.full() {
                    self.disk[index].with_bytes(src.bytes)
                } else {
                    src
                },
            ),
            cache_size_used: if self.cache_size_used >= PAGE_SIZE {
                (self.cache_size_used - PAGE_SIZE) as u64
            } else {
                0
            },
            next_flush_sector: ((index << 3) as u64 + 1) as u64,
            ..self
        }
    }

    /// The page that is available for other use after the page at `index` left the cache.
    pub open spec fn flushed_page(self, index: usize, spare: Option<PageState>) -> PageState {
        if !self.disk.contains_key(index) {
            spare->Some_0
        } else if self.cache[index].full() {
            self.disk[index].with_reset()
        } else {
            self.cache[index].with_reset()
        }
    }

    /// The state after all pages left the cache, one after the other.
    pub open spec fn flushed(self) -> StorageState
        decreases self.cache.dom().len(),
        when self.cache.dom().finite()
    {
        if self.cache.dom().len() == 0 {
            self
        } else {
            proof {
                lemma_next_flush(self);
            }
            self.after_flush(self.next_flush()).flushed()
        }
    }

    /// All pages can leave the cache: `spare` can replace the one page that may have no counterpart
    /// on the disk.
    pub open spec fn can_flush_all(self, spare: Option<PageState>) -> bool {
        &&& forall|i: usize| #[trigger]
            self.cache.contains_key(i) && !self.disk.contains_key(i) ==> spare is Some
        &&& forall|i: usize, j: usize|
            #![trigger self.cache.contains_key(i), self.cache.contains_key(j)]
            self.cache.contains_key(i) && !self.disk.contains_key(i) && self.cache.contains_key(j)
                && !self.disk.contains_key(j) ==> i == j
    }

    /// The state after a sector was given back.
    pub open spec fn sector_freed(self, sector: u64) -> StorageState {
        StorageState {
            cache: if self.cache_size > 0 {
                freed(self.cache, sector)
            } else {
                self.cache
            },
            disk: freed(self.disk, sector),
            ..self
        }
    }

    /// A range of sectors can be discarded: the steps have a size and stay in the sector space.
    pub open spec fn can_discard(self, sector: u64, sectors: u32) -> bool {
        let remaining = (sectors * 512) % 0x1_0000_0000;
        &&& remaining > 0 ==> self.block_size > 0
        &&& discard_end(sector as int, remaining, self.block_size as int) <= u64::MAX
    }

    /// The state after a range of sectors was discarded.
    pub open spec fn sectors_discarded(self, sector: u64, sectors: u32) -> StorageState {
        let remaining = (sectors * 512) % 0x1_0000_0000;
        let block_size = self.block_size as int;
        StorageState {
            cache: if self.cache_size > 0 {
                discarded(self.cache, sector as int, remaining, block_size)
            } else {
                self.cache
            },
            disk: discarded(self.disk, sector as int, remaining, block_size),
            ..self
        }
    }

    /// Some page of the cache has no counterpart on the disk.
    pub open spec fn flush_needs_spare(self) -> bool {
        exists|i: usize| #[trigger] self.cache.contains_key(i) && !self.disk.contains_key(i)
    }

    /// A write of a sector goes to the cache.
    pub open spec fn writes_cache(self, bypass_cache: bool) -> bool {
        self.cache_size > 0 && !bypass_cache
    }

    /// A write of a sector has to make room in the cache first.
    pub open spec fn write_evicts(self, sector: u64, bypass_cache: bool) -> bool {
        &&& self.writes_cache(bypass_cache)
        &&& !self.cache.contains_key(index_of(sector))
        &&& self.cache_size_used >= self.cache_size
    }

    /// A page is at hand for a write of a sector.
    pub open spec fn write_ready(self, sector: u64, bypass_cache: bool, spare: Option<PageState>) -> bool {
        let index = index_of(sector);
        if self.write_evicts(sector, bypass_cache) {
            self.cache.dom().len() > 0 && self.can_flush(self.next_flush(), spare)
        } else if self.writes_cache(bypass_cache) {
            self.cache.contains_key(index) || spare is Some
        } else {
            self.disk.contains_key(index) || spare is Some
        }
    }

    /// The state in which a write of a sector finds its page.
    pub open spec fn write_base(self, sector: u64, bypass_cache: bool) -> StorageState {
        if self.write_evicts(sector, bypass_cache) {
            self.after_flush(self.next_flush())
        } else {
            self
        }
    }

    /// The page that a write of a sector finds.
    pub open spec fn write_page(self, sector: u64, bypass_cache: bool, spare: Option<PageState>) -> PageState {
        let index = index_of(sector);
        if self.write_evicts(sector, bypass_cache) {
            self.flushed_page(self.next_flush(), spare)
        } else if self.writes_cache(bypass_cache) {
            if self.cache.contains_key(index) {
                self.cache[index]
            } else {
                spare->Some_0
            }
        } else {
            if self.disk.contains_key(index) {
                self.disk[index]
            } else {
                spare->Some_0
            }
        }
    }

    /// What a write of a sector leaves of `spare`.
    pub open spec fn write_spare(self, sector: u64, bypass_cache: bool, spare: Option<PageState>) -> Option<PageState> {
        let index = index_of(sector);
        if self.write_evicts(sector, bypass_cache) {
            self.spare_after_flush(self.next_flush(), spare)
        } else if self.writes_cache(bypass_cache) {
            if self.cache.contains_key(index) {
                spare
            } else {
                None
            }
        } else {
            if self.disk.contains_key(index) {
                spare
            } else {
                None
            }
        }
    }

    /// The state with the page of a written sector put in its place.
    pub open spec fn put(self, sector: u64, bypass_cache: bool, page: PageState) -> StorageState {
        let index = index_of(sector);
        if self.writes_cache(bypass_cache) {
            StorageState { cache: self.cache.insert(index, page), ..self }
        } else {
            StorageState { disk: self.disk.insert(index, page), ..self }
        }
    }

    /// What is left of `spare` after the page at `index` left the cache.
    pub open spec fn spare_after_flush(self, index: usize, spare: Option<PageState>) -> Option<PageState> {
        if self.disk.contains_key(index) {
            spare
        } else {
            None
        }
    }
}

/// A cache with pages has a next page to flush, which is one of them.
pub proof fn lemma_next_flush(state: StorageState)
    requires
        state.cache.dom().finite(),
        state.cache.dom().len() > 0,
    ensures
        state.flushes_next(state.next_flush()),
        state.cache.contains_key(state.next_flush()),
        state.cache.remove(state.next_flush()).dom().finite(),
        state.cache.remove(state.next_flush()).dom().len() == state.cache.dom().len() - 1,
{
    let start = state.next_flush_sector as usize;
    let some = state.cache.dom().choose();
    assert(state.cache.contains_key(some));
    if forall|k: usize| start <= k ==> !#[trigger] state.cache.contains_key(k) {
        lemma_least(state.cache, 0, some);
        let first: usize = choose|i: usize| crate::xarray::is_next(state.cache, 0, Some(i));
        assert(state.flushes_next(first));
    } else {
        let above: usize = choose|k: usize| start <= k && #[trigger] state.cache.contains_key(k);
        lemma_least(state.cache, start, above);
        let first: usize = choose|i: usize| crate::xarray::is_next(state.cache, start, Some(i));
        assert(state.flushes_next(first));
    }
    assert(state.flushes_next(state.next_flush()));
    assert(state.cache.remove(state.next_flush()).dom() =~= state.cache.dom().remove(
        state.next_flush(),
    ));
}

/// Where an index not below `start` is present, there is a first one.
proof fn lemma_least(pages: Map<usize, PageState>, start: usize, present: usize)
    requires
        start <= present,
        pages.contains_key(present),
    ensures
        exists|i: usize| crate::xarray::is_next(pages, start, Some(i)),
    decreases present - start,
{
    if forall|k: usize| start <= k < present ==> !#[trigger] pages.contains_key(k) {
        assert(crate::xarray::is_next(pages, start, Some(present)));
    } else {
        let below: usize = choose|k: usize|
            start <= k < present && #[trigger] pages.contains_key(k);
        lemma_least(pages, start, below);
    }
}

/// A page that is available suffices for the write of any sector where the use of the cache is below
/// its limit.
pub proof fn lemma_write_ready(state: StorageState, sector: u64, bypass_cache: bool, spare: Option<PageState>)
    requires
        state.below_limit(),
        spare is Some,
    ensures
        state.write_ready(sector, bypass_cache, spare),
        !state.write_evicts(sector, bypass_cache),
{
}

/// The state that a write of a sector leaves is well formed, and its use of the cache is below the
/// limit where it was before.
pub proof fn lemma_put_inv(state: StorageState, sector: u64, bypass_cache: bool, page: PageState)
    requires
        state.inv(),
        page.inv(),
        state.write_evicts(sector, bypass_cache) ==> state.cache.dom().len() > 0,
    ensures
        state.write_base(sector, bypass_cache).inv(),
        state.write_base(sector, bypass_cache).put(sector, bypass_cache, page).inv(),
        state.below_limit() ==> state.write_base(sector, bypass_cache).put(
            sector,
            bypass_cache,
            page,
        ).below_limit(),
{
    let base = state.write_base(sector, bypass_cache);
    let after = base.put(sector, bypass_cache, page);
    if state.write_evicts(sector, bypass_cache) {
        lemma_next_flush(state);
        lemma_after_flush_inv(state, state.next_flush());
    }
    let index = index_of(sector);
    assert forall|i: usize| #[trigger] after.cache.contains_key(i) implies after.cache[i].inv() by {
        assert(i == index || base.cache.contains_key(i));
    }
    assert forall|i: usize| #[trigger] after.disk.contains_key(i) implies after.disk[i].inv() by {
        assert(i == index || base.disk.contains_key(i));
    }
    if base.writes_cache(bypass_cache) {
        assert(after.cache.dom() =~= base.cache.dom().insert(index));
    }
}

/// A page that leaves the cache leaves a well formed state, with no more use of the cache.
pub proof fn lemma_after_flush_inv(state: StorageState, index: usize)
    requires
        state.inv(),
        state.cache.contains_key(index),
    ensures
        state.after_flush(index).inv(),
        state.below_limit() ==> state.after_flush(index).below_limit(),
{
    let after = state.after_flush(index);
    assert(after.cache.dom() =~= state.cache.dom().remove(index));
    assert(state.cache[index].inv());
    assert forall|j: usize| #[trigger] after.cache.contains_key(j) implies after.cache[j].inv() by {
        assert(state.cache.contains_key(j));
    }
    assert forall|j: usize| #[trigger] after.disk.contains_key(j) implies after.disk[j].inv() by {
        if j != index {
            assert(state.disk.contains_key(j));
        } else if state.disk.contains_key(index) {
            assert(state.disk[index].inv());
        }
    }
}

/// The trees of a disk.
pub struct TreeContainer {
    /// Pages on the disk.
    pub disk_tree: Tree,
    /// Pages in the write cache.
    pub cache_tree: Tree,
}

impl TreeContainer {
    /// Creates empty trees.
    pub fn new() -> (r: Self)
        ensures
            r.disk_tree.inv() && r.cache_tree.inv(),
            r.disk_tree@ == Map::<usize, NullBlockPage>::empty(),
            r.cache_tree@ == Map::<usize, NullBlockPage>::empty(),
    {
        TreeContainer {
            disk_tree: XArray::new(AllocKind::Alloc),
            cache_tree: XArray::new(AllocKind::Alloc),
        }
    }
}

/// Memory that backs a disk.
pub struct DiskStorage {
    /// The pages.
    pub trees: TreeContainer,
    /// Limit of the recorded use of the write cache, zero where there is no cache.
    pub cache_size: u64,
    /// Recorded use of the write cache: a page that leaves the cache is taken off, as far as there
    /// is any use on record.
    pub cache_size_used: u64,
    /// Where the next search for a page to flush starts.
    pub next_flush_sector: u64,
    /// Size of a block in bytes.
    pub block_size: u32,
}

impl View for DiskStorage {
    type V = StorageState;

    open spec fn view(&self) -> StorageState {
        StorageState {
            cache: states(self.trees.cache_tree@),
            disk: states(self.trees.disk_tree@),
            cache_size: self.cache_size,
            cache_size_used: self.cache_size_used,
            next_flush_sector: self.next_flush_sector,
            block_size: self.block_size,
        }
    }
}

/// A page that is available for the next write is complete.
pub open spec fn spare_ok(spare: Option<PageState>) -> bool {
    spare matches Some(page) ==> page.inv()
}

/// The state of an optional page.
pub open spec fn spare_state(page: Option<NullBlockPage>) -> Option<PageState> {
    match page {
        Some(page) => Some(page@),
        None => None,
    }
}

proof fn lemma_states_insert(pages: Map<usize, NullBlockPage>, index: usize, page: NullBlockPage)
    ensures
        states(pages.insert(index, page)) == states(pages).insert(index, page@),
{
    assert(states(pages.insert(index, page)) =~= states(pages).insert(index, page@));
}

proof fn lemma_states_insert_any(pages: Map<usize, NullBlockPage>, index: usize)
    ensures
        forall|page: NullBlockPage|
            states(#[trigger] pages.insert(index, page)) == states(pages).insert(index, page@),
{
    assert forall|page: NullBlockPage|
        states(#[trigger] pages.insert(index, page)) == states(pages).insert(index, page@) by {
        lemma_states_insert(pages, index, page);
    }
}

proof fn lemma_states_remove(pages: Map<usize, NullBlockPage>, index: usize)
    ensures
        states(pages.remove(index)) == states(pages).remove(index),
{
    assert(states(pages.remove(index)) =~= states(pages).remove(index));
}

proof fn lemma_states_next(pages: Map<usize, NullBlockPage>, index: usize, found: Option<usize>)
    ensures
        crate::xarray::is_next(pages, index, found) == crate::xarray::is_next(
            states(pages),
            index,
            found,
        ),
{
    assert forall|k: usize| #[trigger] pages.contains_key(k) == states(pages).contains_key(k) by {}
    assert forall|k: usize| pages.contains_key(k) == #[trigger] states(pages).contains_key(k) by {}
}

/// Copies the content of a page, sector by sector.
fn copy_sectors(src: &Page, dst: &mut Page)
    requires
        src.inv(),
        old(dst).inv(),
    ensures
        final(dst)@ == src@,
{
    let mut offset: usize = 0;
    let mut i: u32 = 0;
    while i < PAGE_SECTORS
        invariant
            i <= PAGE_SECTORS,
            offset == i * 512,
            src.inv(),
            dst.inv(),
            forall|j: int| 0 <= j < offset ==> #[trigger] dst@[j] == src@[j],
        decreases PAGE_SECTORS - i,
    {
        let ghost before = dst@;
        let _ = src.copy_to_page(dst, offset, SECTOR_SIZE as usize);
        assert forall|j: int| 0 <= j < offset + 512 implies #[trigger] dst@[j] == src@[j] by {
            if j < offset {
                assert(before[j] == src@[j]);
            }
        }
        offset += SECTOR_SIZE as usize;
        i += 1;
    }
    assert(dst@ =~= src@);
}

impl DiskStorage {
    /// The trees are well formed and their pages complete.
    pub open spec fn inv(&self) -> bool {
        &&& self.trees.cache_tree.inv()
        &&& self.trees.disk_tree.inv()
        &&& self@.inv()
    }

    /// Creates storage without pages.
    pub fn new(cache_size: u64, block_size: u32) -> (r: Self)
        ensures
            r.inv(),
            r@ == (StorageState {
                cache: Map::empty(),
                disk: Map::empty(),
                cache_size,
                cache_size_used: 0,
                next_flush_sector: 0,
                block_size,
            }),
    {
        let r = DiskStorage {
            trees: TreeContainer::new(),
            cache_size,
            cache_size_used: 0,
            next_flush_sector: 0,
            block_size,
        };
        assert(r@.cache =~= Map::empty());
        assert(r@.disk =~= Map::empty());
        r
    }

    /// The number of the page that holds a sector.
    pub fn to_index(sector: u64) -> (r: usize)
        ensures
            r == index_of(sector),
    {
        assert(sector >> 3u32 == sector / 8) by (bit_vector);
        (sector >> PAGE_SECTORS_SHIFT) as usize
    }

    /// The first sector of a page; bits that leave the word are dropped.
    pub fn to_sector(index: usize) -> (r: u64)
        ensures
            r == (index << 3) as u64,
            r % 8 == 0,
            index * 8 <= usize::MAX ==> r == index * 8,
    {
        assert((index << 3u32) % 8 == 0) by (bit_vector);
        proof {
            vstd::arithmetic::power2::lemma2_to64();
            if index * 8 <= usize::MAX {
                vstd::bits::lemma_usize_shl_is_mul(index, 3);
            }
        }
        (index << PAGE_SECTORS_SHIFT) as u64
    }

    /// Returns true if there is a write cache.
    pub fn cache_enabled(&self) -> (r: bool)
        ensures
            r == (self@.cache_size > 0),
    {
        self.cache_size > 0
    }

    /// Takes the next page out of the write cache, puts its content on the disk, and returns a
    /// page that is available for other use. Returns `None` if the cache is empty.
    pub fn extract_cache_page(&mut self, spare: &mut Option<NullBlockPage>) -> (r: Option<NullBlockPage>)
        requires
            old(self).inv(),
            forall|i: usize| #[trigger]
                old(self)@.flushes_next(i) ==> old(self)@.can_flush(i, spare_state(*old(spare))),
        ensures
            match r {
                Some(page) => exists|i: usize|
                    {
                        &&& #[trigger] old(self)@.flushes_next(i)
                        &&& old(self)@.cache.contains_key(i)
                        &&& final(self)@ == old(self)@.after_flush(i)
                        &&& page@ == old(self)@.flushed_page(i, spare_state(*old(spare)))
                        &&& spare_state(*final(spare)) == old(self)@.spare_after_flush(
                            i,
                            spare_state(*old(spare)),
                        )
                    },
                None => {
                    &&& old(self)@.cache == Map::<usize, PageState>::empty()
                    &&& final(self)@ == old(self)@
                    &&& *final(spare) == *old(spare)
                },
            },
            final(self).inv(),
    {
        let ghost cache = self.trees.cache_tree@;
        let ghost disk = self.trees.disk_tree@;
        let start: usize = self.next_flush_sector as usize;
        proof {
            assert forall|i: Option<usize>| #[trigger]
                crate::xarray::is_next_circular(cache, start, i)
                    == crate::xarray::is_next_circular(self@.cache, start, i) by {
                lemma_states_next(cache, start, i);
                lemma_states_next(cache, start, None);
                lemma_states_next(cache, 0, i);
            }
        }
        let cache_entry = match self.trees.cache_tree.lock().find_next_entry_circular(start) {
            Some(entry) => entry,
            None => {
                proof {
                    crate::xarray::lemma_circular_search(self@.cache, start, None);
                    assert(self@.cache =~= Map::<usize, PageState>::empty());
                }
                return None;
            },
        };
        let index: usize = cache_entry.index();
        proof {
            assert(old(self)@.flushes_next(index));
            crate::xarray::lemma_circular_search(old(self)@.cache, start, Some(index));
            assert(cache.contains_key(index));
            lemma_after_flush_inv(old(self)@, index);
        }
        self.next_flush_sector = Self::to_sector(index).wrapping_add(1);
        self.cache_size_used = self.cache_size_used.saturating_sub(PAGE_SIZE as u64);
        let page = match self.trees.disk_tree.lock().entry(index) {
            Entry::Vacant(disk_entry) => {
                let moved = cache_entry.remove();
                let _ = disk_entry.insert(moved, Ok(()));
                spare.take().unwrap()
            },
            Entry::Occupied(disk_entry) => {
                let mut page = if cache_entry.get().is_full() {
                    disk_entry.insert(cache_entry.remove())
                } else {
                    let dst = disk_entry.into_mut();
                    copy_sectors(cache_entry.get().page(), dst.page_mut());
                    cache_entry.remove()
                };
                page.reset();
                page
            },
        };
        proof {
            lemma_states_remove(cache, index);
            lemma_states_insert(disk, index, self.trees.disk_tree@[index]);
            assert(self.trees.disk_tree@ =~= disk.insert(index, self.trees.disk_tree@[index]));
            assert(self.trees.cache_tree@ =~= cache.remove(index));
            assert(self@ =~= old(self)@.after_flush(index));
        }
        Some(page)
    }

    /// Moves all pages from the write cache to the disk.
    pub fn flush(&mut self, spare: &mut Option<NullBlockPage>)
        requires
            old(self).inv(),
            old(self)@.cache_size > 0 ==> old(self)@.can_flush_all(spare_state(*old(spare))),
        ensures
            final(self).inv(),
            final(self)@ == (if old(self)@.cache_size > 0 {
                old(self)@.flushed()
            } else {
                old(self)@
            }),
            final(self)@.cache_size == old(self)@.cache_size,
            final(self)@.cache_size_used <= old(self)@.cache_size_used,
            spare_state(*final(spare)) == (if old(self)@.cache_size > 0
                && old(self)@.flush_needs_spare() {
                None
            } else {
                spare_state(*old(spare))
            }),
    {
        if self.cache_size > 0 {
            let mut more: bool = true;
            while more
                invariant
                    self.inv(),
                    self@.can_flush_all(spare_state(*spare)),
                    self@.flushed() == old(self)@.flushed(),
                    self@.cache_size == old(self)@.cache_size,
                    self@.cache_size_used <= old(self)@.cache_size_used,
                    !more ==> self@.cache.dom().len() == 0,
                    (if self@.flush_needs_spare() {
                        None
                    } else {
                        spare_state(*spare)
                    }) == (if old(self)@.flush_needs_spare() {
                        None
                    } else {
                        spare_state(*old(spare))
                    }),
                decreases self@.cache.dom().len() + (if more { 1int } else { 0int }),
            {
                proof {
                    self.trees.cache_tree.lemma_finite();
                    assert(self@.cache.dom() =~= self.trees.cache_tree@.dom());
                    if self@.cache.dom().len() > 0 {
                        lemma_next_flush(self@);
                        lemma_can_flush_rest(self@, spare_state(*spare));
                    }
                    assert forall|i: usize| #[trigger] self@.flushes_next(i) implies self@.can_flush(
                        i,
                        spare_state(*spare),
                    ) by {
                        assert(self@.cache.contains_key(i));
                        if self@.cache.dom().len() == 0 {
                            assert(!self@.cache.dom().contains(i));
                        }
                    }
                }
                let ghost before = self@;
                match self.extract_cache_page(spare) {
                    Some(_) => {
                        proof {
                            let i: usize = choose|i: usize|
                                {
                                    &&& #[trigger] before.flushes_next(i)
                                    &&& before.cache.contains_key(i)
                                    &&& self@ == before.after_flush(i)
                                };
                            if before.cache.dom().len() == 0 {
                                assert(!before.cache.dom().contains(i));
                            }
                            crate::xarray::lemma_circular_unique(
                                before.cache,
                                before.next_flush_sector as usize,
                                Some(i),
                                Some(before.next_flush()),
                            );
                        }
                    },
                    None => {
                        more = false;
                    },
                }
            }
            proof {
                self.trees.cache_tree.lemma_finite();
                assert(self@.cache.dom() =~= self.trees.cache_tree@.dom());
                assert forall|i: usize| !#[trigger] self@.cache.contains_key(i) by {
                    assert(!self@.cache.dom().contains(i));
                }
            }
        }
    }

    /// The page at hand for a write of a sector to the cache.
    fn get_or_alloc_cache_page(&mut self, spare: &mut Option<NullBlockPage>, sector: u64) -> (r: Result<&mut NullBlockPage>)
        requires
            old(self).inv(),
            old(self)@.cache_size > 0,
            old(self)@.write_ready(sector, false, spare_state(*old(spare))),
        ensures
            r matches Ok(page) && {
                &&& page@ == old(self)@.write_page(sector, false, spare_state(*old(spare)))
                &&& final(self)@ == old(self)@.write_base(sector, false).put(
                    sector,
                    false,
                    final(page)@,
                )
                &&& spare_ok(spare_state(*old(spare))) ==> page@.inv()
                &&& final(page)@.inv() ==> final(self).inv()
            },
            spare_state(*final(spare)) == old(self)@.write_spare(
                sector,
                false,
                spare_state(*old(spare)),
            ),
    {
        let index: usize = Self::to_index(sector);
        proof {
            lemma_states_insert_any(self.trees.cache_tree@, index);
            self.trees.cache_tree.lemma_finite();
            assert(self@.cache.dom() =~= self.trees.cache_tree@.dom());
        }
        if self.trees.cache_tree.lock().contains_index(index) {
            Ok(self.trees.cache_tree.lock().get_mut(index).unwrap())
        } else {
            let page = if self.cache_size_used < self.cache_size {
                spare.take().unwrap()
            } else {
                proof {
                    lemma_next_flush(self@);
                    lemma_after_flush_inv(self@, self@.next_flush());
                    assert forall|i: usize| #[trigger] self@.flushes_next(i) implies i
                        == self@.next_flush() by {
                        crate::xarray::lemma_circular_unique(
                            self@.cache,
                            self@.next_flush_sector as usize,
                            Some(i),
                            Some(self@.next_flush()),
                        );
                    }
                }
                self.extract_cache_page(spare).unwrap()
            };
            proof {
                lemma_states_insert_any(self.trees.cache_tree@, index);
                assert(!self@.cache.contains_key(index));
            }
            match self.trees.cache_tree.lock().entry(index) {
                Entry::Vacant(entry) => match entry.insert(page, Ok(())) {
                    Ok(page) => Ok(page),
                    Err(e) => Err(e.error),
                },
                Entry::Occupied(entry) => Ok(entry.into_mut()),
            }
        }
    }

    /// The page of a sector in the cache.
    pub fn get_cache_page(&mut self, sector: u64) -> (r: Option<&mut NullBlockPage>)
        requires
            old(self).inv(),
        ensures
            match r {
                Some(page) => {
                    &&& old(self)@.cache.contains_key(index_of(sector))
                    &&& page@ == old(self)@.cache[index_of(sector)]
                    &&& final(self)@ == (StorageState {
                        cache: old(self)@.cache.insert(index_of(sector), final(page)@),
                        ..old(self)@
                    })
                    &&& final(page)@.inv() ==> final(self).inv()
                },
                None => {
                    &&& !old(self)@.cache.contains_key(index_of(sector))
                    &&& final(self)@ == old(self)@
                    &&& final(self).inv()
                },
            },
    {
        let index: usize = Self::to_index(sector);
        proof {
            lemma_states_insert_any(self.trees.cache_tree@, index);
        }
        self.trees.cache_tree.lock().get_mut(index)
    }

    /// The page at hand for a write of a sector to the disk.
    fn get_disk_page(&mut self, spare: &mut Option<NullBlockPage>, sector: u64) -> (r: Result<&mut NullBlockPage>)
        requires
            old(self).inv(),
            old(self)@.write_ready(sector, true, spare_state(*old(spare))),
        ensures
            r is Ok,
            r matches Ok(page) ==> page@ == old(self)@.write_page(
                sector,
                true,
                spare_state(*old(spare)),
            ),
            r matches Ok(page) ==> (spare_ok(spare_state(*old(spare))) ==> page@.inv()),
            r matches Ok(page) ==> final(self)@ == old(self)@.put(sector, true, final(page)@),
            r matches Ok(page) ==> (final(page)@.inv() ==> final(self).inv()),
            spare_state(*final(spare)) == old(self)@.write_spare(
                sector,
                true,
                spare_state(*old(spare)),
            ),
    {
        let index: usize = Self::to_index(sector);
        proof {
            lemma_states_insert_any(self.trees.disk_tree@, index);
        }
        match self.trees.disk_tree.lock().entry(index) {
            Entry::Vacant(entry) => match entry.insert(spare.take().unwrap(), Ok(())) {
                Ok(page) => Ok(page),
                Err(e) => Err(e.error),
            },
            Entry::Occupied(entry) => Ok(entry.into_mut()),
        }
    }

    /// The page at hand for a write of a sector.
    pub fn get_write_page(&mut self, spare: &mut Option<NullBlockPage>, sector: u64, bypass_cache: bool) -> (r: Result<&mut NullBlockPage>)
        requires
            old(self).inv(),
            old(self)@.write_ready(sector, bypass_cache, spare_state(*old(spare))),
        ensures
            r matches Ok(page) && {
                &&& page@ == old(self)@.write_page(sector, bypass_cache, spare_state(*old(spare)))
                &&& final(self)@ == old(self)@.write_base(sector, bypass_cache).put(
                    sector,
                    bypass_cache,
                    final(page)@,
                )
                &&& spare_ok(spare_state(*old(spare))) ==> page@.inv()
                &&& final(page)@.inv() ==> final(self).inv()
            },
            spare_state(*final(spare)) == old(self)@.write_spare(
                sector,
                bypass_cache,
                spare_state(*old(spare)),
            ),
    {
        if self.cache_size > 0 && !bypass_cache {
            self.get_or_alloc_cache_page(spare, sector)
        } else {
            self.get_disk_page(spare, sector)
        }
    }

    /// The page from which a sector is read.
    pub fn get_read_page(&self, sector: u64) -> (r: Option<&NullBlockPage>)
        requires
            self.inv(),
        ensures
            match r {
                Some(page) => self@.read_page(sector) == Some(page@),
                None => self@.read_page(sector) is None,
            },
    {
        let index: usize = Self::to_index(sector);
        if self.cache_size > 0 {
            match self.trees.cache_tree.read().get(index) {
                Some(page) => Some(page),
                None => self.trees.disk_tree.read().get(index),
            }
        } else {
            self.trees.disk_tree.read().get(index)
        }
    }

    /// Gives back a sector of a tree.
    fn free_sector_tree(tree_access: &mut Guard<NullBlockPage>, sector: u64)
        requires
            old(tree_access).inv(),
        ensures
            final(tree_access).inv(),
            states(final(tree_access)@) == freed(states(old(tree_access)@), sector),
    {
        let index: usize = Self::to_index(sector);
        proof {
            lemma_states_insert_any(tree_access@, index);
        }
        if let Some(page) = tree_access.get_mut(index) {
            page.set_free(sector);
            if page.is_empty() {
                proof {
                    lemma_states_remove(tree_access@, index);
                }
                let _ = tree_access.remove(index);
            }
        }
        proof {
            assert(states(tree_access@) =~= freed(states(old(tree_access)@), sector));
        }
    }

    /// Gives back a sector.
    pub fn free_sector(&mut self, sector: u64)
        requires
            old(self).inv(),
        ensures
            final(self).inv(),
            final(self)@ == old(self)@.sector_freed(sector),
    {
        proof {
            lemma_freed(self@.cache, sector);
            lemma_freed(self@.disk, sector);
        }
        if self.cache_size > 0 {
            Self::free_sector_tree(self.trees.cache_tree.lock(), sector);
        }
        Self::free_sector_tree(self.trees.disk_tree.lock(), sector);
        assert(self@ =~= old(self)@.sector_freed(sector));
    }

    /// Gives back a range of sectors.
    pub fn discard(&mut self, sector: u64, sectors: u32)
        requires
            old(self).inv(),
            old(self)@.can_discard(sector, sectors),
        ensures
            final(self).inv(),
            final(self)@ == old(self)@.sectors_discarded(sector, sectors),
    {
        let mut sector: u64 = sector;
        let ghost first = sector;
        let mut remaining_bytes: u32 = sectors_to_bytes(sectors);
        let ghost total = remaining_bytes as int;
        while remaining_bytes > 0
            invariant
                self.inv(),
                total > 0 ==> self.block_size > 0,
                remaining_bytes <= total,
                self.block_size == old(self).block_size,
                self.cache_size == old(self).cache_size,
                self.cache_size_used == old(self).cache_size_used,
                self.next_flush_sector == old(self).next_flush_sector,
                discard_end(sector as int, remaining_bytes as int, self.block_size as int)
                    == discard_end(first as int, total, self.block_size as int),
                discard_end(first as int, total, self.block_size as int) <= u64::MAX,
                discarded(
                    self@.disk,
                    sector as int,
                    remaining_bytes as int,
                    self.block_size as int,
                ) == discarded(old(self)@.disk, first as int, total, self.block_size as int),
                self.cache_size > 0 ==> discarded(
                    self@.cache,
                    sector as int,
                    remaining_bytes as int,
                    self.block_size as int,
                ) == discarded(old(self)@.cache, first as int, total, self.block_size as int),
                self.cache_size == 0 ==> self@.cache == old(self)@.cache,
            decreases remaining_bytes,
        {
            self.free_sector(sector);
            let processed: u32 = if remaining_bytes <= self.block_size {
                remaining_bytes
            } else {
                self.block_size
            };
            proof {
                lemma_discard_end_grows(
                    sector + discard_step(remaining_bytes as int, self.block_size as int),
                    remaining_bytes - processed,
                    self.block_size as int,
                );
            }
            sector += bytes_to_sectors(processed) as u64;
            remaining_bytes -= processed;
        }
        proof {
            assert(self@ =~= old(self)@.sectors_discarded(first, sectors));
        }
    }
}

/// Giving back a sector leaves complete pages.
proof fn lemma_freed(pages: Map<usize, PageState>, sector: u64)
    ensures
        forall|i: usize| #[trigger]
            freed(pages, sector).contains_key(i) ==> pages.contains_key(i) && (pages[i].inv()
                ==> freed(pages, sector)[i].inv()),
        pages.dom().finite() ==> freed(pages, sector).dom().finite(),
{
    let index = index_of(sector);
    if pages.contains_key(index) {
        if pages[index].with_free(sector).status == 0 {
            assert(freed(pages, sector).dom() =~= pages.dom().remove(index));
        } else {
            assert(freed(pages, sector).dom() =~= pages.dom());
        }
    }
}

proof fn lemma_discard_end_grows(sector: int, remaining: int, block_size: int)
    ensures
        sector <= discard_end(sector, remaining, block_size),
    decreases remaining,
{
    if remaining > 0 && block_size > 0 {
        lemma_discard_end_grows(
            sector + discard_step(remaining, block_size),
            remaining - discard_chunk(remaining, block_size),
            block_size,
        );
    }
}

/// Where all pages can leave the cache, the next one can, and then all others can.
proof fn lemma_can_flush_rest(state: StorageState, spare: Option<PageState>)
    requires
        state.cache.dom().finite(),
        state.cache.dom().len() > 0,
        state.can_flush_all(spare),
    ensures
        state.can_flush(state.next_flush(), spare),
        state.after_flush(state.next_flush()).can_flush_all(
            state.spare_after_flush(state.next_flush(), spare),
        ),
        state.after_flush(state.next_flush()).flush_needs_spare() <==> state.flush_needs_spare()
            && state.disk.contains_key(state.next_flush()),
{
    lemma_next_flush(state);
    let i = state.next_flush();
    let after = state.after_flush(i);
    assert forall|j: usize| #[trigger]
        after.cache.contains_key(j) && !after.disk.contains_key(j) implies state.spare_after_flush(
        i,
        spare,
    ) is Some by {
        assert(state.cache.contains_key(j));
    }
    assert forall|j: usize, k: usize|
        #![trigger after.cache.contains_key(j), after.cache.contains_key(k)]
        after.cache.contains_key(j) && !after.disk.contains_key(j) && after.cache.contains_key(k)
            && !after.disk.contains_key(k) implies j == k by {
        assert(state.cache.contains_key(j));
        assert(state.cache.contains_key(k));
    }
    if after.flush_needs_spare() {
        let j: usize = choose|j: usize| #[trigger]
            after.cache.contains_key(j) && !after.disk.contains_key(j);
        assert(state.cache.contains_key(j));
    }
    if state.flush_needs_spare() && state.disk.contains_key(i) {
        let j: usize = choose|j: usize| #[trigger]
            state.cache.contains_key(j) && !state.disk.contains_key(j);
        assert(after.cache.contains_key(j));
    }
}

/// Flushing empties the cache and changes nothing of what is read: each page that a reader found
/// before has the same content afterwards.
pub proof fn lemma_flush_keeps_content(state: StorageState, sector: u64)
    requires
        state.cache_size > 0,
        state.cache.dom().finite(),
    ensures
        state.flushed().cache == Map::<usize, PageState>::empty(),
        state.flushed().read_bytes(sector) == state.read_bytes(sector),
        state.flushed().cache_size == state.cache_size,
        state.flushed().block_size == state.block_size,
    decreases state.cache.dom().len(),
{
    if state.cache.dom().len() == 0 {
        assert(state.cache =~= Map::<usize, PageState>::empty());
    } else {
        lemma_next_flush(state);
        let after = state.after_flush(state.next_flush());
        assert(after.read_bytes(sector) == state.read_bytes(sector));
        lemma_flush_keeps_content(after, sector);
    }
}

/// Discarding adds no page, and a page that stays keeps its content; no sector of it becomes used.
pub proof fn lemma_discard_keeps_content(
    pages: Map<usize, PageState>,
    sector: int,
    remaining: int,
    block_size: int,
    index: usize,
    i: int,
)
    requires
        discarded(pages, sector, remaining, block_size).contains_key(index),
    ensures
        pages.contains_key(index),
        discarded(pages, sector, remaining, block_size)[index].bytes == pages[index].bytes,
        discarded(pages, sector, remaining, block_size)[index].block_size
            == pages[index].block_size,
        discarded(pages, sector, remaining, block_size)[index].occupied(i)
            ==> pages[index].occupied(i),
    decreases remaining,
{
    if remaining > 0 && block_size > 0 {
        let next = freed(pages, sector as u64);
        lemma_discard_keeps_content(
            next,
            sector + discard_step(remaining, block_size),
            remaining - discard_chunk(remaining, block_size),
            block_size,
            index,
            i,
        );
        page::lemma_sector_record(pages[index], sector as u64, i);
    }
}

/// Discarding frees the first sector of each block of the range.
pub proof fn lemma_discard_frees_blocks(
    pages: Map<usize, PageState>,
    sector: int,
    remaining: int,
    block_size: int,
    k: int,
)
    requires
        block_size > 0,
        block_size % 512 == 0,
        0 <= k,
        k * block_size < remaining,
        0 <= sector,
        sector + k * (block_size / 512) <= u64::MAX,
    ensures
        ({
            let freed_sector = (sector + k * (block_size / 512)) as u64;
            let after = discarded(pages, sector, remaining, block_size);
            after.contains_key(index_of(freed_sector)) ==> !after[index_of(freed_sector)].occupied(
                (freed_sector % 8) as int,
            )
        }),
    decreases k,
{
    let at = (sector + k * (block_size / 512)) as u64;
    let after = discarded(pages, sector, remaining, block_size);
    let index = index_of(at);
    let i = (at % 8) as int;
    let next = freed(pages, sector as u64);
    let step = discard_step(remaining, block_size);
    let left = remaining - discard_chunk(remaining, block_size);
    assert(0 <= k * block_size) by (nonlinear_arith)
        requires
            k >= 0,
            block_size > 0,
    ;
    if k == 0 {
        assert(k * (block_size / 512) == 0) by (nonlinear_arith)
            requires
                k == 0,
        ;
        if after.contains_key(index) {
            lemma_discard_keeps_content(next, sector + step, left, block_size, index, i);
            page::lemma_sector_record(pages[index], sector as u64, i);
        }
    } else {
        assert(k * block_size == (k - 1) * block_size + block_size && k * (block_size / 512) == (k
            - 1) * (block_size / 512) + block_size / 512 && (k - 1) * block_size >= 0)
            by (nonlinear_arith)
            requires
                k >= 1,
                block_size > 0,
        ;
        assert(discard_chunk(remaining, block_size) == block_size);
        lemma_discard_frees_blocks(next, sector + step, left, block_size, k - 1);
    }
}

/// A page that was put in place for a sector is the page that a reader of the sector finds, unless
/// the write bypassed a cache that holds the page.
pub proof fn lemma_put_then_read(state: StorageState, sector: u64, bypass_cache: bool, page: PageState)
    requires
        !(bypass_cache && state.cache_size > 0 && state.cache.contains_key(index_of(sector))),
    ensures
        state.put(sector, bypass_cache, page).read_page(sector) == Some(page),
{
}

/// Putting a page in place for one sector does not affect readers of other pages.
pub proof fn lemma_put_keeps_others(
    state: StorageState,
    sector: u64,
    bypass_cache: bool,
    page: PageState,
    other: u64,
)
    requires
        index_of(other) != index_of(sector),
    ensures
        state.put(sector, bypass_cache, page).read_page(other) == state.read_page(other),
{
}

} // verus!
