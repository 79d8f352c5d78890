//! Laws on discarding sectors.

use crate::block::mq::command::Command;
use crate::block::mq::request::Request;
use crate::device::io::io_state;
use crate::device::readback::addressable;
use crate::device::{Memory, NullBlkDevice};
use crate::disk_storage::page::{NullBlockPage, PageState};
use crate::disk_storage::{DiskStorage, StorageState};
use crate::error::Result;
use vstd::prelude::*;

verus! {

/// The page of a sector in a tree.
pub open spec fn page_of(pages: Map<usize, PageState>, t: int) -> Option<PageState> {
    if pages.contains_key((t / 8) as usize) {
        Some(pages[(t / 8) as usize])
    } else {
        None
    }
}

/// A sector is in use: its page exists and the sector is marked.
pub open spec fn used(pages: Map<usize, PageState>, t: int) -> bool {
    page_of(pages, t) matches Some(page) && page.occupied(t % 8)
}

/// A sector is the first one of one of the blocks of a range of `sectors` sectors from `first` on.
pub open spec fn starts_block(first: int, sectors: int, block_size: int, t: int) -> bool {
    first <= t < first + sectors && (t - first) % (block_size / 512) == 0
}

/// What a discard of a range of sectors does to a tree: the blocks of the range are free, all other
/// sectors that are in use stay in use, in a page with the same content, and no sector becomes used.
pub open spec fn range_freed(
    before: Map<usize, PageState>,
    after: Map<usize, PageState>,
    first: int,
    sectors: int,
    block_size: int,
) -> bool {
    forall|t: int|
        addressable(t) ==> {
            &&& starts_block(first, sectors, block_size, t) ==> !#[trigger] used(after, t)
            &&& !starts_block(first, sectors, block_size, t) ==> used(after, t) == used(before, t)
            &&& page_of(after, t) matches Some(page) ==> page_of(before, t) is Some && page.bytes
                == page_of(before, t)->Some_0.bytes
        }
}

/// Each page holds a sector that is in use, and nothing beyond its sectors is.
pub open spec fn all_used(pages: Map<usize, PageState>) -> bool {
    forall|i: usize| #[trigger]
        pages.contains_key(i) ==> {
            &&& exists|j: int| #[trigger] pages[i].occupied(j)
            &&& forall|j: int| #[trigger] pages[i].occupied(j) ==> 0 <= j < 8
        }
}

/// A sector at a distance of whole blocks is reached by the steps of a discard.
proof fn lemma_reached(first: int, remaining: int, block_size: int, t: int) -> (k: int)
    requires
        block_size > 0,
        block_size % 512 == 0,
        remaining % 512 == 0,
        starts_block(first, remaining / 512, block_size, t),
    ensures
        0 <= k,
        k * block_size < remaining,
        t == first + k * (block_size / 512),
{
    let unit = block_size / 512;
    let k = (t - first) / unit;
    vstd::arithmetic::div_mod::lemma_fundamental_div_mod(t - first, unit);
    assert(t - first == unit * k);
    assert(unit * k == k * unit) by (nonlinear_arith);
    assert(block_size == unit * 512);
    assert(k * block_size == (t - first) * 512) by (nonlinear_arith)
        requires
            block_size == unit * 512,
            t - first == k * unit,
    ;
    assert(k >= 0) by (nonlinear_arith)
        requires
            t - first >= 0,
            unit > 0,
            t - first == k * unit,
    ;
    k
}

/// The steps of a discard leave sectors alone that are not the first ones of blocks of the range.
proof fn lemma_spared(
    pages: Map<usize, PageState>,
    first: int,
    remaining: int,
    block_size: int,
    t: int,
)
    requires
        block_size > 0,
        block_size % 512 == 0,
        0 <= remaining,
        remaining % 512 == 0,
        0 <= first,
        addressable(first + remaining / 512),
        addressable(t),
        !starts_block(first, remaining / 512, block_size, t),
    ensures
        used(crate::disk_storage::discarded(pages, first, remaining, block_size), t) == used(
            pages,
            t,
        ),
    decreases remaining,
{
    if remaining > 0 {
        let unit = block_size / 512;
        let step = crate::disk_storage::discard_step(remaining, block_size);
        let left = remaining - crate::disk_storage::discard_chunk(remaining, block_size);
        let next = crate::disk_storage::freed(pages, first as u64);
        let index = (t / 8) as usize;
        assert(t != first) by {
            if t == first {
                assert(0int % unit == 0);
            }
        }
        assert(addressable(first));
        assert(crate::disk_storage::index_of(first as u64) == (first / 8) as usize);
        assert(used(next, t) == used(pages, t)) by {
            if pages.contains_key(index) {
                crate::disk_storage::page::lemma_sector_record(
                    pages[index],
                    first as u64,
                    t % 8,
                );
                crate::disk_storage::page::lemma_sector_record(
                    pages[index].with_free(first as u64),
                    first as u64,
                    t % 8,
                );
                if first / 8 == t / 8 {
                    assert(t % 8 != first % 8);
                }
            }
        }
        if left > 0 {
            assert(step == unit);
            assert(!starts_block(first + step, left / 512, block_size, t)) by {
                if starts_block(first + step, left / 512, block_size, t) {
                    vstd::arithmetic::div_mod::lemma_mod_add_multiples_vanish(
                        t - first - step,
                        unit,
                    );
                    assert((t - first) % unit == 0);
                }
            }
            lemma_spared(next, first + step, left, block_size, t);
        } else {
            assert(crate::disk_storage::discarded(next, first + step, left, block_size) == next);
        }
    }
}

/// Discarding leaves no page without a sector in use.
proof fn lemma_discarded_used(
    pages: Map<usize, PageState>,
    first: int,
    remaining: int,
    block_size: int,
)
    requires
        all_used(pages),
    ensures
        all_used(crate::disk_storage::discarded(pages, first, remaining, block_size)),
    decreases remaining,
{
    if remaining > 0 && block_size > 0 {
        let next = crate::disk_storage::freed(pages, first as u64);
        assert forall|i: usize| #[trigger] next.contains_key(i) implies {
            &&& exists|j: int| #[trigger] next[i].occupied(j)
            &&& forall|j: int| #[trigger] next[i].occupied(j) ==> 0 <= j < 8
        } by {
            crate::disk_storage::page::lemma_sector_record(next[i], first as u64, 0);
            assert(pages.contains_key(i));
            assert forall|j: int| #[trigger] next[i].occupied(j) implies 0 <= j < 8 by {
                crate::disk_storage::page::lemma_sector_record(pages[i], first as u64, j);
                assert(pages[i].occupied(j));
            }
        }
        lemma_discarded_used(
            next,
            first + crate::disk_storage::discard_step(remaining, block_size),
            remaining - crate::disk_storage::discard_chunk(remaining, block_size),
            block_size,
        );
    }
}

/// The steps of a discard free exactly the blocks of the range.
pub proof fn lemma_range_freed(
    pages: Map<usize, PageState>,
    first: int,
    sectors: int,
    block_size: int,
)
    requires
        block_size > 0,
        block_size % 512 == 0,
        0 <= first,
        0 <= sectors,
        addressable(first + sectors),
    ensures
        range_freed(
            pages,
            crate::disk_storage::discarded(pages, first, sectors * 512, block_size),
            first,
            sectors,
            block_size,
        ),
        all_used(pages) ==> all_used(
            crate::disk_storage::discarded(pages, first, sectors * 512, block_size),
        ),
{
    let after = crate::disk_storage::discarded(pages, first, sectors * 512, block_size);
    assert forall|t: int| addressable(t) implies {
        &&& starts_block(first, sectors, block_size, t) ==> !#[trigger] used(after, t)
        &&& !starts_block(first, sectors, block_size, t) ==> used(after, t) == used(pages, t)
        &&& page_of(after, t) matches Some(page) ==> page_of(pages, t) is Some && page.bytes
            == page_of(pages, t)->Some_0.bytes
    } by {
        let index = (t / 8) as usize;
        assert(index == crate::disk_storage::index_of(t as u64));
        if starts_block(first, sectors, block_size, t) {
            let k = lemma_reached(first, sectors * 512, block_size, t);
            crate::disk_storage::lemma_discard_frees_blocks(
                pages,
                first,
                sectors * 512,
                block_size,
                k,
            );
        } else {
            lemma_spared(pages, first, sectors * 512, block_size, t);
        }
        if after.contains_key(index) {
            crate::disk_storage::lemma_discard_keeps_content(
                pages,
                first,
                sectors * 512,
                block_size,
                index,
                t % 8,
            );
        }
    }
    if all_used(pages) {
        lemma_discarded_used(pages, first, sectors * 512, block_size);
    }
}

/// A discard of a range of sectors frees the blocks of the range in the cache, where there is one,
/// and on the disk, however long the range is, and changes nothing else.
pub open spec fn sectors_freed(before: StorageState, after: StorageState, first: int, sectors: int) -> bool {
    let block_size = before.block_size as int;
    &&& before.cache_size > 0 ==> range_freed(
        before.cache,
        after.cache,
        first,
        sectors,
        block_size,
    )
    &&& before.cache_size == 0 ==> after.cache == before.cache
    &&& range_freed(before.disk, after.disk, first, sectors, block_size)
    &&& all_used(before.cache) && before.cache_size > 0 ==> all_used(after.cache)
    &&& all_used(before.disk) ==> all_used(after.disk)
    &&& after.cache_size == before.cache_size
    &&& after.block_size == before.block_size
}

/// Sectors whose discard can be stated: their numbers and their bytes are machine words, and blocks
/// consist of whole sectors.
pub open spec fn discardable(store: StorageState, first: int, sectors: int) -> bool {
    &&& store.block_size > 0
    &&& store.block_size % 512 == 0
    &&& 0 <= first
    &&& 0 <= sectors < 0x80_0000
    &&& addressable(first + sectors)
}

/// Discarding sectors frees the blocks of the range and nothing else.
pub proof fn lemma_sectors_freed(store: StorageState, sector: u64, sectors: u32)
    requires
        discardable(store, sector as int, sectors as int),
    ensures
        sectors_freed(
            store,
            store.sectors_discarded(sector, sectors),
            sector as int,
            sectors as int,
        ),
{
    let block_size = store.block_size as int;
    assert((sectors * 512) % 0x1_0000_0000 == sectors * 512);
    lemma_range_freed(store.cache, sector as int, sectors as int, block_size);
    lemma_range_freed(store.disk, sector as int, sectors as int, block_size);
}

/// Discarding sectors of the storage frees the blocks of the range and nothing else.
pub proof fn lemma_storage_discard(sector: u64, sectors: u32)
    ensures
        forall|storage: &mut DiskStorage|
            #[trigger] call_ensures(DiskStorage::discard, (storage, sector, sectors), ())
                && discardable(storage@, sector as int, sectors as int) ==> sectors_freed(
                storage@,
                final(storage)@,
                sector as int,
                sectors as int,
            ),
{
    assert forall|storage: &mut DiskStorage|
        #[trigger] call_ensures(DiskStorage::discard, (storage, sector, sectors), ())
            && discardable(storage@, sector as int, sectors as int) implies sectors_freed(
        storage@,
        final(storage)@,
        sector as int,
        sectors as int,
    ) by {
        lemma_sectors_freed(storage@, sector, sectors);
    }
}

/// A discard request on a memory backed device without bad blocks succeeds and frees the blocks of
/// its sectors, all of them and nothing else; a device that keeps no data does nothing.
pub proof fn lemma_discard_request<
    L: FnOnce(u64, u64) -> (i32, u64, u64),
    G: FnOnce(u64, u64) -> bool,
>(lookup: L, clear: G)
    ensures
        forall|
            device: &mut NullBlkDevice,
            spare: &mut Option<NullBlockPage>,
            memory: &mut Memory,
            rq: &mut Request,
            r: Result<()>,
        |
            #[trigger] call_ensures(
                NullBlkDevice::handle_regular_command::<L, G>,
                (device, spare, memory, rq, lookup, clear),
                r,
            ) && rq.command == Command::Discard && !device.bad_blocks.is_enabled() && discardable(
                device.storage@,
                rq.sector as int,
                rq.sectors as int,
            ) ==> {
                &&& r is Ok
                &&& final(rq).error == rq.error
                &&& device.memory_backed ==> sectors_freed(
                    device.storage@,
                    final(device).storage@,
                    rq.sector as int,
                    rq.sectors as int,
                )
                &&& !device.memory_backed ==> final(device).storage@ == device.storage@
            },
{
    assert forall|
        device: &mut NullBlkDevice,
        spare: &mut Option<NullBlockPage>,
        memory: &mut Memory,
        rq: &mut Request,
        r: Result<()>,
    |
        #[trigger] call_ensures(
            NullBlkDevice::handle_regular_command::<L, G>,
            (device, spare, memory, rq, lookup, clear),
            r,
        ) && rq.command == Command::Discard && !device.bad_blocks.is_enabled() && discardable(
            device.storage@,
            rq.sector as int,
            rq.sectors as int,
        ) implies {
        &&& r is Ok
        &&& final(rq).error == rq.error
        &&& device.memory_backed ==> sectors_freed(
            device.storage@,
            final(device).storage@,
            rq.sector as int,
            rq.sectors as int,
        )
        &&& !device.memory_backed ==> final(device).storage@ == device.storage@
    } by {
        lemma_sectors_freed(device.storage@, rq.sector, rq.sectors);
        let start = io_state(*device, *spare, *memory, *rq);
        assert(start.store == device.storage@);
        assert(io_state(*final(device), *final(spare), *final(memory), *final(rq)).store
            == final(device).storage@);
        assert(io_state(*final(device), *final(spare), *final(memory), *final(rq)).rq.error
            == final(rq).error);
    }
}

/// A page whose sectors in use are all blocks of the discarded range is gone afterwards, so that
/// nothing of it is read any more.
pub proof fn lemma_discarded_page_is_gone(
    before: StorageState,
    after: StorageState,
    first: int,
    sectors: int,
    t: int,
)
    requires
        sectors_freed(before, after, first, sectors),
        all_used(before.disk),
        before.cache_size > 0 ==> all_used(before.cache),
        addressable(t),
        addressable(8 * (t / 8) + 7),
        forall|u: int|
            u / 8 == t / 8 && (#[trigger] used(before.disk, u) || used(before.cache, u))
                ==> starts_block(first, sectors, before.block_size as int, u),
    ensures
        after.read_page(t as u64) is None,
{
    let index = (t / 8) as usize;
    assert(index == crate::disk_storage::index_of(t as u64));
    let block_size = before.block_size as int;
    assert(!after.disk.contains_key(index)) by {
        if after.disk.contains_key(index) {
            let j = choose|j: int| after.disk[index].occupied(j);
            let u = 8 * (t / 8) + j;
            assert(used(after.disk, u));
            assert(used(before.disk, u));
        }
    }
    assert(before.cache_size > 0 ==> !after.cache.contains_key(index)) by {
        if before.cache_size > 0 && after.cache.contains_key(index) {
            let j = choose|j: int| after.cache[index].occupied(j);
            let u = 8 * (t / 8) + j;
            assert(used(after.cache, u));
            assert(used(before.cache, u));
            let on_disk = used(before.disk, u);
            assert(starts_block(first, sectors, block_size, u));
        }
    }
}

} // verus!
