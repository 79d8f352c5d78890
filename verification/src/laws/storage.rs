//! Laws on what is written, read and flushed.

use crate::bio::{Segment, SegmentState};
use crate::block::mq::command::Command;
use crate::block::mq::request::Request;
use crate::device::io::{io_state, IoConfig, IoState};
use crate::device::readback::{
    addressable, holds_segments, request_traceable, sector_data, sector_read, sectors_from,
    spare_blank, traceable, uncached, whole_sectors,
};
use crate::device::{transfer_state, Memory, NullBlkDevice, TransferState};
use crate::disk_storage::page::NullBlockPage;
use crate::disk_storage::{DiskStorage, StorageState};
use crate::error::Result;
use crate::laws::frames::bytes_from;
use vstd::prelude::*;

verus! {

/// A segment and the sectors that it is read from or written to are at the same place in their
/// pages.
pub open spec fn aligned(seg: SegmentState, sector: int) -> bool {
    (seg.offset + seg.pos) % 4096 == (sector % 8) * 512
}

/// The bytes of a segment that belong to sector number `i` from position `pos` on.
pub open spec fn window(data: Seq<u8>, pos: int, i: int) -> Seq<u8> {
    data.subrange(pos + i * 512, pos + i * 512 + 512)
}

/// A read fills a segment with the content of the sectors, and with zeros where there is none.
#[verifier::rlimit(60)]
#[verifier::spinoff_prover]
proof fn lemma_read_any(r: TransferState, t: int)
    requires
        r.store.inv(),
        whole_sectors(r.seg),
        aligned(r.seg, r.sector),
        0 <= r.sector,
        addressable(r.sector + r.seg.len() / 512),
    ensures
        ({
            let v = r.read();
            &&& v.seg.data.len() == r.seg.data.len()
            &&& forall|i: int| 0 <= i < r.seg.pos ==> v.seg.data[i] == r.seg.data[i]
            &&& r.sector <= t < r.sector + r.seg.len() / 512 ==> window(
                v.seg.data,
                r.seg.pos,
                t - r.sector,
            ) == sector_read(r.store, t)
        }),
    decreases r.seg.len(),
{
    if r.seg.len() > 0 {
        let at = crate::device::page_offset(r.sector);
        crate::device::readback::lemma_step_whole(r.seg, 4096 - at);
        crate::device::readback::lemma_step_whole(r.seg, 4096);
        assert(r.seg.to_boundary() == 4096 - at);
        let len = r.seg.step(4096);
        assert(len == r.seg.step(4096 - at));
        let next = r.chunk_read();
        assert(next.seg.len() == r.seg.len() - len);
        assert(next.sector == r.sector + len / 512);
        assert(next.sector + next.seg.len() / 512 == r.sector + r.seg.len() / 512);
        assert(aligned(next.seg, next.sector)) by {
            assert(next.seg.offset + next.seg.pos == r.seg.offset + r.seg.pos + len);
            assert((next.sector % 8) * 512 == (next.sector * 512) % 4096);
            assert(next.sector * 512 == r.sector * 512 + len);
        }
        lemma_read_any(next, t);
        let v = r.read();
        assert(v == next.read());
        assert forall|i: int| 0 <= i < r.seg.pos implies v.seg.data[i] == r.seg.data[i] by {
            assert(v.seg.data[i] == next.seg.data[i]);
        }
        if r.sector <= t < r.sector + r.seg.len() / 512 {
            let o = r.seg.pos + (t - r.sector) * 512;
            assert(0 <= o && o + 512 <= r.seg.data.len());
            if t < next.sector {
                assert(t / 8 == r.sector / 8);
                crate::device::readback::lemma_same_page(r.sector, t);
                assert(crate::device::page_offset(t) == at + (t - r.sector) * 512);
                let d = sector_read(r.store, t);
                assert(d.len() == 512) by {
                    if let Some(page) = r.store.read_page(t as u64) {
                        assert(page.inv());
                    }
                }
                assert(window(v.seg.data, r.seg.pos, t - r.sector) =~= d) by {
                    assert forall|k: int| 0 <= k < 512 implies window(
                        v.seg.data,
                        r.seg.pos,
                        t - r.sector,
                    )[k] == d[k] by {
                        assert(v.seg.data[o + k] == next.seg.data[o + k]);
                    }
                }
            } else {
                assert(next.seg.pos + (t - next.sector) * 512 == o);
            }
        }
    }
}

/// A read fills the segment with the content of the sectors from `sector` on, one after the other,
/// and with zeros for sectors whose page does not exist.
pub proof fn lemma_device_read(storage: DiskStorage, sector: u64)
    requires
        storage.inv(),
    ensures
        forall|segment: &mut Segment, r: Result<()>|
            #[trigger] call_ensures(NullBlkDevice::read, (&storage, sector, segment), r)
                && whole_sectors(segment@) && aligned(segment@, sector as int) && addressable(
                sector + segment@.len() / 512,
            ) ==> {
                &&& r is Ok
                &&& final(segment)@.data.len() == segment@.data.len()
                &&& forall|i: int|
                    0 <= i < segment@.len() / 512 ==> #[trigger] window(
                        final(segment)@.data,
                        segment@.pos,
                        i,
                    ) == sector_read(storage@, sector + i)
            },
{
    assert forall|segment: &mut Segment, r: Result<()>|
        #[trigger] call_ensures(NullBlkDevice::read, (&storage, sector, segment), r)
            && whole_sectors(segment@) && aligned(segment@, sector as int) && addressable(
            sector + segment@.len() / 512,
        ) implies {
        &&& r is Ok
        &&& final(segment)@.data.len() == segment@.data.len()
        &&& forall|i: int|
            0 <= i < segment@.len() / 512 ==> #[trigger] window(
                final(segment)@.data,
                segment@.pos,
                i,
            ) == sector_read(storage@, sector + i)
    } by {
        let s = crate::device::read_state(storage@, sector as int, segment@);
        lemma_read_any(s, sector as int);
        assert forall|i: int| 0 <= i < segment@.len() / 512 implies #[trigger] window(
            final(segment)@.data,
            segment@.pos,
            i,
        ) == sector_read(storage@, sector + i) by {
            lemma_read_any(s, sector + i);
        }
    }
}

/// A write succeeds where there is memory for it, and gives the sectors from `sector` on the bytes of
/// the segment, one after the other; where it does not go to a cache, nothing changes of what is
/// read of any other sector.
pub proof fn lemma_device_write(block_size: u32, sector: u64, bypass_cache: bool)
    ensures
        forall|
            storage: &mut DiskStorage,
            spare: &mut Option<NullBlockPage>,
            memory: &mut Memory,
            segment: &mut Segment,
            r: Result<()>,
        |
            #[trigger] call_ensures(
                NullBlkDevice::write,
                (storage, spare, memory, block_size, sector, segment, bypass_cache),
                r,
            ) && traceable(
                transfer_state(*storage, *spare, *memory, *segment, sector as int),
                bypass_cache,
                block_size as int,
            ) ==> {
                let count = segment@.len() / 512;
                &&& memory.grants >= 2 * segment@.len() ==> r is Ok
                &&& r is Ok ==> forall|i: int|
                    0 <= i < count ==> #[trigger] sector_data(final(storage)@, sector + i) == Some(
                        window(segment@.data, segment@.pos, i),
                    )
                &&& r is Ok && spare_blank(crate::disk_storage::spare_state(*spare))
                    && !storage@.writes_cache(bypass_cache) ==> forall|t: int|
                    addressable(t) && uncached(storage@, t) && !(sector <= t < sector + count)
                        ==> #[trigger] sector_read(final(storage)@, t) == sector_read(storage@, t)
            },
{
    assert forall|
        storage: &mut DiskStorage,
        spare: &mut Option<NullBlockPage>,
        memory: &mut Memory,
        segment: &mut Segment,
        r: Result<()>,
    |
        #[trigger] call_ensures(
            NullBlkDevice::write,
            (storage, spare, memory, block_size, sector, segment, bypass_cache),
            r,
        ) && traceable(
            transfer_state(*storage, *spare, *memory, *segment, sector as int),
            bypass_cache,
            block_size as int,
        ) implies {
        let count = segment@.len() / 512;
        &&& memory.grants >= 2 * segment@.len() ==> r is Ok
        &&& r is Ok ==> forall|i: int|
            0 <= i < count ==> #[trigger] sector_data(final(storage)@, sector + i) == Some(
                window(segment@.data, segment@.pos, i),
            )
        &&& r is Ok && spare_blank(crate::disk_storage::spare_state(*spare))
            && !storage@.writes_cache(bypass_cache) ==> forall|t: int|
            addressable(t) && uncached(storage@, t) && !(sector <= t < sector + count)
                ==> #[trigger] sector_read(final(storage)@, t) == sector_read(storage@, t)
    } by {
        let w = transfer_state(*storage, *spare, *memory, *segment, sector as int);
        let count = segment@.len() / 512;
        if memory.grants >= 2 * segment@.len() {
            crate::laws::frames::lemma_segment_memory(w, bypass_cache, block_size as int);
        }
        if r is Ok {
            assert forall|i: int| 0 <= i < count implies #[trigger] sector_data(
                final(storage)@,
                sector + i,
            ) == Some(window(segment@.data, segment@.pos, i)) by {
                crate::device::readback::lemma_written(
                    w,
                    bypass_cache,
                    block_size as int,
                    sector + i,
                );
            }
            if spare_blank(w.spare) && !storage@.writes_cache(bypass_cache) {
                assert forall|t: int|
                    addressable(t) && uncached(storage@, t) && !(sector <= t < sector
                        + count) implies #[trigger] sector_read(final(storage)@, t) == sector_read(
                    storage@,
                    t,
                ) by {
                    crate::device::readback::lemma_others_unchanged(
                        w,
                        bypass_cache,
                        block_size as int,
                        t,
                    );
                }
            }
        }
    }
}

/// A flush empties the cache and changes nothing of what is read.
pub proof fn lemma_flush(sector: u64)
    ensures
        forall|storage: &mut DiskStorage, spare: &mut Option<NullBlockPage>|
            #[trigger] call_ensures(DiskStorage::flush, (storage, spare), ()) && storage.inv() ==> {
                &&& final(storage)@.read_bytes(sector) == storage@.read_bytes(sector)
                &&& storage@.cache_size > 0 ==> forall|i: usize|
                    !#[trigger] final(storage)@.cache.contains_key(i)
            },
{
    assert forall|storage: &mut DiskStorage, spare: &mut Option<NullBlockPage>|
        #[trigger] call_ensures(DiskStorage::flush, (storage, spare), ())
            && storage.inv() implies {
        &&& final(storage)@.read_bytes(sector) == storage@.read_bytes(sector)
        &&& storage@.cache_size > 0 ==> forall|i: usize|
            !#[trigger] final(storage)@.cache.contains_key(i)
    } by {
        if storage@.cache_size > 0 {
            crate::disk_storage::lemma_flush_keeps_content(storage@, sector);
        }
    }
}

/// The segments from number `i` on are filled with the content of the sectors from `sector` on, one
/// segment after the other.
pub open spec fn filled_from(
    store: StorageState,
    sector: int,
    before: Seq<SegmentState>,
    after: Seq<SegmentState>,
    i: int,
) -> bool
    decreases before.len() - i,
{
    i < 0 || i >= before.len() || {
        &&& after[i].data.len() == before[i].data.len()
        &&& forall|k: int|
            0 <= k < before[i].len() / 512 ==> #[trigger] window(
                after[i].data,
                before[i].pos,
                k,
            ) == sector_read(store, sector + k)
        &&& filled_from(store, sector + before[i].len() / 512, before, after, i + 1)
    }
}

/// The segments from number `i` on consist of whole sectors and are at the same place in their pages
/// as the sectors from `sector` on.
pub open spec fn aligned_from(segs: Seq<SegmentState>, i: int, sector: int) -> bool
    decreases segs.len() - i,
{
    i < 0 || i >= segs.len() || {
        &&& whole_sectors(segs[i])
        &&& aligned(segs[i], sector)
        &&& aligned_from(segs, i + 1, sector + segs[i].len() / 512)
    }
}

proof fn lemma_from_suffix(
    store: StorageState,
    sector: int,
    a: Seq<SegmentState>,
    b: Seq<SegmentState>,
    after: Seq<SegmentState>,
    i: int,
)
    requires
        0 <= i,
        a.len() == b.len(),
        forall|j: int| i <= j < a.len() ==> a[j] == b[j],
    ensures
        aligned_from(a, i, sector) == aligned_from(b, i, sector),
        sectors_from(a, i) == sectors_from(b, i),
        filled_from(store, sector, a, after, i) == filled_from(store, sector, b, after, i),
    decreases a.len() - i,
{
    if i < a.len() {
        lemma_from_suffix(store, sector + a[i].len() / 512, a, b, after, i + 1);
    }
}

/// Segments of whole sectors have no negative number of sectors.
proof fn lemma_aligned_sectors(segs: Seq<SegmentState>, i: int, sector: int)
    requires
        0 <= i,
        aligned_from(segs, i, sector),
    ensures
        sectors_from(segs, i) >= 0,
    decreases segs.len() - i,
{
    if i < segs.len() {
        lemma_aligned_sectors(segs, i + 1, sector + segs[i].len() / 512);
    }
}

/// Segments without sectors are filled.
proof fn lemma_nothing_to_fill(
    store: StorageState,
    sector: int,
    segs: Seq<SegmentState>,
    after: Seq<SegmentState>,
    i: int,
)
    requires
        0 <= i,
        aligned_from(segs, i, sector),
        sectors_from(segs, i) <= 0,
        after.len() == segs.len(),
        forall|j: int| i <= j < segs.len() ==> after[j] == segs[j],
    ensures
        filled_from(store, sector, segs, after, i),
    decreases segs.len() - i,
{
    if i < segs.len() {
        lemma_aligned_sectors(segs, i + 1, sector + segs[i].len() / 512);
        lemma_nothing_to_fill(store, sector + segs[i].len() / 512, segs, after, i + 1);
    }
}

/// A read fills the segments of a request.
proof fn lemma_segments_filled(s: IoState, config: IoConfig, i: int, sector: int, end: int)
    requires
        0 <= i,
        0 <= sector,
        s.store.inv(),
        aligned_from(s.rq.segs, i, sector),
        sector + sectors_from(s.rq.segs, i) <= end,
        addressable(sector + sectors_from(s.rq.segs, i)),
    ensures
        ({
            let t = s.segments_transferred(config, Command::Read, i, sector, end).0;
            &&& t.rq.segs.len() == s.rq.segs.len()
            &&& forall|j: int| 0 <= j < i && j < s.rq.segs.len() ==> t.rq.segs[j] == s.rq.segs[j]
            &&& filled_from(s.store, sector, s.rq.segs, t.rq.segs, i)
            &&& t.store == s.store
        }),
        s.segments_transferred(config, Command::Read, i, sector, end).1 is Ok,
    decreases s.rq.segs.len() - i,
{
    if i < s.rq.segs.len() {
        let seg = s.rq.segs[i];
        let next = sector + seg.len() / 512;
        lemma_aligned_sectors(s.rq.segs, i + 1, next);
        let r = crate::device::read_state(s.store, sector, seg);
        let state = s.segment_transferred(config, Command::Read, i, sector).0;
        assert(seg.len() <= (end - sector) * 512);
        assert(next == sector + crate::device::io::advance_len(seg, end - sector) / 512);
        let t = s.segments_transferred(config, Command::Read, i, sector, end).0;
        lemma_read_any(r, sector);
        if next < end {
            lemma_from_suffix(s.store, next, s.rq.segs, state.rq.segs, t.rq.segs, i + 1);
            lemma_segments_filled(state, config, i + 1, next, end);
        } else {
            assert(t == state);
            lemma_nothing_to_fill(s.store, next, s.rq.segs, t.rq.segs, i + 1);
        }
        assert(t.rq.segs[i] == r.read().seg);
        assert forall|k: int| 0 <= k < seg.len() / 512 implies #[trigger] window(
            t.rq.segs[i].data,
            seg.pos,
            k,
        ) == sector_read(s.store, sector + k) by {
            lemma_read_any(r, sector + k);
        }
    }
}

/// What a request without zones and without bad blocks does to the storage and to its memory: a write
/// stores the bytes of its segments in its sectors, one after the other; a read fills its segments
/// with the content of its sectors; a discard frees the blocks of its sectors. A device that keeps no
/// data does none of this. The request succeeds where there is memory.
pub open spec fn regular_rightly(before: IoState, config: IoConfig, after: IoState) -> bool {
    let sector = before.rq.sector as int;
    let count = before.rq.sectors as int;
    &&& after.zones == before.zones
    &&& !config.memory_backed ==> after.store == before.store && after.rq == before.rq
    &&& config.memory_backed && before.rq.command == Command::Write && before.grants >= 2
        * bytes_from(before.rq.segs, 0) ==> {
        &&& after.rq.error == before.rq.error
        &&& request_traceable(config, before, 0, sector, sector + count) ==> holds_segments(
            after.store,
            sector,
            before.rq.segs,
            0,
        )
    }
    &&& config.memory_backed && before.rq.command == Command::Read ==> {
        &&& after.store == before.store
        &&& aligned_from(before.rq.segs, 0, sector) && sectors_from(before.rq.segs, 0) <= count
            && addressable(sector + count) ==> {
            &&& after.rq.error == before.rq.error
            &&& filled_from(before.store, sector, before.rq.segs, after.rq.segs, 0)
        }
    }
    &&& config.memory_backed && before.rq.command == Command::Discard
        && crate::laws::discard::discardable(before.store, sector, count) ==> {
        &&& after.rq.error == before.rq.error
        &&& crate::laws::discard::sectors_freed(before.store, after.store, sector, count)
    }
}

/// The outcome of a request without zones is right, also once an error is noted in it.
pub proof fn lemma_regular_rightly(s: IoState, config: IoConfig)
    requires
        s.inv(),
        0 < config.block_size <= 4096,
    ensures
        ({
            let v = crate::device::io::Verdict {
                error: false,
                sectors: s.rq.sectors,
                result: Ok(()),
            };
            let (t, r) = s.regular(config, v);
            &&& regular_rightly(s, config, t)
            &&& regular_rightly(s, config, t.noted(r))
        }),
{
    let v = crate::device::io::Verdict { error: false, sectors: s.rq.sectors, result: Ok(()) };
    let sector = s.rq.sector as int;
    let end = s.rq.sector + s.rq.sectors;
    assert(s.judged(v) == s);
    crate::device::zoned::lemma_transfer_frame(s, config, s.rq.command, 0, sector, end);
    assert forall|j: int| 0 <= j < s.rq.segs.len() implies #[trigger] s.rq.segs[j].inv() by {}
    crate::laws::zone_commands::lemma_read_frame(s, config, 0, sector, end);
    if config.memory_backed {
        match s.rq.command {
            Command::Write => {
                if s.grants >= 2 * bytes_from(s.rq.segs, 0) {
                    crate::laws::frames::lemma_transfer_memory(
                        s,
                        config,
                        Command::Write,
                        0,
                        sector,
                        end,
                    );
                    if request_traceable(config, s, 0, sector, end) {
                        crate::device::readback::lemma_segments_held(config, s, 0, sector, end);
                    }
                }
            },
            Command::Read => {
                if aligned_from(s.rq.segs, 0, sector) && sectors_from(s.rq.segs, 0)
                    <= s.rq.sectors && addressable(end) {
                    lemma_aligned_sectors(s.rq.segs, 0, sector);
                    lemma_segments_filled(s, config, 0, sector, end);
                }
            },
            Command::Discard => {
                if crate::laws::discard::discardable(s.store, sector, s.rq.sectors as int) {
                    crate::laws::discard::lemma_sectors_freed(s.store, s.rq.sector, s.rq.sectors);
                }
            },
            _ => {},
        }
    }
}

/// A request without zones does what it is for.
pub proof fn lemma_regular_command<
    L: FnOnce(u64, u64) -> (i32, u64, u64),
    G: FnOnce(u64, u64) -> bool,
>(lookup: L, clear: G)
    ensures
        forall|
            device: &mut NullBlkDevice,
            spare: &mut Option<NullBlockPage>,
            memory: &mut Memory,
            rq: &mut Request,
            r: Result<()>,
        |
            #[trigger] call_ensures(
                NullBlkDevice::handle_regular_command::<L, G>,
                (device, spare, memory, rq, lookup, clear),
                r,
            ) && device.inv() && io_state(*device, *spare, *memory, *rq).inv()
                && !device.bad_blocks.is_enabled() ==> {
                let before = io_state(*device, *spare, *memory, *rq);
                let after = io_state(*final(device), *final(spare), *final(memory), *final(rq));
                &&& regular_rightly(before, device.config(), after)
                &&& !device.memory_backed ==> r is Ok
                &&& rq.command != Command::Write ==> r is Ok
                &&& memory.grants >= 2 * bytes_from(rq@.segs, 0) ==> r is Ok
            },
{
    assert forall|
        device: &mut NullBlkDevice,
        spare: &mut Option<NullBlockPage>,
        memory: &mut Memory,
        rq: &mut Request,
        r: Result<()>,
    |
        #[trigger] call_ensures(
            NullBlkDevice::handle_regular_command::<L, G>,
            (device, spare, memory, rq, lookup, clear),
            r,
        ) && device.inv() && io_state(*device, *spare, *memory, *rq).inv()
            && !device.bad_blocks.is_enabled() implies {
        let before = io_state(*device, *spare, *memory, *rq);
        let after = io_state(*final(device), *final(spare), *final(memory), *final(rq));
        &&& regular_rightly(before, device.config(), after)
        &&& !device.memory_backed ==> r is Ok
        &&& rq.command != Command::Write ==> r is Ok
        &&& memory.grants >= 2 * bytes_from(rq@.segs, 0) ==> r is Ok
    } by {
        let s = io_state(*device, *spare, *memory, *rq);
        let config = device.config();
        let sector = s.rq.sector as int;
        let end = s.rq.sector + s.rq.sectors;
        lemma_regular_rightly(s, config);
        assert forall|j: int| 0 <= j < s.rq.segs.len() implies #[trigger] s.rq.segs[j].inv() by {}
        if memory.grants >= 2 * bytes_from(rq@.segs, 0) {
            crate::laws::frames::lemma_transfer_memory(s, config, s.rq.command, 0, sector, end);
        }
        if rq.command != Command::Write {
            lemma_other_transfer(s, config, s.rq.command, 0, sector, end);
        }
        assert(s.judged(
            crate::device::io::Verdict { error: false, sectors: s.rq.sectors, result: Ok(()) },
        ) == s);
    }
}

/// A transfer other than a write succeeds.
proof fn lemma_other_transfer(
    s: IoState,
    config: IoConfig,
    command: Command,
    i: int,
    sector: int,
    end: int,
)
    requires
        0 <= i,
        command != Command::Write,
    ensures
        s.segments_transferred(config, command, i, sector, end).1 is Ok,
    decreases s.rq.segs.len() - i,
{
    if i < s.rq.segs.len() {
        let state = s.segment_transferred(config, command, i, sector).0;
        let next = sector + crate::device::io::advance_len(s.rq.segs[i], end - sector) / 512;
        if next < end && state.rq.segs.len() == s.rq.segs.len() {
            lemma_other_transfer(state, config, command, i + 1, next, end);
        }
    }
}

/// A page that leaves the cache goes to the disk: exactly one page leaves, it is in the cache no more,
/// and what is read of any sector stays the same. An empty cache has none to give.
pub proof fn lemma_evicted(sector: u64)
    ensures
        forall|
            storage: &mut DiskStorage,
            spare: &mut Option<NullBlockPage>,
            r: Option<NullBlockPage>,
        |
            #[trigger] call_ensures(DiskStorage::extract_cache_page, (storage, spare), r)
                && storage.inv() && storage@.cache_size > 0 ==> {
                let before = storage@;
                let after = final(storage)@;
                &&& after.read_bytes(sector) == before.read_bytes(sector)
                &&& (r is None) == (before.cache.dom().len() == 0)
                &&& r is Some ==> {
                    &&& after.cache.dom().len() == before.cache.dom().len() - 1
                    &&& after.cache.submap_of(before.cache)
                    &&& after.cache_size_used <= before.cache_size_used
                    &&& forall|i: usize| #[trigger]
                        before.cache.contains_key(i) && !after.cache.contains_key(i)
                            ==> after.disk.contains_key(i) && after.disk[i].bytes
                            == before.cache[i].bytes
                    &&& forall|i: usize| #[trigger]
                        after.cache.contains_key(i) ==> (after.disk.contains_key(i)
                            == before.disk.contains_key(i)) && after.disk[i] == before.disk[i]
                }
            },
{
    assert forall|
        storage: &mut DiskStorage,
        spare: &mut Option<NullBlockPage>,
        r: Option<NullBlockPage>,
    |
        #[trigger] call_ensures(DiskStorage::extract_cache_page, (storage, spare), r)
            && storage.inv() && storage@.cache_size > 0 implies {
        let before = storage@;
        let after = final(storage)@;
        &&& after.read_bytes(sector) == before.read_bytes(sector)
        &&& (r is None) == (before.cache.dom().len() == 0)
        &&& r is Some ==> {
            &&& after.cache.dom().len() == before.cache.dom().len() - 1
            &&& after.cache.submap_of(before.cache)
            &&& after.cache_size_used <= before.cache_size_used
            &&& forall|i: usize| #[trigger]
                before.cache.contains_key(i) && !after.cache.contains_key(i)
                    ==> after.disk.contains_key(i) && after.disk[i].bytes == before.cache[i].bytes
            &&& forall|i: usize| #[trigger]
                after.cache.contains_key(i) ==> (after.disk.contains_key(i)
                    == before.disk.contains_key(i)) && after.disk[i] == before.disk[i]
        }
    } by {
        let before = storage@;
        if r is Some {
            let i = choose|i: usize|
                {
                    &&& #[trigger] before.flushes_next(i)
                    &&& before.cache.contains_key(i)
                    &&& final(storage)@ == before.after_flush(i)
                };
            assert(final(storage)@.cache.dom() =~= before.cache.dom().remove(i));
            assert(before.cache.dom().contains(i));
        } else {
            assert(before.cache.dom() =~= Set::<usize>::empty());
        }
    }
}

/// A cached page hides the page on the disk; where neither exists nothing is read.
pub proof fn lemma_read_page(storage: DiskStorage, sector: u64)
    requires
        storage.inv(),
        addressable(sector as int),
    ensures
        forall|r: Option<&NullBlockPage>|
            #[trigger] call_ensures(DiskStorage::get_read_page, (&storage, sector), r) ==> {
                let index = (sector as int / 8) as usize;
                let cached = storage@.cache_size > 0 && storage@.cache.contains_key(index);
                &&& cached ==> (r matches Some(page) && page@ == storage@.cache[index])
                &&& !cached && storage@.disk.contains_key(index) ==> (r matches Some(page) && page@
                    == storage@.disk[index])
                &&& !cached && !storage@.disk.contains_key(index) ==> r is None
            },
{
}

} // verus!
