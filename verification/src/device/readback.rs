//! What is read back of what was written.

use crate::bio::SegmentState;
use crate::device::TransferState;
use crate::disk_storage::StorageState;
use vstd::prelude::*;

verus! {

/// The content of a sector, where its page exists.
pub open spec fn sector_data(store: StorageState, t: int) -> Option<Seq<u8>> {
    match store.read_page(t as u64) {
        Some(page) => Some(
            page.bytes.subrange(
                crate::device::page_offset(t),
                crate::device::page_offset(t) + 512,
            ),
        ),
        None => None,
    }
}

/// The page of a sector exists where writes of its kind go, and no cached page hides it.
pub open spec fn in_place(store: StorageState, bypass_cache: bool, t: int) -> bool {
    let index = crate::disk_storage::index_of(t as u64);
    if store.writes_cache(bypass_cache) {
        store.cache.contains_key(index)
    } else {
        store.disk.contains_key(index) && uncached(store, t)
    }
}

/// No cached page hides the page of a sector on the disk.
pub open spec fn uncached(store: StorageState, t: int) -> bool {
    store.cache_size > 0 ==> !store.cache.contains_key(crate::disk_storage::index_of(t as u64))
}

/// A sector number whose page number is a machine word.
pub open spec fn addressable(t: int) -> bool {
    0 <= t <= u64::MAX && t / 8 <= usize::MAX
}

/// The rest of a segment consists of whole sectors.
pub open spec fn whole_sectors(seg: SegmentState) -> bool {
    &&& seg.inv()
    &&& seg.offset % 512 == 0
    &&& seg.pos % 512 == 0
    &&& seg.data.len() % 512 == 0
}

/// The part of a segment that belongs to sector number `i` from its position on.
pub open spec fn sector_of(seg: SegmentState, i: int) -> Seq<u8> {
    seg.data.subrange(seg.pos + i * 512, seg.pos + i * 512 + 512)
}

/// A write of whole sectors to pages that no cached page hides.
pub open spec fn traceable(w: TransferState, bypass_cache: bool, block_size: int) -> bool {
    &&& w.store.inv()
    &&& w.store.below_limit()
    &&& crate::disk_storage::spare_ok(w.spare)
    &&& whole_sectors(w.seg)
    &&& block_size % 512 == 0
    &&& 0 < block_size <= 4096
    &&& crate::disk_storage::page::block_shift(block_size as usize) <= 12
    &&& 0 <= w.grants
    &&& 0 <= w.sector
    &&& addressable(w.sector + w.seg.len() / 512)
    &&& !w.store.writes_cache(bypass_cache) ==> forall|t: int|
        w.sector <= t < w.sector + w.seg.len() / 512 ==> #[trigger] uncached(w.store, t)
}

/// A sector has content that the next step of a write at `sector` does not hide.
pub open spec fn settled(store: StorageState, bypass_cache: bool, sector: int, t: int) -> bool {
    &&& sector_data(store, t) is Some
    &&& store.writes_cache(bypass_cache) && t / 8 == sector / 8 ==> store.cache.contains_key(
        crate::disk_storage::index_of(t as u64),
    )
    &&& !store.writes_cache(bypass_cache) ==> uncached(store, t)
}

/// A step over a segment of whole sectors moves whole sectors.
pub proof fn lemma_step_whole(seg: SegmentState, limit: int)
    requires
        whole_sectors(seg),
        seg.len() > 0,
        limit > 0,
        limit % 512 == 0,
    ensures
        seg.step(limit) % 512 == 0,
        512 <= seg.step(limit) <= seg.len(),
        seg.step(limit) <= limit,
        seg.step(limit) <= 4096,
{
    assert((seg.offset + seg.pos) % 4096 % 512 == 0) by {
        assert((seg.offset + seg.pos) % 512 == 0);
    }
}

/// Two addressable sectors have the same page number exactly if they are in the same page.
pub proof fn lemma_same_page(a: int, b: int)
    requires
        addressable(a),
        addressable(b),
    ensures
        (crate::disk_storage::index_of(a as u64) == crate::disk_storage::index_of(b as u64)) == (a
            / 8 == b / 8),
{
}

/// One step of a write gives its sectors their content and leaves other sectors alone.
proof fn lemma_chunk(w: TransferState, bypass_cache: bool, block_size: int, t: int)
    requires
        traceable(w, bypass_cache, block_size),
        w.seg.len() > 0,
        w.spare is Some,
        addressable(t),
    ensures
        w.write_len(block_size) % 512 == 0,
        512 <= w.write_len(block_size) <= w.seg.len(),
        w.chunk_written(bypass_cache, block_size).sector == w.sector + w.write_len(block_size)
            / 512,
        w.chunk_written(bypass_cache, block_size).sector <= (w.sector / 8) * 8 + 8,
        w.chunk_written(bypass_cache, block_size).store.inv(),
        w.chunk_written(bypass_cache, block_size).store.below_limit(),
        crate::disk_storage::spare_ok(w.chunk_written(bypass_cache, block_size).spare),
        w.chunk_written(bypass_cache, block_size).store.cache_size == w.store.cache_size,
        whole_sectors(w.chunk_written(bypass_cache, block_size).seg),
        w.sector <= t < w.chunk_written(bypass_cache, block_size).sector ==> {
            &&& in_place(w.chunk_written(bypass_cache, block_size).store, bypass_cache, t)
            &&& sector_data(w.chunk_written(bypass_cache, block_size).store, t) == Some(
                sector_of(w.seg, t - w.sector),
            )
        },
        !(w.sector <= t < w.chunk_written(bypass_cache, block_size).sector) && settled(
            w.store,
            bypass_cache,
            w.sector,
            t,
        ) ==> {
            &&& settled(
                w.chunk_written(bypass_cache, block_size).store,
                bypass_cache,
                w.sector,
                t,
            )
            &&& sector_data(w.chunk_written(bypass_cache, block_size).store, t) == sector_data(
                w.store,
                t,
            )
        },
        !(w.sector <= t < w.chunk_written(bypass_cache, block_size).sector) && in_place(
            w.store,
            bypass_cache,
            t,
        ) ==> {
            &&& in_place(w.chunk_written(bypass_cache, block_size).store, bypass_cache, t)
            &&& sector_data(w.chunk_written(bypass_cache, block_size).store, t) == sector_data(
                w.store,
                t,
            )
        },
        !w.store.writes_cache(bypass_cache) ==> uncached(
            w.chunk_written(bypass_cache, block_size).store,
            t,
        ) == uncached(w.store, t),
{
    let v = w.chunk_written(bypass_cache, block_size);
    let at = crate::device::page_offset(w.sector);
    let room = 4096 - at;
    let limit = if block_size <= room { block_size } else { room };
    lemma_step_whole(w.seg, limit);
    let len = w.write_len(block_size);
    let sector = w.sector as u64;
    let index = crate::disk_storage::index_of(sector);
    let store = w.write_store(bypass_cache);
    assert(addressable(w.sector)) by {
        assert(w.sector <= w.sector + w.seg.len() / 512);
    }
    lemma_same_page(w.sector, t);
    assert(store.inv()) by {
        assert(store.cache.dom() =~= w.store.cache.dom());
        assert forall|i: usize| #[trigger] store.cache.contains_key(i) implies store.cache[i].inv() by {
            assert(w.store.cache.contains_key(i));
        }
    }
    crate::disk_storage::lemma_write_ready(store, sector, bypass_cache, w.spare);
    let found = store.write_page(sector, bypass_cache, w.spare);
    assert(found.inv());
    let data = w.seg.data.subrange(w.seg.pos, w.seg.pos + len);
    let page = found.with_occupied(sector).with_bytes(
        crate::disk_storage::page::splice(found.bytes, at, data),
    );
    assert(v.store == store.put(sector, bypass_cache, page));
    assert(page.inv());
    crate::disk_storage::lemma_put_inv(store, sector, bypass_cache, page);
    if w.store.writes_cache(bypass_cache) {
        assert(v.store.cache.dom() =~= store.cache.dom().insert(index));
    } else {
        assert(v.store.cache.dom() =~= w.store.cache.dom());
    }
    assert(sector_data(store, t) == sector_data(w.store, t));
    assert(v.store.writes_cache(bypass_cache) == w.store.writes_cache(bypass_cache));
    if w.sector <= t < v.sector {
        assert(t / 8 == w.sector / 8);
        assert(crate::device::page_offset(t) == at + (t - w.sector) * 512);
        assert(v.store.read_page(t as u64) == Some(page)) by {
            if !w.store.writes_cache(bypass_cache) {
                assert(uncached(w.store, t));
            }
        }
        assert(sector_data(v.store, t)->Some_0 =~= sector_of(w.seg, t - w.sector));
        assert(crate::disk_storage::index_of(t as u64) == index);
        if w.store.writes_cache(bypass_cache) {
            assert(v.store.cache.contains_key(index));
        } else {
            assert(v.store.disk.contains_key(index));
            assert(uncached(w.store, t));
            assert(uncached(v.store, t));
        }
        assert(in_place(v.store, bypass_cache, t));
    } else {
        if t / 8 == w.sector / 8 && (settled(w.store, bypass_cache, w.sector, t) || in_place(
            w.store,
            bypass_cache,
            t,
        )) {
            let o = crate::device::page_offset(t);
            assert(o + 512 <= at || at + len <= o);
            assert(page.bytes.subrange(o, o + 512) =~= found.bytes.subrange(o, o + 512));
            assert(store.read_page(t as u64) is Some);
            assert(store.read_page(t as u64)->Some_0.bytes == found.bytes);
            assert(sector_data(v.store, t) == sector_data(w.store, t));
        }
    }
}

/// A sector lies in one of the pages that a write of sectors from `sector` to `end` comes to after
/// its first page.
pub open spec fn in_later_page(sector: int, end: int, t: int) -> bool {
    sector / 8 < t / 8 && t / 8 <= (end - 1) / 8
}

/// A write that succeeds gives its sectors the bytes of the segment, and what follows it at once does
/// not hide them. Other sectors keep their content if they are not in a page that the write comes to
/// later, or if they are in place.
pub proof fn lemma_written(w: TransferState, bypass_cache: bool, block_size: int, t: int)
    requires
        traceable(w, bypass_cache, block_size),
        w.written(bypass_cache, block_size).1 is Ok,
        addressable(t),
    ensures
        ({
            let v = w.written(bypass_cache, block_size).0;
            let end = w.sector + w.seg.len() / 512;
            &&& w.sector <= t < end ==> sector_data(v.store, t) == Some(
                sector_of(w.seg, t - w.sector),
            ) && settled(v.store, bypass_cache, end, t)
            &&& !(w.sector <= t < end) && !in_later_page(w.sector, end, t) && settled(
                w.store,
                bypass_cache,
                w.sector,
                t,
            ) ==> sector_data(v.store, t) == sector_data(w.store, t) && (t < end ==> settled(
                v.store,
                bypass_cache,
                end,
                t,
            ))
            &&& !(w.sector <= t < end) && in_place(w.store, bypass_cache, t) ==> in_place(v.store, bypass_cache, t) && sector_data(v.store, t) == sector_data(
                w.store,
                t,
            )
            &&& !w.store.writes_cache(bypass_cache) ==> uncached(v.store, t) == uncached(
                w.store,
                t,
            )
            &&& v.store.cache_size == w.store.cache_size
            &&& v.store.inv()
            &&& v.store.below_limit()
            &&& crate::disk_storage::spare_ok(v.spare)
            &&& 0 <= v.grants
        }),
    decreases w.seg.len(),
{
    if w.seg.len() > 0 {
        let ready = w.preloaded(block_size).0;
        assert(ready.spare is Some && crate::disk_storage::spare_ok(ready.spare));
        assert(ready.store == w.store && ready.seg == w.seg && ready.sector == w.sector);
        lemma_next_traceable(w, bypass_cache, block_size);
        lemma_chunk(ready, bypass_cache, block_size, t);
        let next = ready.chunk_written(bypass_cache, block_size);
        lemma_written(next, bypass_cache, block_size, t);
        let end = w.sector + w.seg.len() / 512;
        if next.sector <= t {
            assert(sector_of(next.seg, t - next.sector) == sector_of(w.seg, t - w.sector)) by {
                assert(next.seg.pos + (t - next.sector) * 512 == w.seg.pos + (t - w.sector) * 512);
            }
        }
        if w.sector <= t < next.sector {
            assert(settled(next.store, bypass_cache, next.sector, t));
            assert(!in_later_page(next.sector, end, t));
        } else if !(w.sector <= t < end) && !in_later_page(w.sector, end, t) && settled(
            w.store,
            bypass_cache,
            w.sector,
            t,
        ) {
            assert(!in_later_page(next.sector, end, t));
            if t < next.sector || next.seg.len() > 0 {
                assert(settled(next.store, bypass_cache, next.sector, t));
            }
        }
    }
}

/// What follows the first step of a write can be followed, too.
proof fn lemma_next_traceable(w: TransferState, bypass_cache: bool, block_size: int)
    requires
        traceable(w, bypass_cache, block_size),
        w.written(bypass_cache, block_size).1 is Ok,
        w.seg.len() > 0,
    ensures
        ({
            let ready = w.preloaded(block_size).0;
            let next = ready.chunk_written(bypass_cache, block_size);
            &&& w.preloaded(block_size).1 is Ok
            &&& traceable(ready, bypass_cache, block_size)
            &&& traceable(next, bypass_cache, block_size)
            &&& next.seg.len() == w.seg.len() - ready.write_len(block_size)
            &&& next.sector + next.seg.len() / 512 == w.sector + w.seg.len() / 512
        }),
{
    let ready = w.preloaded(block_size).0;
    let next = ready.chunk_written(bypass_cache, block_size);
    lemma_chunk(ready, bypass_cache, block_size, w.sector);
    assert forall|u: int|
        next.sector <= u < next.sector + next.seg.len() / 512 && !next.store.writes_cache(
            bypass_cache,
        ) implies #[trigger] uncached(next.store, u) by {
        assert(uncached(w.store, u));
        lemma_chunk(ready, bypass_cache, block_size, u);
    }
}

/// What is read of a sector: zeros where its page does not exist.
pub open spec fn sector_read(store: StorageState, t: int) -> Seq<u8> {
    match sector_data(store, t) {
        Some(data) => data,
        None => Seq::new(512, |i: int| 0u8),
    }
}

/// A page that is available for the next write holds zeros.
pub open spec fn spare_blank(spare: Option<crate::disk_storage::page::PageState>) -> bool {
    spare matches Some(page) ==> page.bytes == Seq::new(4096, |i: int| 0u8)
}

/// One step of a write that does not go to a cache changes no other sector.
proof fn lemma_chunk_keeps(w: TransferState, bypass_cache: bool, block_size: int, t: int)
    requires
        traceable(w, bypass_cache, block_size),
        w.seg.len() > 0,
        w.spare is Some,
        spare_blank(w.spare),
        !w.store.writes_cache(bypass_cache),
        addressable(t),
        uncached(w.store, t),
        !(w.sector <= t < w.chunk_written(bypass_cache, block_size).sector),
    ensures
        sector_read(w.chunk_written(bypass_cache, block_size).store, t) == sector_read(w.store, t),
        spare_blank(w.chunk_written(bypass_cache, block_size).spare),
{
    lemma_chunk(w, bypass_cache, block_size, t);
    let v = w.chunk_written(bypass_cache, block_size);
    if !in_place(w.store, bypass_cache, t) {
        let index = crate::disk_storage::index_of(t as u64);
        assert(!w.store.disk.contains_key(index));
        assert(sector_data(w.store, t) is None);
        lemma_same_page(w.sector, t);
        if t / 8 == w.sector / 8 {
            let at = crate::device::page_offset(w.sector);
            let room = 4096 - at;
            lemma_step_whole(w.seg, if block_size <= room { block_size } else { room });
            let o = crate::device::page_offset(t);
            let len = w.write_len(block_size);
            assert(o + 512 <= at || at + len <= o);
            assert(sector_read(v.store, t) =~= sector_read(w.store, t));
        } else {
            assert(sector_data(v.store, t) is None);
        }
    }
}

/// A write that does not go to a cache changes nothing of what is read of other sectors.
pub proof fn lemma_others_unchanged(w: TransferState, bypass_cache: bool, block_size: int, t: int)
    requires
        traceable(w, bypass_cache, block_size),
        spare_blank(w.spare),
        !w.store.writes_cache(bypass_cache),
        w.written(bypass_cache, block_size).1 is Ok,
        addressable(t),
        uncached(w.store, t),
        !(w.sector <= t < w.sector + w.seg.len() / 512),
    ensures
        sector_read(w.written(bypass_cache, block_size).0.store, t) == sector_read(w.store, t),
    decreases w.seg.len(),
{
    if w.seg.len() > 0 {
        let ready = w.preloaded(block_size).0;
        assert(ready.spare is Some && crate::disk_storage::spare_ok(ready.spare));
        assert(ready.store == w.store && ready.seg == w.seg && ready.sector == w.sector);
        assert(spare_blank(ready.spare));
        lemma_next_traceable(w, bypass_cache, block_size);
        lemma_chunk(ready, bypass_cache, block_size, t);
        let next = ready.chunk_written(bypass_cache, block_size);
        lemma_chunk_keeps(ready, bypass_cache, block_size, t);
        lemma_others_unchanged(next, bypass_cache, block_size, t);
    }
}

/// A read of sectors that exist fills the segment with their content and leaves what was consumed
/// before alone.
#[verifier::rlimit(60)]
#[verifier::spinoff_prover]
pub proof fn lemma_read(r: TransferState, t: int)
    requires
        r.store.inv(),
        whole_sectors(r.seg),
        0 <= r.sector,
        addressable(r.sector + r.seg.len() / 512),
        forall|u: int|
            r.sector <= u < r.sector + r.seg.len() / 512 ==> #[trigger] sector_data(r.store, u)
                is Some,
    ensures
        ({
            let v = r.read();
            &&& v.seg.data.len() == r.seg.data.len()
            &&& forall|i: int| 0 <= i < r.seg.pos ==> v.seg.data[i] == r.seg.data[i]
            &&& r.sector <= t < r.sector + r.seg.len() / 512 ==> sector_of(r.seg, t - r.sector).len()
                == 512 && v.seg.data.subrange(
                r.seg.pos + (t - r.sector) * 512,
                r.seg.pos + (t - r.sector) * 512 + 512,
            ) == sector_data(r.store, t)->Some_0
        }),
    decreases r.seg.len(),
{
    if r.seg.len() > 0 {
        let at = crate::device::page_offset(r.sector);
        lemma_step_whole(r.seg, 4096 - at);
        assert(sector_data(r.store, r.sector) is Some);
        let page = r.store.read_page(r.sector as u64)->Some_0;
        assert(page.inv());
        let len = r.seg.step(4096 - at);
        let next = r.chunk_read();
        assert(next.seg.len() == r.seg.len() - len);
        assert(next.sector + next.seg.len() / 512 == r.sector + r.seg.len() / 512);
        lemma_read(next, t);
        let v = r.read();
        assert(v == next.read());
        assert forall|i: int| 0 <= i < r.seg.pos implies v.seg.data[i] == r.seg.data[i] by {
            assert(v.seg.data[i] == next.seg.data[i]);
        }
        if r.sector <= t < r.sector + r.seg.len() / 512 {
            let o = r.seg.pos + (t - r.sector) * 512;
            assert(0 <= o && o + 512 <= r.seg.data.len());
            if t < next.sector {
                assert(t / 8 == r.sector / 8);
                lemma_same_page(r.sector, t);
                assert(crate::device::page_offset(t) == at + (t - r.sector) * 512);
                let d = sector_data(r.store, t)->Some_0;
                assert(v.seg.data.subrange(o, o + 512) =~= d) by {
                    assert forall|k: int| 0 <= k < 512 implies v.seg.data.subrange(o, o + 512)[k]
                        == d[k] by {
                        assert(v.seg.data[o + k] == next.seg.data[o + k]);
                    }
                }
            } else {
                assert(next.seg.pos + (t - next.sector) * 512 == o);
            }
        }
    }
}

/// The sectors from `sector` on hold the bytes of a segment.
pub open spec fn holds_segment(store: StorageState, sector: int, seg: SegmentState) -> bool {
    forall|t: int|
        sector <= t < sector + seg.len() / 512 ==> #[trigger] sector_data(store, t) == Some(
            sector_of(seg, t - sector),
        )
}

/// A read of sectors that hold the bytes of a segment fills a segment of the same length with them.
proof fn lemma_read_held(store: StorageState, sector: int, source: SegmentState, target: SegmentState)
    requires
        store.inv(),
        0 <= sector,
        addressable(sector + source.len() / 512),
        whole_sectors(source),
        whole_sectors(target),
        target.pos == 0,
        target.len() == source.len(),
        holds_segment(store, sector, source),
    ensures
        crate::device::read_state(store, sector, target).read().seg.data == source.data.subrange(
            source.pos,
            source.data.len() as int,
        ),
{
    let r = crate::device::read_state(store, sector, target);
    let expected = source.data.subrange(source.pos, source.data.len() as int);
    lemma_read(r, sector);
    assert forall|i: int| 0 <= i < expected.len() implies r.read().seg.data[i] == expected[i] by {
        let t = sector + i / 512;
        let k = i % 512;
        assert(sector_data(store, t) == Some(sector_of(source, t - sector)));
        lemma_read(r, t);
        let window = r.read().seg.data.subrange((i / 512) * 512, (i / 512) * 512 + 512);
        assert(window[k] == r.read().seg.data[i]);
        assert(sector_of(source, i / 512)[k] == source.data[source.pos + i]);
    }
    assert(r.read().seg.data =~= expected);
}

/// A segment that was written is read back: after a write that succeeds, a read of the same sectors
/// fills a segment of the same length with the bytes that were written.
pub proof fn lemma_read_back(
    w: TransferState,
    bypass_cache: bool,
    block_size: int,
    target: SegmentState,
)
    requires
        traceable(w, bypass_cache, block_size),
        w.written(bypass_cache, block_size).1 is Ok,
        whole_sectors(target),
        target.pos == 0,
        target.len() == w.seg.len(),
    ensures
        crate::device::read_state(
            w.written(bypass_cache, block_size).0.store,
            w.sector,
            target,
        ).read().seg.data == w.seg.data.subrange(w.seg.pos, w.seg.data.len() as int),
{
    lemma_segment_held(w, bypass_cache, block_size);
    lemma_read_held(w.written(bypass_cache, block_size).0.store, w.sector, w.seg, target);
}

/// After a write that succeeds the sectors hold the bytes of the segment.
proof fn lemma_segment_held(w: TransferState, bypass_cache: bool, block_size: int)
    requires
        traceable(w, bypass_cache, block_size),
        w.written(bypass_cache, block_size).1 is Ok,
    ensures
        holds_segment(w.written(bypass_cache, block_size).0.store, w.sector, w.seg),
        w.written(bypass_cache, block_size).0.store.inv(),
{
    let store = w.written(bypass_cache, block_size).0.store;
    assert(addressable(w.sector));
    lemma_written(w, bypass_cache, block_size, w.sector);
    assert forall|t: int|
        w.sector <= t < w.sector + w.seg.len() / 512 implies #[trigger] sector_data(store, t)
        == Some(sector_of(w.seg, t - w.sector)) by {
        assert(addressable(t));
        lemma_written(w, bypass_cache, block_size, t);
    }
}

/// Number of sectors of the segments from number `i` on.
pub open spec fn sectors_from(segs: Seq<SegmentState>, i: int) -> int
    decreases segs.len() - i,
{
    if i < 0 || i >= segs.len() {
        0
    } else {
        segs[i].len() / 512 + sectors_from(segs, i + 1)
    }
}

/// The sectors from `sector` on hold the bytes of the segments from number `i` on.
pub open spec fn holds_segments(
    store: StorageState,
    sector: int,
    segs: Seq<SegmentState>,
    i: int,
) -> bool
    decreases segs.len() - i,
{
    i < 0 || i >= segs.len() || {
        &&& holds_segment(store, sector, segs[i])
        &&& holds_segments(store, sector + segs[i].len() / 512, segs, i + 1)
    }
}

/// A write of the segments from number `i` on that can be followed sector by sector: of whole
/// sectors, to pages that no cached page hides, and within the sectors up to `end`.
pub open spec fn request_traceable(
    config: crate::device::io::IoConfig,
    s: crate::device::io::IoState,
    i: int,
    sector: int,
    end: int,
) -> bool {
    let bypass_cache = s.rq.forced_unit_access();
    let block_size = config.block_size as int;
    &&& s.store.inv()
    &&& s.store.below_limit()
    &&& crate::disk_storage::spare_ok(s.spare)
    &&& forall|j: int| i <= j < s.rq.segs.len() ==> #[trigger] whole_sectors(s.rq.segs[j])
    &&& block_size % 512 == 0
    &&& 0 < block_size <= 4096
    &&& crate::disk_storage::page::block_shift(block_size as usize) <= 12
    &&& 0 <= s.grants
    &&& 0 <= sector
    &&& sector + sectors_from(s.rq.segs, i) <= end
    &&& addressable(sector + sectors_from(s.rq.segs, i))
    &&& !s.store.writes_cache(bypass_cache) ==> forall|t: int|
        sector <= t < sector + sectors_from(s.rq.segs, i) ==> #[trigger] uncached(s.store, t)
}

/// Segments have no negative number of sectors.
pub proof fn lemma_sectors_from(segs: Seq<SegmentState>, i: int)
    requires
        0 <= i,
        forall|j: int| i <= j < segs.len() ==> #[trigger] whole_sectors(segs[j]),
    ensures
        sectors_from(segs, i) >= 0,
    decreases segs.len() - i,
{
    if i < segs.len() {
        assert(whole_sectors(segs[i]));
        lemma_sectors_from(segs, i + 1);
    }
}

/// What is said of the segments from one number on does not depend on those before.
proof fn lemma_segments_suffix(
    store: StorageState,
    sector: int,
    a: Seq<SegmentState>,
    b: Seq<SegmentState>,
    i: int,
)
    requires
        0 <= i,
        a.len() == b.len(),
        forall|j: int| i <= j < a.len() ==> a[j] == b[j],
    ensures
        sectors_from(a, i) == sectors_from(b, i),
        holds_segments(store, sector, a, i) == holds_segments(store, sector, b, i),
    decreases a.len() - i,
{
    if i < a.len() {
        lemma_segments_suffix(store, sector + a[i].len() / 512, a, b, i + 1);
    }
}

/// Where the sectors hold no content, nothing is left to read: segments without sectors hold.
proof fn lemma_nothing_held(store: StorageState, sector: int, segs: Seq<SegmentState>, i: int)
    requires
        0 <= i,
        forall|j: int| i <= j < segs.len() ==> #[trigger] whole_sectors(segs[j]),
        sectors_from(segs, i) == 0,
    ensures
        holds_segments(store, sector, segs, i),
        forall|j: int| i <= j < segs.len() ==> (#[trigger] segs[j]).len() == 0,
    decreases segs.len() - i,
{
    if i < segs.len() {
        assert(whole_sectors(segs[i]));
        lemma_sectors_from(segs, i + 1);
        lemma_nothing_held(store, sector + segs[i].len() / 512, segs, i + 1);
    }
}

/// The first step of a write of segments, and that what follows can be followed, too.
proof fn lemma_first_segment(
    config: crate::device::io::IoConfig,
    s: crate::device::io::IoState,
    i: int,
    sector: int,
    end: int,
)
    requires
        0 <= i < s.rq.segs.len(),
        request_traceable(config, s, i, sector, end),
        s.segment_transferred(config, crate::block::mq::command::Command::Write, i, sector).1 is Ok,
    ensures
        ({
            let next = sector + s.rq.segs[i].len() / 512;
            let state = s.segment_transferred(
                config,
                crate::block::mq::command::Command::Write,
                i,
                sector,
            ).0;
            let bypass_cache = s.rq.forced_unit_access();
            &&& crate::device::io::advance_len(s.rq.segs[i], end - sector) == s.rq.segs[i].len()
            &&& traceable(s.segment(i, sector), bypass_cache, config.block_size as int)
            &&& state.rq.segs.len() == s.rq.segs.len()
            &&& state.rq.forced_unit_access() == bypass_cache
            &&& forall|j: int| i < j < s.rq.segs.len() ==> state.rq.segs[j] == s.rq.segs[j]
            &&& request_traceable(config, state, i + 1, next, end)
            &&& holds_segment(state.store, sector, s.rq.segs[i])
            &&& sector <= next <= end
            &&& next + sectors_from(s.rq.segs, i + 1) == sector + sectors_from(s.rq.segs, i)
        }),
{
    let bypass_cache = s.rq.forced_unit_access();
    let block_size = config.block_size as int;
    let w = s.segment(i, sector);
    let next = sector + s.rq.segs[i].len() / 512;
    let state = s.segment_transferred(
        config,
        crate::block::mq::command::Command::Write,
        i,
        sector,
    ).0;
    assert(whole_sectors(s.rq.segs[i]));
    lemma_sectors_from(s.rq.segs, i + 1);
    assert(addressable(next));
    assert(traceable(w, bypass_cache, block_size));
    lemma_segment_held(w, bypass_cache, block_size);
    lemma_segments_suffix(state.store, next, s.rq.segs, state.rq.segs, i + 1);
    assert forall|j: int| i + 1 <= j < state.rq.segs.len() implies #[trigger] whole_sectors(
        state.rq.segs[j],
    ) by {
        assert(whole_sectors(s.rq.segs[j]));
    }
    assert(addressable(sector));
    lemma_written(w, bypass_cache, block_size, sector);
    if !s.store.writes_cache(bypass_cache) {
        assert forall|t: int|
            next <= t < next + sectors_from(state.rq.segs, i + 1) implies #[trigger] uncached(
            state.store,
            t,
        ) by {
            assert(uncached(s.store, t));
            assert(addressable(t));
            lemma_written(w, bypass_cache, block_size, t);
        }
    }
}

/// A write of segments leaves the content of a sector before them alone.
proof fn lemma_segments_keep(
    config: crate::device::io::IoConfig,
    s: crate::device::io::IoState,
    i: int,
    sector: int,
    end: int,
    t: int,
)
    requires
        0 <= i,
        request_traceable(config, s, i, sector, end),
        s.segments_transferred(
            config,
            crate::block::mq::command::Command::Write,
            i,
            sector,
            end,
        ).1 is Ok,
        0 <= t < sector,
        addressable(t),
        settled(s.store, s.rq.forced_unit_access(), sector, t),
    ensures
        sector_data(
            s.segments_transferred(
                config,
                crate::block::mq::command::Command::Write,
                i,
                sector,
                end,
            ).0.store,
            t,
        ) == sector_data(s.store, t),
    decreases s.rq.segs.len() - i,
{
    if i < s.rq.segs.len() {
        lemma_first_segment(config, s, i, sector, end);
        let w = s.segment(i, sector);
        let next = sector + s.rq.segs[i].len() / 512;
        let state = s.segment_transferred(
            config,
            crate::block::mq::command::Command::Write,
            i,
            sector,
        ).0;
        lemma_written(w, s.rq.forced_unit_access(), config.block_size as int, t);
        assert(!in_later_page(sector, next, t));
        if next < end {
            lemma_segments_keep(config, state, i + 1, next, end, t);
        }
    }
}

/// After a write of segments that succeeds the sectors hold the bytes of the segments.
pub proof fn lemma_segments_held(
    config: crate::device::io::IoConfig,
    s: crate::device::io::IoState,
    i: int,
    sector: int,
    end: int,
)
    requires
        0 <= i,
        request_traceable(config, s, i, sector, end),
        s.segments_transferred(
            config,
            crate::block::mq::command::Command::Write,
            i,
            sector,
            end,
        ).1 is Ok,
    ensures
        ({
            let store = s.segments_transferred(
                config,
                crate::block::mq::command::Command::Write,
                i,
                sector,
                end,
            ).0.store;
            &&& holds_segments(store, sector, s.rq.segs, i)
            &&& store.inv()
        }),
    decreases s.rq.segs.len() - i,
{
    if i < s.rq.segs.len() {
        lemma_first_segment(config, s, i, sector, end);
        let w = s.segment(i, sector);
        let next = sector + s.rq.segs[i].len() / 512;
        let state = s.segment_transferred(
            config,
            crate::block::mq::command::Command::Write,
            i,
            sector,
        ).0;
        let store = s.segments_transferred(
            config,
            crate::block::mq::command::Command::Write,
            i,
            sector,
            end,
        ).0.store;
        if next < end {
            lemma_segments_held(config, state, i + 1, next, end);
            lemma_segments_suffix(store, next, s.rq.segs, state.rq.segs, i + 1);
            assert forall|t: int| sector <= t < next implies #[trigger] sector_data(store, t)
                == Some(sector_of(s.rq.segs[i], t - sector)) by {
                assert(addressable(t));
                lemma_written(w, s.rq.forced_unit_access(), config.block_size as int, t);
                lemma_segments_keep(config, state, i + 1, next, end, t);
            }
        } else {
            lemma_sectors_from(s.rq.segs, i + 1);
            lemma_nothing_held(store, next, s.rq.segs, i + 1);
        }
    }
}

/// A read of segments fills those from number `i` on with what the sectors hold, and leaves those
/// before alone.
proof fn lemma_segments_read(
    config: crate::device::io::IoConfig,
    r: crate::device::io::IoState,
    source: Seq<SegmentState>,
    i: int,
    sector: int,
    end: int,
    j: int,
)
    requires
        0 <= i,
        0 <= j < r.rq.segs.len(),
        r.store.inv(),
        0 <= sector,
        source.len() == r.rq.segs.len(),
        forall|k: int| i <= k < source.len() ==> #[trigger] whole_sectors(source[k]),
        forall|k: int|
            i <= k < source.len() ==> {
                &&& whole_sectors(#[trigger] r.rq.segs[k])
                &&& r.rq.segs[k].pos == 0
                &&& r.rq.segs[k].len() == source[k].len()
            },
        sector + sectors_from(source, i) <= end,
        addressable(sector + sectors_from(source, i)),
        holds_segments(r.store, sector, source, i),
    ensures
        ({
            let segs = r.segments_transferred(
                config,
                crate::block::mq::command::Command::Read,
                i,
                sector,
                end,
            ).0.rq.segs;
            &&& segs.len() == r.rq.segs.len()
            &&& j < i ==> segs[j] == r.rq.segs[j]
            &&& j >= i ==> segs[j].data == source[j].data.subrange(
                source[j].pos,
                source[j].data.len() as int,
            )
        }),
    decreases r.rq.segs.len() - i,
{
    if i < r.rq.segs.len() {
        assert(whole_sectors(source[i]));
        assert(whole_sectors(r.rq.segs[i]));
        lemma_sectors_from(source, i + 1);
        let next = sector + source[i].len() / 512;
        assert(addressable(next));
        lemma_read_held(r.store, sector, source[i], r.rq.segs[i]);
        let (state, status) = r.segment_transferred(
            config,
            crate::block::mq::command::Command::Read,
            i,
            sector,
        );
        assert(crate::device::io::advance_len(r.rq.segs[i], end - sector) == source[i].len());
        if next < end {
            lemma_segments_read(config, state, source, i + 1, next, end, j);
        } else {
            lemma_nothing_held(r.store, next, source, i + 1);
            if j > i {
                assert(source[j].len() == 0);
                assert(r.rq.segs[j].len() == 0);
                assert(r.rq.segs[j].data =~= source[j].data.subrange(
                    source[j].pos,
                    source[j].data.len() as int,
                ));
            }
        }
    }
}

/// A request that was written is read back: after a write that succeeds, a read of the same sectors
/// into segments of the same lengths returns the bytes that were written, segment by segment.
pub proof fn lemma_request_read_back(
    config: crate::device::io::IoConfig,
    w: crate::device::io::IoState,
    r: crate::device::io::IoState,
    sectors: u32,
    i: int,
)
    requires
        0 <= i < w.rq.segs.len(),
        r.rq.segs.len() == w.rq.segs.len(),
        r.rq.sector == w.rq.sector,
        request_traceable(config, w, 0, w.rq.sector as int, w.rq.sector + sectors),
        w.transferred(config, crate::block::mq::command::Command::Write, sectors).1 is Ok,
        r.store == w.transferred(
            config,
            crate::block::mq::command::Command::Write,
            sectors,
        ).0.store,
        forall|k: int|
            0 <= k < r.rq.segs.len() ==> {
                &&& whole_sectors(#[trigger] r.rq.segs[k])
                &&& r.rq.segs[k].pos == 0
                &&& r.rq.segs[k].len() == w.rq.segs[k].len()
            },
    ensures
        r.transferred(
            config,
            crate::block::mq::command::Command::Read,
            sectors,
        ).0.rq.segs[i].data == w.rq.segs[i].data.subrange(
            w.rq.segs[i].pos,
            w.rq.segs[i].data.len() as int,
        ),
{
    let sector = w.rq.sector as int;
    let end = w.rq.sector + sectors;
    lemma_segments_held(config, w, 0, sector, end);
    lemma_segments_read(config, r, w.rq.segs, 0, sector, end, i);
}

} // verus!
