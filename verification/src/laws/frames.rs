//! What processing a request leaves alone, and when it has the memory that it needs.

use crate::bio::SegmentState;
use crate::block::mq::command::Command;
use crate::block::mq::request::RequestState;
use crate::device::io::{IoConfig, IoState, Verdict};
use crate::device::TransferState;
use vstd::prelude::*;

verus! {

/// Only the place, the memory and the note of an error differ.
pub open spec fn same_request(a: RequestState, b: RequestState) -> bool {
    &&& a.command == b.command
    &&& a.sectors == b.sectors
    &&& a.bytes == b.bytes
    &&& a.flags == b.flags
    &&& a.poll == b.poll
    &&& a.fake_timeout == b.fake_timeout
}

/// Resetting zones leaves the request, the spare page and the memory alone.
pub proof fn lemma_reset_frame(s: IoState, no: int)
    requires
        0 <= no,
    ensures
        s.zones_reset(no).0.rq == s.rq,
        s.zones_reset(no).0.spare == s.spare,
        s.zones_reset(no).0.grants == s.grants,
    decreases s.zones.zones.len() - no,
{
    if no < s.zones.zones.len() {
        if s.reset_skips(no) {
            lemma_reset_frame(s, no + 1);
        } else {
            let (state, r) = s.zone_reset(no);
            if r is Ok && state.zones.zones.len() == s.zones.zones.len() {
                lemma_reset_frame(state, no + 1);
            }
        }
    }
}

/// A request stays the request that it was while it is processed.
pub proof fn lemma_processed_frame(s: IoState, config: IoConfig, v: Verdict)
    ensures
        same_request(s.processed(config, v).0.rq, s.rq),
{
    let j = s.judged(v);
    crate::device::zoned::lemma_transfer_frame(
        j,
        config,
        s.rq.command,
        0,
        s.rq.sector as int,
        s.rq.sector + v.sectors,
    );
    lemma_reset_frame(s, 0);
    if let Ok(position) = s.position() {
        let begun = s.write_begun(position, v);
        crate::device::zoned::lemma_transfer_frame(
            begun,
            config,
            Command::Write,
            0,
            begun.rq.sector as int,
            begun.rq.sector + v.sectors,
        );
    }
}

/// Number of bytes of the segments from number `i` on.
pub open spec fn bytes_from(segs: Seq<SegmentState>, i: int) -> int
    decreases segs.len() - i,
{
    if i < 0 || i >= segs.len() {
        0
    } else {
        segs[i].len() + bytes_from(segs, i + 1)
    }
}

/// A write of a segment takes two allocations for each byte at most, and fails only for want of
/// them.
pub proof fn lemma_segment_memory(w: TransferState, bypass_cache: bool, block_size: int)
    requires
        w.seg.inv(),
        0 < block_size <= 4096,
        0 <= w.sector,
        w.grants >= 2 * w.seg.len(),
    ensures
        w.written(bypass_cache, block_size).1 is Ok,
        w.written(bypass_cache, block_size).0.grants >= w.grants - 2 * w.seg.len(),
    decreases w.seg.len(),
{
    if w.seg.len() > 0 {
        let ready = w.preloaded(block_size).0;
        let next = ready.chunk_written(bypass_cache, block_size);
        assert(w.preloaded(block_size).1 is Ok);
        assert(ready.grants >= w.grants - 2);
        assert(1 <= ready.write_len(block_size) <= w.seg.len());
        lemma_segment_memory(next, bypass_cache, block_size);
    }
}

/// With two allocations for each byte a transfer succeeds.
pub proof fn lemma_transfer_memory(
    s: IoState,
    config: IoConfig,
    command: Command,
    i: int,
    sector: int,
    end: int,
)
    requires
        0 <= i,
        0 <= sector <= end,
        forall|j: int| 0 <= j < s.rq.segs.len() ==> #[trigger] s.rq.segs[j].inv(),
        0 < config.block_size <= 4096,
        s.grants >= 2 * bytes_from(s.rq.segs, i),
    ensures
        s.segments_transferred(config, command, i, sector, end).1 is Ok,
    decreases s.rq.segs.len() - i,
{
    if i < s.rq.segs.len() {
        assert(s.rq.segs[i].inv());
        let (state, r) = s.segment_transferred(config, command, i, sector);
        lemma_bytes_from(s.rq.segs, i + 1);
        if command == Command::Write {
            lemma_segment_memory(
                s.segment(i, sector),
                s.rq.forced_unit_access(),
                config.block_size as int,
            );
        }
        assert(r is Ok);
        let next = sector + crate::device::io::advance_len(s.rq.segs[i], end - sector) / 512;
        if next < end && state.rq.segs.len() == s.rq.segs.len() {
            lemma_bytes_suffix(s.rq.segs, state.rq.segs, i + 1);
            assert forall|j: int| 0 <= j < state.rq.segs.len() implies #[trigger] state.rq.segs[j].inv() by {
                assert(s.rq.segs[j].inv());
                if command == Command::Write {
                    lemma_written_segment(
                        s.segment(i, sector),
                        s.rq.forced_unit_access(),
                        config.block_size as int,
                    );
                } else if command == Command::Read {
                    lemma_read_segment(
                        crate::device::read_state(s.store, sector, s.rq.segs[i]),
                    );
                }
            }
            lemma_transfer_memory(state, config, command, i + 1, next, end);
        }
    }
}

/// Segments have no negative number of bytes.
pub proof fn lemma_bytes_from(segs: Seq<SegmentState>, i: int)
    requires
        0 <= i,
        forall|j: int| 0 <= j < segs.len() ==> #[trigger] segs[j].inv(),
    ensures
        bytes_from(segs, i) >= 0,
    decreases segs.len() - i,
{
    if i < segs.len() {
        assert(segs[i].inv());
        lemma_bytes_from(segs, i + 1);
    }
}

proof fn lemma_bytes_suffix(a: Seq<SegmentState>, b: Seq<SegmentState>, i: int)
    requires
        0 <= i,
        a.len() == b.len(),
        forall|j: int| i <= j < a.len() ==> a[j] == b[j],
    ensures
        bytes_from(a, i) == bytes_from(b, i),
    decreases a.len() - i,
{
    if i < a.len() {
        lemma_bytes_suffix(a, b, i + 1);
    }
}

/// A write of a segment leaves a well formed segment with the same bytes.
pub proof fn lemma_written_segment(w: TransferState, bypass_cache: bool, block_size: int)
    requires
        w.seg.inv(),
        0 < block_size <= 4096,
        0 <= w.sector,
    ensures
        w.written(bypass_cache, block_size).0.seg.inv(),
        w.written(bypass_cache, block_size).0.seg.data == w.seg.data,
    decreases w.seg.len(),
{
    if w.seg.len() > 0 {
        let (ready, r) = w.preloaded(block_size);
        if r is Ok {
            let next = ready.chunk_written(bypass_cache, block_size);
            assert(1 <= ready.write_len(block_size) <= w.seg.len());
            lemma_written_segment(next, bypass_cache, block_size);
        }
    }
}

/// A read of a segment leaves a well formed segment of the same length.
pub proof fn lemma_read_segment(r: TransferState)
    requires
        r.seg.inv(),
        0 <= r.sector,
    ensures
        r.read().seg.inv(),
        r.read().seg.data.len() == r.seg.data.len(),
    decreases r.seg.len(),
{
    if r.seg.len() > 0 && 0 <= r.chunk_read().seg.len() < r.seg.len() {
        lemma_read_segment(r.chunk_read());
    }
}

} // verus!
