//! Processing of requests.

use crate::bio::SegmentState;
use crate::block::badblocks::{BadBlocks, BlockStatus, SectorBound, SectorRange};
use crate::block::error::BLK_STS_IOERR;
use crate::block::mq::command::Command;
use crate::block::mq::request::{Request, RequestState};
use crate::block::mq::request_flag::Flag;
use crate::device::{Memory, NullBlkDevice, TransferState};
use crate::disk_storage::page::{NullBlockPage, PageState};
use crate::disk_storage::StorageState;
use crate::error::{Errno, Result, EINVAL};
use crate::util::{align_down, bytes_to_sectors, sectors_to_bytes};
use crate::zoned::ZonesState;
use vstd::prelude::*;

verus! {

/// What of a device does not change while it processes requests.
#[verifier::ext_equal]
pub struct IoConfig {
    /// Whether data is kept.
    pub memory_backed: bool,
    /// Size of a block in bytes.
    pub block_size: u32,
    /// Whether bad blocks are tracked.
    pub bad_blocks: bool,
    /// Whether bad blocks become good when they are hit.
    pub bad_blocks_once: bool,
    /// Whether data before a bad block is transferred.
    pub bad_blocks_partial_io: bool,
}

/// What changes while a device processes a request.
#[verifier::ext_equal]
pub struct IoState {
    /// The storage.
    pub store: StorageState,
    /// The zones.
    pub zones: ZonesState,
    /// A page that is available for the next write.
    pub spare: Option<PageState>,
    /// Number of allocations that succeed.
    pub grants: int,
    /// The request.
    pub rq: RequestState,
}

/// The state of a device that processes a request.
pub open spec fn io_state(
    device: NullBlkDevice,
    spare: Option<NullBlockPage>,
    memory: Memory,
    rq: Request,
) -> IoState {
    IoState {
        store: device.storage@,
        zones: device.zoned@,
        spare: crate::disk_storage::spare_state(spare),
        grants: memory.grants as int,
        rq: rq@,
    }
}

/// Number of bytes by which a transfer of a segment advances: those of the segment, unless bad blocks
/// leave fewer than that.
pub open spec fn advance_len(seg: SegmentState, remaining: int) -> int {
    if seg.len() <= remaining * 512 {
        seg.len()
    } else {
        remaining * 512
    }
}

impl IoState {
    /// The state of the transfer of segment number `i`.
    pub open spec fn segment(self, i: int, sector: int) -> TransferState {
        TransferState {
            store: self.store,
            spare: self.spare,
            grants: self.grants,
            seg: self.rq.segs[i],
            sector,
        }
    }

    /// The state after the transfer of segment number `i`.
    pub open spec fn with_segment(self, i: int, t: TransferState) -> IoState {
        IoState {
            store: t.store,
            spare: t.spare,
            grants: t.grants,
            rq: RequestState { segs: self.rq.segs.update(i, t.seg), ..self.rq },
            ..self
        }
    }

    /// The outcome of the transfer of segment number `i`.
    pub open spec fn segment_transferred(
        self,
        config: IoConfig,
        command: Command,
        i: int,
        sector: int,
    ) -> (IoState, Result<()>) {
        if command == Command::Write {
            let (t, r) = self.segment(i, sector).written(
                self.rq.forced_unit_access(),
                config.block_size as int,
            );
            (self.with_segment(i, t), r)
        } else if command == Command::Read {
            let t = crate::device::read_state(self.store, sector, self.rq.segs[i]).read();
            (
                IoState {
                    rq: RequestState { segs: self.rq.segs.update(i, t.seg), ..self.rq },
                    ..self
                },
                Ok(()),
            )
        } else {
            (self, Ok(()))
        }
    }

    /// The outcome of a transfer of the segments from number `i` on, which starts at `sector` and
    /// ends where `end` is reached.
    pub open spec fn segments_transferred(
        self,
        config: IoConfig,
        command: Command,
        i: int,
        sector: int,
        end: int,
    ) -> (IoState, Result<()>)
        decreases self.rq.segs.len() - i,
        when 0 <= i
    {
        if i >= self.rq.segs.len() {
            (self, Ok(()))
        } else {
            let next = sector + advance_len(self.rq.segs[i], end - sector) / 512;
            match self.segment_transferred(config, command, i, sector) {
                (state, Err(e)) => (state, Err(e)),
                (state, Ok(_)) => if next >= end || state.rq.segs.len() != self.rq.segs.len() {
                    (state, Ok(()))
                } else {
                    state.segments_transferred(config, command, i + 1, next, end)
                },
            }
        }
    }

    /// The outcome of a transfer of the request over `sectors` sectors.
    pub open spec fn transferred(self, config: IoConfig, command: Command, sectors: u32) -> (
        IoState,
        Result<()>,
    ) {
        self.segments_transferred(
            config,
            command,
            0,
            self.rq.sector as int,
            self.rq.sector + sectors,
        )
    }

    /// Storage, zones and request are well formed, and the use of the cache is below its limit.
    pub open spec fn inv(self) -> bool {
        &&& self.store.inv()
        &&& self.store.below_limit()
        &&& self.zones.inv()
        &&& crate::disk_storage::spare_ok(self.spare)
        &&& self.rq.inv()
        &&& 0 <= self.grants
    }

    /// The sectors of a transfer that starts at `sector` and of the pages behind them have numbers.
    pub open spec fn in_range(self, sector: u64) -> bool {
        &&& sector + self.rq.sectors <= u64::MAX
        &&& forall|i: int|
            0 <= i < self.rq.segs.len() ==> sector + self.rq.sectors + #[trigger] self.rq.segs[i].len()
                / 512 <= u64::MAX
    }
}

impl NullBlkDevice {
    /// What of the device does not change while it processes requests.
    pub open spec fn config(&self) -> IoConfig {
        IoConfig {
            memory_backed: self.memory_backed,
            block_size: self.block_size_bytes,
            bad_blocks: self.bad_blocks.is_enabled(),
            bad_blocks_once: self.bad_blocks_once,
            bad_blocks_partial_io: self.bad_blocks_partial_io,
        }
    }

    /// The storage and the zones are well formed, the use of the cache is below its limit, and the
    /// block size is one that a disk can have.
    pub open spec fn inv(&self) -> bool {
        &&& self.storage.inv()
        &&& self.storage@.below_limit()
        &&& self.zoned.inv()
        &&& crate::block::mq::gen_disk::valid_block_size(self.block_size_bytes)
    }

    /// Only storage and zones differ.
    pub open spec fn same_but_io(&self, other: &Self) -> bool {
        &&& self.config() == other.config()
        &&& self.irq_mode == other.irq_mode
        &&& self.completion_time == other.completion_time
        &&& self.bad_blocks == other.bad_blocks
        &&& self.bandwidth_limit == other.bandwidth_limit
        &&& self.bandwidth_bytes == other.bandwidth_bytes
        &&& self.requeue_selector == other.requeue_selector
    }

    /// Transfers the data of a request. The number of sectors might be limited by bad blocks.
    #[verifier::spinoff_prover]
    #[verifier::rlimit(40)]
    pub fn transfer(
        &mut self,
        spare: &mut Option<NullBlockPage>,
        memory: &mut Memory,
        rq: &mut Request,
        command: Command,
        sectors: u32,
    ) -> (r: Result<()>)
        requires
            old(self).inv(),
            io_state(*old(self), *old(spare), *old(memory), *old(rq)).inv(),
            io_state(*old(self), *old(spare), *old(memory), *old(rq)).in_range(old(rq).sector),
            sectors <= old(rq).sectors,
        ensures
            final(self).inv(),
            final(self).same_but_io(&*old(self)),
            io_state(*final(self), *final(spare), *final(memory), *final(rq)).inv(),
            (io_state(*final(self), *final(spare), *final(memory), *final(rq)), r) == io_state(
                *old(self),
                *old(spare),
                *old(memory),
                *old(rq),
            ).transferred(old(self).config(), command, sectors),
    {
        let mut sector: u64 = rq.sector;
        let end_sector: u64 = sector + sectors as u64;
        let skip_cache: bool = rq.flags.contains(Flag::ForcedUnitAccess);
        let mut i: usize = 0;
        let ghost goal = io_state(*self, *spare, *memory, *rq).transferred(
            self.config(),
            command,
            sectors,
        );
        while i < rq.segments.len()
            invariant
                self.inv(),
                self.same_but_io(&*old(self)),
                io_state(*self, *spare, *memory, *rq).inv(),
                io_state(*self, *spare, *memory, *rq).in_range(rq.sector),
                sectors <= rq.sectors,
                rq.sector <= sector <= end_sector,
                end_sector == rq.sector + sectors,
                skip_cache == rq@.forced_unit_access(),
                i <= rq.segments@.len(),
                goal == io_state(*old(self), *old(spare), *old(memory), *old(rq)).transferred(
                    old(self).config(),
                    command,
                    sectors,
                ),
                goal == io_state(*self, *spare, *memory, *rq).segments_transferred(
                    self.config(),
                    command,
                    i as int,
                    sector as int,
                    end_sector as int,
                ),
            decreases rq.segments@.len() - i,
        {
            let ghost before = io_state(*self, *spare, *memory, *rq);
            assert(before.rq.segs[i as int] == rq.segments@[i as int]@);
            assert(before.rq.segs[i as int].inv());
            let limit: u64 = sectors_to_bytes(end_sector - sector);
            let len: u64 = rq.segments[i].len() as u64;
            let length: u64 = if len <= limit {
                len
            } else {
                limit
            };
            match command {
                Command::Write => {
                    let status = NullBlkDevice::write(
                        &mut self.storage,
                        spare,
                        memory,
                        self.block_size_bytes,
                        sector,
                        &mut rq.segments[i],
                        skip_cache,
                    );
                    proof {
                        let (t, outcome) = before.segment(i as int, sector as int).written(
                            skip_cache,
                            self.block_size_bytes as int,
                        );
                        assert(io_state(*self, *spare, *memory, *rq) =~= before.with_segment(
                            i as int,
                            t,
                        ));
                    }
                    match status {
                        Ok(()) => {},
                        Err(e) => {
                            return Err(e);
                        },
                    }
                },
                Command::Read => {
                    let status = NullBlkDevice::read(&self.storage, sector, &mut rq.segments[i]);
                    proof {
                        let (state, outcome) = before.segment_transferred(
                            self.config(),
                            command,
                            i as int,
                            sector as int,
                        );
                        assert(io_state(*self, *spare, *memory, *rq) =~= state);
                    }
                    match status {
                        Ok(()) => {},
                        Err(e) => {
                            return Err(e);
                        },
                    }
                },
                _ => {},
            }
            sector += bytes_to_sectors(length);
            if sector >= end_sector {
                return Ok(());
            }
            i += 1;
        }
        Ok(())
    }
}

/// What bad blocks mean for a request.
pub struct Verdict {
    /// Whether the request fails.
    pub error: bool,
    /// Number of sectors to transfer all the same.
    pub sectors: u32,
    /// Whether processing goes on.
    pub result: Result<()>,
}

/// The bad range of a status.
pub open spec fn bad_range(status: BlockStatus) -> Option<SectorRange> {
    match status {
        BlockStatus::NoBadBlocks => None,
        BlockStatus::Acknowledged(range) => Some(range),
        BlockStatus::Unacknowledged(range) => Some(range),
    }
}

/// Number of sectors to transfer where a bad range was hit: those before the block in which the
/// range starts, if partial transfers are wanted, else none. Where the range does not start after
/// the first block of the request, partial transfers are not limited.
pub open spec fn limited_sectors(config: IoConfig, start: u64, sectors: u32, range: SectorRange) -> u32 {
    let unit = config.block_size as int / 512;
    let aligned = crate::util::rounded_down(range.start as int, unit);
    if !config.bad_blocks_partial_io {
        0
    } else if start < aligned {
        (aligned - start) as u32
    } else {
        sectors
    }
}

/// `v` is what bad blocks mean for a request for sectors from `start` on, where the host answers
/// through `lookup` and `clear`.
pub open spec fn judged<L: FnOnce(u64, u64) -> (i32, u64, u64), G: FnOnce(u64, u64) -> bool>(
    config: IoConfig,
    start: u64,
    sectors: u32,
    lookup: L,
    clear: G,
    v: Verdict,
) -> bool {
    if !config.bad_blocks {
        v == (Verdict { error: false, sectors, result: Ok(()) })
    } else {
        exists|answer: (i32, u64, u64)| #[trigger]
            call_ensures(lookup, (start, sectors as u64), answer) && judged_status(
                config,
                start,
                sectors,
                BadBlocks::read_status(answer.0, answer.1, answer.2),
                clear,
                v,
            )
    }
}

/// `v` is what a status of the sectors means for a request, where the host answers through `clear`.
pub open spec fn judged_status<G: FnOnce(u64, u64) -> bool>(
    config: IoConfig,
    start: u64,
    sectors: u32,
    status: BlockStatus,
    clear: G,
    v: Verdict,
) -> bool {
    match bad_range(status) {
        None => v == (Verdict { error: false, sectors, result: Ok(()) }),
        Some(range) => {
            let count = (range.end - range.start) as u64;
            let limited = Verdict {
                error: true,
                sectors: limited_sectors(config, start, sectors, range),
                result: Ok(()),
            };
            if config.bad_blocks_once {
                ||| call_ensures(clear, (range.start, count), true) && v == limited
                ||| call_ensures(clear, (range.start, count), false) && v == (Verdict {
                    error: true,
                    sectors,
                    result: Err(Errno(EINVAL)),
                })
            } else {
                v == limited
            }
        },
    }
}

/// The host can be asked about the sectors of a request: where bad blocks are tracked it looks the
/// sectors up, and what it reports starts before their end; where bad blocks become good when they
/// are hit it clears what it reported, and nothing else.
pub open spec fn answerable<L: FnOnce(u64, u64) -> (i32, u64, u64), G: FnOnce(u64, u64) -> bool>(
    config: IoConfig,
    start: u64,
    sectors: u32,
    lookup: L,
    clear: G,
) -> bool {
    config.bad_blocks ==> {
        &&& call_requires(lookup, (start, sectors as u64))
        &&& forall|answer: (i32, u64, u64)| #[trigger]
            call_ensures(lookup, (start, sectors as u64), answer) ==> report_ok(
                config,
                start,
                sectors,
                answer,
                clear,
            )
    }
}

/// What the host reported of the sectors of a request can be dealt with.
pub open spec fn report_ok<G: FnOnce(u64, u64) -> bool>(
    config: IoConfig,
    start: u64,
    sectors: u32,
    answer: (i32, u64, u64),
    clear: G,
) -> bool {
    answer.0 == 1 || answer.0 == -1 ==> {
        &&& answer.1 + answer.2 <= u64::MAX
        &&& answer.1 < start + sectors
        &&& config.bad_blocks_once ==> call_requires(clear, (answer.1, answer.2))
    }
}

impl IoState {
    /// The state after bad blocks were judged.
    pub open spec fn judged(self, v: Verdict) -> IoState {
        IoState { rq: self.rq.judged(v), ..self }
    }

    /// The outcome of a request without zones.
    pub open spec fn regular(self, config: IoConfig, v: Verdict) -> (IoState, Result<()>) {
        let state = self.judged(v);
        if v.result is Err {
            (state, v.result)
        } else if !config.memory_backed {
            (state, Ok(()))
        } else if self.rq.command == Command::Discard {
            (
                IoState {
                    store: self.store.sectors_discarded(self.rq.sector, v.sectors),
                    ..state
                },
                Ok(()),
            )
        } else {
            state.transferred(config, self.rq.command, v.sectors)
        }
    }

    /// A discard, of any number of sectors up to those of the request, can be processed.
    pub open spec fn discards_ok(self, config: IoConfig) -> bool {
        config.memory_backed && self.rq.command == Command::Discard ==> forall|s: u32|
            s <= self.rq.sectors ==> #[trigger] self.store.can_discard(self.rq.sector, s)
    }
}

impl RequestState {
    /// The request after bad blocks were judged.
    pub open spec fn judged(self, v: Verdict) -> RequestState {
        if v.error {
            self.with_error(BLK_STS_IOERR as u32)
        } else {
            self
        }
    }
}

impl NullBlkDevice {
    /// Number of sectors to transfer where a bad range was hit.
    pub fn limit_sectors(&self, start: u64, sectors: u32, range: SectorRange) -> (r: u32)
        requires
            self.inv(),
        ensures
            r == limited_sectors(self.config(), start, sectors, range),
    {
        if self.bad_blocks_partial_io {
            let block_size_sectors: u64 = bytes_to_sectors(self.block_size_bytes) as u64;
            proof {
                lemma_unit_is_power(self.block_size_bytes);
                crate::util::lemma_rounding(range.start as int, block_size_sectors as int);
            }
            let aligned: u64 = align_down(range.start, block_size_sectors);
            if start < aligned {
                (aligned - start) as u32
            } else {
                sectors
            }
        } else {
            0
        }
    }

    /// Judges a request by the bad blocks in its sectors: a request that hits bad blocks fails, and
    /// the number of its sectors can be limited.
    pub fn handle_bad_blocks<
        L: FnOnce(u64, u64) -> (i32, u64, u64),
        G: FnOnce(u64, u64) -> bool,
    >(&self, rq: &mut Request, sectors: &mut u32, lookup: L, clear: G) -> (r: Result<()>)
        requires
            self.inv(),
            answerable(self.config(), old(rq).sector, *old(sectors), lookup, clear),
            old(rq).sector + *old(sectors) <= u64::MAX,
        ensures
            exists|v: Verdict|
                {
                    &&& #[trigger] judged(
                        self.config(),
                        old(rq).sector,
                        *old(sectors),
                        lookup,
                        clear,
                        v,
                    )
                    &&& r == v.result
                    &&& *final(sectors) == v.sectors
                    &&& v.sectors <= *old(sectors)
                    &&& final(rq)@ == old(rq)@.judged(v)
                },
    {
        let ghost given = *sectors;
        if self.bad_blocks.enabled() {
            let start: u64 = rq.sector;
            let end: u64 = start + *sectors as u64;
            let status = self.bad_blocks.check(
                SectorBound::Included(start),
                SectorBound::Excluded(end),
                lookup,
            );
            let ghost answer = choose|answer: (i32, u64, u64)|
                call_ensures(lookup, (start, given as u64), answer) && status
                    == BadBlocks::read_status(answer.0, answer.1, answer.2);
            assert(call_ensures(lookup, (start, given as u64), answer) && status
                == BadBlocks::read_status(answer.0, answer.1, answer.2));
            let range = match status {
                BlockStatus::NoBadBlocks => {
                    proof {
                        let v = Verdict { error: false, sectors: given, result: Ok(()) };
                        assert(judged_status(self.config(), start, given, status, clear, v));
                        assert(judged(self.config(), start, given, lookup, clear, v));
                    }
                    return Ok(());
                },
                BlockStatus::Acknowledged(range) => range,
                BlockStatus::Unacknowledged(range) => range,
            };
            rq.error = BLK_STS_IOERR as u32;
            proof {
                lemma_limited(self.config(), start, given, range);
            }
            if self.bad_blocks_once {
                let status_cleared = self.bad_blocks.set_good(
                    SectorBound::Included(range.start),
                    SectorBound::Excluded(range.end),
                    clear,
                );
                match status_cleared {
                    Ok(()) => {},
                    Err(e) => {
                        proof {
                            let v = Verdict {
                                error: true,
                                sectors: given,
                                result: Err(Errno(EINVAL)),
                            };
                            assert(judged_status(self.config(), start, given, status, clear, v));
                            assert(judged(self.config(), start, given, lookup, clear, v));
                            assert(rq@ =~= old(rq)@.judged(v));
                        }
                        return Err(e);
                    },
                }
            }
            *sectors = self.limit_sectors(start, *sectors, range);
            proof {
                let v = Verdict { error: true, sectors: *sectors, result: Ok(()) };
                assert(judged_status(self.config(), start, given, status, clear, v));
                assert(judged(self.config(), start, given, lookup, clear, v));
                assert(rq@ =~= old(rq)@.judged(v));
            }
        } else {
            proof {
                let v = Verdict { error: false, sectors: given, result: Ok(()) };
                assert(judged(self.config(), rq.sector, given, lookup, clear, v));
            }
        }
        Ok(())
    }
}

impl NullBlkDevice {
    /// Processes a request without zones.
    pub fn handle_regular_command<
        L: FnOnce(u64, u64) -> (i32, u64, u64),
        G: FnOnce(u64, u64) -> bool,
    >(
        &mut self,
        spare: &mut Option<NullBlockPage>,
        memory: &mut Memory,
        rq: &mut Request,
        lookup: L,
        clear: G,
    ) -> (r: Result<()>)
        requires
            old(self).inv(),
            io_state(*old(self), *old(spare), *old(memory), *old(rq)).inv(),
            io_state(*old(self), *old(spare), *old(memory), *old(rq)).in_range(old(rq).sector),
            io_state(*old(self), *old(spare), *old(memory), *old(rq)).discards_ok(
                old(self).config(),
            ),
            answerable(old(self).config(), old(rq).sector, old(rq).sectors, lookup, clear),
        ensures
            final(self).inv(),
            final(self).same_but_io(&*old(self)),
            io_state(*final(self), *final(spare), *final(memory), *final(rq)).inv(),
            exists|v: Verdict|
                {
                    &&& #[trigger] judged(
                        old(self).config(),
                        old(rq).sector,
                        old(rq).sectors,
                        lookup,
                        clear,
                        v,
                    )
                    &&& (io_state(*final(self), *final(spare), *final(memory), *final(rq)), r)
                        == io_state(*old(self), *old(spare), *old(memory), *old(rq)).regular(
                        old(self).config(),
                        v,
                    )
                },
    {
        let mut sectors: u32 = rq.sectors;
        let ghost start = io_state(*self, *spare, *memory, *rq);
        let checked = self.handle_bad_blocks(rq, &mut sectors, lookup, clear);
        let ghost v = choose|v: Verdict|
            {
                &&& #[trigger] judged(
                    old(self).config(),
                    old(rq).sector,
                    old(rq).sectors,
                    lookup,
                    clear,
                    v,
                )
                &&& checked == v.result
                &&& sectors == v.sectors
                &&& v.sectors <= old(rq).sectors
                &&& rq@ == old(rq)@.judged(v)
            };
        assert(io_state(*self, *spare, *memory, *rq) =~= start.judged(v));
        match checked {
            Ok(()) => {},
            Err(e) => {
                assert(start.regular(old(self).config(), v) == (
                    start.judged(v),
                    Err::<(), Errno>(e),
                ));
                return Err(e);
            },
        }
        if self.memory_backed {
            if rq.command == Command::Discard {
                self.storage.discard(rq.sector, sectors);
                assert(io_state(*self, *spare, *memory, *rq) =~= start.regular(
                    old(self).config(),
                    v,
                ).0);
            } else {
                let command = rq.command;
                let r = self.transfer(spare, memory, rq, command, sectors);
                assert((io_state(*self, *spare, *memory, *rq), r) == start.regular(
                    old(self).config(),
                    v,
                ));
                return r;
            }
        }
        Ok(())
    }
}

/// The number of sectors of a block, to which partial transfers are rounded, is a power of two.
proof fn lemma_unit_is_power(block_size: u32)
    requires
        crate::block::mq::gen_disk::valid_block_size(block_size),
    ensures
        crate::util::is_power(block_size as int / 512),
        block_size as int / 512 > 0,
{
    let e: nat = choose|e: nat| block_size == #[trigger] vstd::arithmetic::power2::pow2(e);
    vstd::arithmetic::power2::lemma2_to64();
    if e < 9 {
        vstd::arithmetic::power2::lemma_pow2_strictly_increases(e, 9);
    }
    vstd::arithmetic::power2::lemma_pow2_adds((e - 9) as nat, 9);
    assert(block_size as int / 512 == vstd::arithmetic::power2::pow2((e - 9) as nat));
}

/// Bad blocks do not add sectors.
proof fn lemma_limited(config: IoConfig, start: u64, sectors: u32, range: SectorRange)
    requires
        crate::block::mq::gen_disk::valid_block_size(config.block_size),
        range.start < start + sectors,
    ensures
        limited_sectors(config, start, sectors, range) <= sectors,
{
    lemma_unit_is_power(config.block_size);
    crate::util::lemma_rounding(range.start as int, config.block_size as int / 512);
}

} // verus!
