//! Requests of the block layer.

use crate::block::error::{BlkError, BlkResult, BLK_STS_IOERR, BLK_STS_OK};
use crate::block::mq::command::Command;
use crate::block::mq::tag_set::{HCTX_TYPE_DEFAULT, HCTX_TYPE_POLL};
use crate::error::{Errno, Result, EINVAL};
use crate::nvme::prp::{free_prps, setup_prps, DmaPool, DmaSegments, PrpList};
use crate::nvme::queue::{Completed, Doorbell, NvmeData, NvmeQueue};
use crate::nvme::{NvmeCommand, NVME_OPCODE_READ, NVME_OPCODE_WRITE};
use crate::util::SECTOR_SHIFT;
use vstd::prelude::*;

verus! {

/// Data flows from the device.
pub const DMA_FROM_DEVICE: i32 = 2;

/// A namespace.
#[derive(Debug, Clone, Copy, PartialEq, Eq, Structural)]
pub struct NvmeNamespace {
    /// Number of the namespace.
    pub id: u32,
    /// Binary logarithm of the size of a logical block.
    pub lba_shift: u32,
}

/// The memory that belongs to a request in flight.
pub struct MappingData {
    /// Memory that the device can reach.
    pub io_data: DmaSegments,
    /// Where the driver finds the lists of pages.
    pub prp_data: Vec<usize>,
    /// The lists of pages.
    pub lists: Vec<PrpList>,
}

/// The data that the driver keeps for a request.
pub struct NvmeRequest {
    /// Result of the command.
    pub result: u32,
    /// Status of the command, zero for success.
    pub status: u16,
    /// Direction of the transfer.
    pub direction: i32,
    /// Number of bytes.
    pub len: u32,
    /// The command of a request that the driver made.
    pub cmd: NvmeCommand,
    /// Number of segments.
    pub sg_count: u32,
    /// Number of lists of pages.
    pub page_count: u32,
    /// Where the device finds the first list of pages.
    pub first_dma: u64,
    /// The memory of the request.
    pub mapping_data: Option<MappingData>,
}

impl NvmeRequest {
    /// Records the result and the status of the completed command of the request.
    pub fn record(&mut self, completed: &Completed)
        ensures
            *final(self) == (NvmeRequest {
                result: completed.result,
                status: completed.status,
                ..*old(self)
            }),
    {
        self.result = completed.result;
        self.status = completed.status;
    }

    /// The data of a new request.
    pub fn new() -> (r: Self)
        ensures
            r.result == 0 && r.status == 0 && r.direction == DMA_FROM_DEVICE && r.len == 0,
            r.cmd == (NvmeCommand {
                opcode: 0,
                command_id: 0,
                nsid: 0,
                prp1: 0,
                prp2: 0,
                slba: 0,
                length: 0,
            }),
            r.sg_count == 0 && r.page_count == 0 && r.first_dma == 0 && r.mapping_data is None,
    {
        NvmeRequest {
            result: 0,
            status: 0,
            direction: DMA_FROM_DEVICE,
            len: 0,
            cmd: NvmeCommand {
                opcode: 0,
                command_id: 0,
                nsid: 0,
                prp1: 0,
                prp2: 0,
                slba: 0,
                length: 0,
            },
            sg_count: 0,
            page_count: 0,
            first_dma: 0,
            mapping_data: None,
        }
    }

    /// The lists of pages are those that the request recorded.
    pub open spec fn inv(&self) -> bool {
        self.mapping_data matches Some(mapping) ==> {
            &&& self.page_count <= mapping.prp_data@.len()
            &&& self.page_count == mapping.lists@.len()
            &&& crate::nvme::prp::lists_ok(mapping.lists@)
            &&& forall|i: int|
                0 <= i < self.page_count ==> #[trigger] mapping.lists@[i].page
                    == mapping.prp_data@[i]
        }
    }
}

/// A request of the block layer.
#[derive(Debug, Clone, Copy, PartialEq, Eq, Structural)]
pub struct RequestInfo {
    /// What to do.
    pub command: Command,
    /// Tag of the request.
    pub tag: u32,
    /// First sector.
    pub sector: u64,
    /// Number of bytes.
    pub payload_bytes: u32,
}

/// Number of logical blocks of a request, without the bits that leave a word of 16 bits.
pub open spec fn blocks(info: RequestInfo, ns: NvmeNamespace) -> int {
    (info.payload_bytes >> ns.lba_shift) as int % 0x1_0000
}

/// The command for a read or a write, without its memory.
pub open spec fn transfer_command(info: RequestInfo, ns: NvmeNamespace) -> NvmeCommand {
    NvmeCommand {
        opcode: if info.command == Command::Read {
            NVME_OPCODE_READ
        } else {
            NVME_OPCODE_WRITE
        },
        command_id: info.tag as u16,
        nsid: ns.id,
        prp1: 0,
        prp2: 0,
        slba: info.sector >> (ns.lba_shift - SECTOR_SHIFT) as u32,
        length: (blocks(info, ns) - 1) as u16,
    }
}

/// The command for a flush.
pub open spec fn flush_command(info: RequestInfo, ns: NvmeNamespace) -> NvmeCommand {
    NvmeCommand {
        opcode: crate::nvme::NVME_OPCODE_FLUSH,
        command_id: info.tag as u16,
        nsid: ns.id,
        prp1: 0,
        prp2: 0,
        slba: 0,
        length: 0,
    }
}

/// Builds the command for a read or a write, without its memory.
pub fn build_transfer(info: &RequestInfo, ns: &NvmeNamespace) -> (r: NvmeCommand)
    requires
        SECTOR_SHIFT <= ns.lba_shift < 32,
        blocks(*info, *ns) > 0,
    ensures
        r == transfer_command(*info, *ns),
{
    let opcode: u8 = if info.command == Command::Read {
        NVME_OPCODE_READ
    } else {
        NVME_OPCODE_WRITE
    };
    let count: u32 = info.payload_bytes >> ns.lba_shift;
    assert(count as u16 == count % 0x1_0000) by (bit_vector);
    NvmeCommand {
        opcode,
        command_id: info.tag as u16,
        nsid: ns.id,
        prp1: 0,
        prp2: 0,
        slba: info.sector >> (ns.lba_shift - SECTOR_SHIFT),
        length: count as u16 - 1,
    }
}

/// The memory of a request is described in a command.
pub open spec fn memory_described(
    pool: (DmaPool, DmaPool),
    segments: DmaSegments,
    cmd: NvmeCommand,
    full: NvmeCommand,
    max_pages: int,
    length: int,
    rq: NvmeRequest,
) -> bool {
    let all = segments.segments@;
    let at = segments.position as int;
    let rest = crate::nvme::prp::after_first(all[at].address, length);
    let addr = crate::nvme::prp::second_page(all, at).1;
    let plan = crate::nvme::prp::list_walk(all, at, length);
    &&& rq.inv()
    &&& full == (NvmeCommand { prp1: all[at].address, prp2: full.prp2, ..cmd })
    &&& rq.first_dma == full.prp2
    &&& rq.mapping_data matches Some(mapping)
    &&& mapping.io_data.segments@ == all
    &&& mapping.prp_data@.len() == max_pages
    &&& if rest <= crate::nvme::prp::NVME_CTRL_PAGE_SIZE {
        &&& rq.page_count == 0
        &&& pool.1 == pool.0
        &&& full.prp2 == (if rest == 0 {
            cmd.prp2
        } else {
            addr as u64
        })
    } else {
        let needed = crate::nvme::prp::lists_needed(plan.addrs.len() as int);
        &&& plan.end is Done
        &&& rq.page_count == needed <= pool.0.lists@.len()
        &&& crate::nvme::prp::chained(mapping.lists@, plan.addrs)
        &&& crate::nvme::prp::handles(mapping.lists@) == crate::nvme::prp::handed_out(
            pool.0.lists@,
            needed,
        )
        &&& full.prp2 == mapping.lists@[0].dma
        &&& pool.1.lists@ == pool.0.lists@.take(pool.0.lists@.len() - needed)
        &&& pool.1.freed@ == pool.0.freed@
    }
}

/// The memory of a request can be described with the lists of a pool.
pub open spec fn can_describe(pool: DmaPool, segments: DmaSegments, length: int) -> bool {
    let all = segments.segments@;
    let at = segments.position as int;
    crate::nvme::prp::needs_list(all, at, length) ==> {
        let plan = crate::nvme::prp::list_walk(all, at, length);
        plan.end is Done && crate::nvme::prp::lists_needed(plan.addrs.len() as int)
            <= pool.lists@.len()
    }
}

/// The lists that were allocated for the memory of a request that cannot be described were given
/// back: all that a pool has, where these are too few, else those that were needed.
pub open spec fn given_up(pool: (DmaPool, DmaPool), segments: DmaSegments, length: int) -> bool {
    let plan = crate::nvme::prp::list_walk(segments.segments@, segments.position as int, length);
    let needed = crate::nvme::prp::lists_needed(plan.addrs.len() as int);
    let size = pool.0.lists@.len() as int;
    let taken = if needed > size {
        size
    } else {
        needed
    };
    &&& pool.1.lists@ == pool.0.lists@.take(size - taken)
    &&& pool.1.freed@ == pool.0.freed@ + crate::nvme::prp::handed_out(pool.0.lists@, taken)
}

/// A request can be handed to the driver.
pub open spec fn queueable(
    info: RequestInfo,
    ns: NvmeNamespace,
    mapped: Result<DmaSegments>,
    pool: DmaPool,
    max_pages: int,
) -> bool {
    info.command == Command::Read || info.command == Command::Write ==> {
        &&& SECTOR_SHIFT <= ns.lba_shift < 32
        &&& blocks(info, ns) > 0
        &&& mapped matches Ok(segments) ==> {
            let all = segments.segments@;
            let at = segments.position as int;
            let length = info.payload_bytes as int;
            &&& segments.inv()
            &&& crate::nvme::prp::long_enough(all, at, length)
            &&& crate::nvme::prp::needs_list(all, at, length) ==> {
                let plan = crate::nvme::prp::list_walk(all, at, length);
                crate::nvme::prp::lists_needed(plan.addrs.len() as int) <= max_pages
                    || pool.lists@.len() <= max_pages
            }
        }
    }
}

/// Hands a request to the controller: requests that the driver made carry their command, flushes,
/// reads and writes get one. The host maps the memory of a read or a write (`mapped`).
pub fn queue_rq(
    queue: &mut NvmeQueue,
    data: &mut NvmeData,
    pool: &mut DmaPool,
    ns: &NvmeNamespace,
    info: &RequestInfo,
    rq: &mut NvmeRequest,
    mapped: Result<DmaSegments>,
    max_pages: usize,
    is_last: bool,
) -> (r: BlkResult<Option<Doorbell>>)
    requires
        old(queue)@.inv(),
        old(queue)@.has_copies(old(data).doorbells(), 0),
        old(pool).inv(),
        queueable(*info, *ns, mapped, *old(pool), max_pages as int),
    ensures
        final(queue)@.inv(),
        final(pool).inv(),
        final(data).db_stride == old(data).db_stride,
        r matches Err(e) ==> {
            &&& e.status() == BLK_STS_IOERR
            &&& final(queue)@ == old(queue)@
            &&& final(data).doorbells() == old(data).doorbells()
            &&& *final(rq) == *old(rq)
        },
        match info.command {
            Command::DriverIn | Command::DriverOut => {
                &&& *final(rq) == *old(rq)
                &&& *final(pool) == *old(pool)
                &&& r matches Ok(doorbell)
                &&& submitted(
                    (*old(queue), *final(queue)),
                    (*old(data), *final(data)),
                    old(rq).cmd,
                    is_last,
                    doorbell,
                )
            },
            Command::Flush => {
                &&& *final(rq) == *old(rq)
                &&& *final(pool) == *old(pool)
                &&& r matches Ok(doorbell)
                &&& submitted(
                    (*old(queue), *final(queue)),
                    (*old(data), *final(data)),
                    flush_command(*info, *ns),
                    is_last,
                    doorbell,
                )
            },
            Command::Read | Command::Write => {
                &&& r is Ok <==> (mapped matches Ok(segments) && can_describe(
                    *old(pool),
                    segments,
                    info.payload_bytes as int,
                ))
                &&& r matches Ok(doorbell) ==> exists|full: NvmeCommand|
                    {
                        &&& memory_described(
                            (*old(pool), *final(pool)),
                            mapped->Ok_0,
                            transfer_command(*info, *ns),
                            full,
                            max_pages as int,
                            info.payload_bytes as int,
                            *final(rq),
                        )
                        &&& #[trigger] submitted(
                            (*old(queue), *final(queue)),
                            (*old(data), *final(data)),
                            full,
                            is_last,
                            doorbell,
                        )
                    }
                &&& r is Ok ==> *final(rq) == (NvmeRequest {
                    page_count: final(rq).page_count,
                    first_dma: final(rq).first_dma,
                    mapping_data: final(rq).mapping_data,
                    ..*old(rq)
                })
                &&& r is Err ==> match mapped {
                    Ok(segments) => given_up(
                        (*old(pool), *final(pool)),
                        segments,
                        info.payload_bytes as int,
                    ),
                    Err(_) => *final(pool) == *old(pool),
                }
            },
            _ => r is Err && *final(pool) == *old(pool),
        },
{
    match info.command {
        Command::DriverIn | Command::DriverOut => {
            let cmd = rq.cmd;
            let doorbell = queue.submit_command(data, &cmd, is_last);
            Ok(doorbell)
        },
        Command::Flush => {
            let mut cmd = NvmeCommand::new_flush(ns.id);
            cmd.command_id = info.tag as u16;
            let doorbell = queue.submit_command(data, &cmd, is_last);
            Ok(doorbell)
        },
        Command::Read | Command::Write => {
            let mut cmd = build_transfer(info, ns);
            let mut segments = match mapped {
                Ok(segments) => segments,
                Err(_) => {
                    return Err(BlkError::from_blk_status(BLK_STS_IOERR));
                },
            };
            let mut prp_data: Vec<usize> = Vec::new();
            let mut i: usize = 0;
            while i < max_pages
                invariant
                    i <= max_pages,
                    prp_data@.len() == i,
                decreases max_pages - i,
            {
                prp_data.push(0);
                i += 1;
            }
            let length: u32 = info.payload_bytes;
            let lists = match setup_prps(pool, &mut cmd, &mut segments, &mut prp_data, length) {
                Ok(lists) => lists,
                Err(_) => {
                    assert(pool.lists@ =~= old(pool).lists@.take(pool.lists@.len() as int));
                    return Err(BlkError::from_blk_status(BLK_STS_IOERR));
                },
            };
            proof {
                if lists@.len() > 0 {
                    lemma_few_lists(mapped->Ok_0, length);
                }
            }
            rq.page_count = lists.len() as u32;
            rq.first_dma = cmd.prp2;
            rq.mapping_data = Some(MappingData { io_data: segments, prp_data, lists });
            let doorbell = queue.submit_command(data, &cmd, is_last);
            assert(memory_described(
                (*old(pool), *pool),
                mapped->Ok_0,
                transfer_command(*info, *ns),
                cmd,
                max_pages as int,
                info.payload_bytes as int,
                *rq,
            ));
            assert(submitted((*old(queue), *queue), (*old(data), *data), cmd, is_last, doorbell));
            Ok(doorbell)
        },
        _ => Err(BlkError::from_blk_status(BLK_STS_IOERR)),
    }
}

/// A command was submitted.
pub open spec fn submitted(
    queue: (NvmeQueue, NvmeQueue),
    data: (NvmeData, NvmeData),
    cmd: NvmeCommand,
    is_last: bool,
    doorbell: Option<Doorbell>,
) -> bool {
    let with = queue.0@.with_command(cmd);
    &&& queue.1@ == with.rung(is_last)
    &&& (data.1.doorbells(), doorbell) == with.sq_posted(data.0.doorbells(), is_last)
}

/// The number of lists of a request fits in a word of 32 bits.
proof fn lemma_few_lists(segments: DmaSegments, length: u32)
    ensures
        ({
            let plan = crate::nvme::prp::list_walk(
                segments.segments@,
                segments.position as int,
                length as int,
            );
            crate::nvme::prp::lists_needed(plan.addrs.len() as int) <= u32::MAX
        }),
{
    let all = segments.segments@;
    let at = segments.position as int;
    let (next, addr, len) = crate::nvme::prp::second_page(all, at);
    let rest = crate::nvme::prp::after_first(all[at].address, length as int);
    lemma_few_addresses(all, next, addr, len, rest);
}

proof fn lemma_few_addresses(
    segments: Seq<crate::nvme::prp::DmaSegment>,
    position: int,
    addr: int,
    len: int,
    length: int,
)
    ensures
        crate::nvme::prp::walk(segments, position, addr, len, length).addrs.len() <= (if length
            <= 0 {
            1
        } else {
            1 + length / 4096
        }),
    decreases length,
{
    if length <= 4096 {
    } else if len > 4096 {
        lemma_few_addresses(segments, position, addr + 4096, len - 4096, length - 4096);
    } else if len == 4096 && position + 1 < segments.len() {
        let next = segments[position + 1];
        lemma_few_addresses(
            segments,
            position + 1,
            next.address as int,
            next.length as int,
            length - 4096,
        );
    }
}

/// The lists of pages of a request were given back.
pub open spec fn released(rq: NvmeRequest, pool: (DmaPool, DmaPool)) -> bool {
    match rq.mapping_data {
        Some(mapping) => {
            &&& pool.1.lists == pool.0.lists
            &&& pool.1.freed@ == pool.0.freed@ + crate::nvme::prp::followed(
                mapping.prp_data@,
                rq.first_dma,
                mapping.lists@,
                rq.page_count as int,
            )
        },
        None => pool.1 == pool.0,
    }
}

/// Gives the memory of a request back, where it has any.
pub fn batch_complete(rq: &mut NvmeRequest, pool: &mut DmaPool)
    requires
        old(rq).inv(),
    ensures
        *final(rq) == (NvmeRequest { mapping_data: None, ..*old(rq) }),
        released(*old(rq), (*old(pool), *final(pool))),
{
    let mapping_data = rq.mapping_data.take();
    if let Some(mapping) = mapping_data {
        free_prps(
            rq.page_count as usize,
            &mapping.prp_data,
            rq.first_dma,
            &mapping.lists,
            pool,
        );
    }
}

/// Completes a request and returns the status with which it ends. Requests without memory of the
/// block layer always succeed.
pub fn complete(command: Command, rq: &mut NvmeRequest, pool: &mut DmaPool) -> (r: u8)
    requires
        old(rq).inv(),
    ensures
        if command == Command::DriverIn || command == Command::DriverOut || command
            == Command::Flush {
            r == BLK_STS_OK && *final(rq) == *old(rq) && *final(pool) == *old(pool)
        } else {
            &&& r == (if old(rq).status != 0 {
                BLK_STS_IOERR
            } else {
                BLK_STS_OK
            })
            &&& *final(rq) == (NvmeRequest { mapping_data: None, ..*old(rq) })
            &&& released(*old(rq), (*old(pool), *final(pool)))
        },
{
    match command {
        Command::DriverIn | Command::DriverOut | Command::Flush => {
            return BLK_STS_OK;
        },
        _ => {},
    }
    batch_complete(rq, pool);
    if rq.status != 0 {
        return BlkError::from_blk_status(BLK_STS_IOERR).to_blk_status();
    }
    BLK_STS_OK
}

/// Completing a request gives back exactly the lists that were allocated when it was queued.
pub proof fn lemma_lists_are_given_back(
    segments: DmaSegments,
    cmd: NvmeCommand,
    full: NvmeCommand,
    max_pages: int,
    length: int,
    rq: NvmeRequest,
    before: DmaPool,
    queued: DmaPool,
    completed: DmaPool,
)
    requires
        memory_described((before, queued), segments, cmd, full, max_pages, length, rq),
        released(rq, (queued, completed)),
    ensures
        completed.freed@ == before.freed@ + crate::nvme::prp::handed_out(
            before.lists@,
            rq.page_count as int,
        ),
        completed.lists@ == before.lists@.take(before.lists@.len() - rq.page_count),
{
    let mapping = rq.mapping_data->0;
    if rq.page_count > 0 {
        let plan = crate::nvme::prp::list_walk(
            segments.segments@,
            segments.position as int,
            length,
        );
        crate::nvme::prp::lemma_free_returns(mapping.lists@, plan.addrs, mapping.prp_data@);
    } else {
        assert(completed.freed@ =~= before.freed@);
        assert(crate::nvme::prp::handed_out(before.lists@, 0) =~= Seq::empty());
    }
}

/// How processors are assigned to queues.
#[derive(Debug, Clone, Copy, PartialEq, Eq, Structural)]
pub enum Assignment {
    /// No processor is assigned.
    Unassigned,
    /// By the interrupts of the device, from an interrupt on.
    ByInterrupt(u32),
    /// By the block layer.
    Spread,
}

/// How queues of one type are laid out.
#[derive(Debug, Clone, Copy, PartialEq, Eq, Structural)]
pub struct IoQueueMap {
    /// Number of queues.
    pub nr_queues: u32,
    /// Number of the first queue.
    pub queue_offset: u32,
    /// How processors are assigned.
    pub assignment: Assignment,
}

/// Number of queues of a type.
pub open spec fn io_queues(kind: int, irq_queues: u32, poll_queues: u32) -> u32 {
    if kind == HCTX_TYPE_DEFAULT {
        irq_queues
    } else if kind == HCTX_TYPE_POLL {
        poll_queues
    } else {
        0
    }
}

/// Number of queues of the types before a type.
pub open spec fn io_queues_before(kind: int, irq_queues: u32, poll_queues: u32) -> int
    decreases kind,
{
    if kind <= 0 {
        0
    } else {
        io_queues_before(kind - 1, irq_queues, poll_queues) + io_queues(
            kind - 1,
            irq_queues,
            poll_queues,
        )
    }
}

/// The layout of the queues of a type. Interrupt number zero is that of the administration queue.
pub open spec fn io_map(map: IoQueueMap, kind: int, irq_queues: u32, poll_queues: u32) -> IoQueueMap {
    let count = io_queues(kind, irq_queues, poll_queues);
    let offset = io_queues_before(kind, irq_queues, poll_queues);
    if count == 0 {
        IoQueueMap { nr_queues: 0, ..map }
    } else {
        IoQueueMap {
            nr_queues: count,
            queue_offset: offset as u32,
            assignment: if kind != HCTX_TYPE_POLL {
                Assignment::ByInterrupt((offset + 1) as u32)
            } else {
                Assignment::Spread
            },
        }
    }
}

/// Lays out the queues, by type.
pub fn map_queues(maps: &mut Vec<IoQueueMap>, irq_queue_count: u32, poll_queue_count: u32)
    requires
        old(maps)@.len() <= 3,
        irq_queue_count + poll_queue_count < u32::MAX,
    ensures
        final(maps)@ == Seq::new(
            old(maps)@.len(),
            |i: int| io_map(old(maps)@[i], i, irq_queue_count, poll_queue_count),
        ),
{
    let ghost before = maps@;
    let num_maps: u32 = maps.len() as u32;
    let mut queue_offset: u32 = 0;
    let mut irq_offset: u32 = 1;
    let mut i: u32 = 0;
    proof {
        reveal_with_fuel(io_queues_before, 4);
    }
    while i < num_maps
        invariant
            i <= num_maps == maps@.len() == before.len() <= 3,
            irq_queue_count + poll_queue_count < u32::MAX,
            queue_offset == io_queues_before(i as int, irq_queue_count, poll_queue_count),
            irq_offset == queue_offset + 1,
            queue_offset == (if i == 0 {
                0
            } else if i <= 2 {
                irq_queue_count as int
            } else {
                irq_queue_count + poll_queue_count
            }),
            forall|j: int|
                0 <= j < i ==> #[trigger] maps@[j] == io_map(
                    before[j],
                    j,
                    irq_queue_count,
                    poll_queue_count,
                ),
            forall|j: int| i <= j < before.len() ==> #[trigger] maps@[j] == before[j],
        decreases num_maps - i,
    {
        let queue_count: u32 = match i {
            HCTX_TYPE_DEFAULT => irq_queue_count,
            HCTX_TYPE_POLL => poll_queue_count,
            _ => 0,
        };
        let old_map = maps[i as usize];
        if queue_count == 0 {
            maps.set(i as usize, IoQueueMap { nr_queues: 0, ..old_map });
        } else {
            let assignment = if i != HCTX_TYPE_POLL && irq_offset != 0 {
                Assignment::ByInterrupt(irq_offset)
            } else {
                Assignment::Spread
            };
            maps.set(
                i as usize,
                IoQueueMap { nr_queues: queue_count, queue_offset, assignment },
            );
            queue_offset += queue_count;
            irq_offset += queue_count;
        }
        i += 1;
    }
    assert(maps@ =~= Seq::new(
        before.len(),
        |j: int| io_map(before[j], j, irq_queue_count, poll_queue_count),
    ));
}

/// The queue that serves the administration context: an error where there is none yet.
pub fn admin_init_hctx(admin: Option<usize>) -> (r: Result<usize>)
    ensures
        r == (match admin {
            Some(queue) => Ok::<usize, Errno>(queue),
            None => Err(Errno(EINVAL)),
        }),
{
    match admin {
        Some(queue) => Ok(queue),
        None => Err(Errno(EINVAL)),
    }
}

/// The queue that serves an I/O context.
pub fn io_init_hctx(io: &Vec<usize>, hctx_idx: u32) -> (r: Result<usize>)
    requires
        hctx_idx < io@.len(),
    ensures
        r == Ok::<usize, Errno>(io@[hctx_idx as int]),
{
    Ok(io[hctx_idx as usize])
}

} // verus!
