//! Laws on the NVMe driver.

use crate::block::error::BlkResult;
use crate::block::mq::command::Command;
use crate::block::mq::tag_set::{TagSet, TaggedRequest};
use crate::error::{Errno, Result};
use crate::nvme::mq::{
    Assignment, IoQueueMap, NvmeNamespace, NvmeRequest, RequestInfo,
};
use crate::nvme::prp::{DmaPool, DmaSegments, PrpList};
use crate::nvme::queue::{
    Completed, Completions, Delivery, Doorbell, NvmeData, NvmeQueue, QueueState,
};
use crate::nvme::{NvmeCommand, NvmeCompletion};
use vstd::arithmetic::power2::pow2;
use vstd::prelude::*;

verus! {

/// A read or a write is for at least one logical block, the number of which is a word of 16 bits.
pub open spec fn transferable(info: RequestInfo, ns: NvmeNamespace) -> bool {
    &&& info.command == Command::Read || info.command == Command::Write
    &&& 9 <= ns.lba_shift < 32
    &&& 0 < info.payload_bytes as int / pow2(ns.lba_shift as nat) as int <= 0xffff
}

/// A command is that of a read or a write: it starts at the logical block that holds the sector,
/// which is the one at the same byte of the namespace where the sector starts a block, and spans as
/// many logical blocks as the request has whole ones, whatever the direction.
pub open spec fn transfers(info: RequestInfo, ns: NvmeNamespace, cmd: NvmeCommand) -> bool {
    let sectors = pow2((ns.lba_shift - 9) as nat) as int;
    let bytes = pow2(ns.lba_shift as nat) as int;
    &&& cmd.opcode == (if info.command == Command::Read {
        2int
    } else {
        1
    })
    &&& cmd.nsid == ns.id
    &&& cmd.command_id == info.tag as int % 0x1_0000
    &&& cmd.slba * sectors <= info.sector < (cmd.slba + 1) * sectors
    &&& (info.sector * 512) % bytes == 0 ==> cmd.slba * bytes == info.sector * 512
    &&& cmd.length + 1 == info.payload_bytes as int / bytes
    &&& info.payload_bytes as int % bytes == 0 ==> (cmd.length + 1) * bytes == info.payload_bytes
}

proof fn lemma_transfer_command(info: RequestInfo, ns: NvmeNamespace)
    requires
        transferable(info, ns),
    ensures
        transfers(info, ns, crate::nvme::mq::transfer_command(info, ns)),
        crate::nvme::mq::blocks(info, ns) > 0,
{
    let cmd = crate::nvme::mq::transfer_command(info, ns);
    let shift = (ns.lba_shift - 9) as u32;
    let sectors = pow2(shift as nat) as int;
    let bytes = pow2(ns.lba_shift as nat) as int;
    vstd::arithmetic::power2::lemma_pow2_pos(shift as nat);
    vstd::arithmetic::power2::lemma_pow2_pos(ns.lba_shift as nat);
    vstd::arithmetic::power2::lemma_pow2_adds(shift as nat, 9);
    vstd::arithmetic::power2::lemma2_to64();
    assert(bytes == sectors * 512);
    vstd::bits::lemma_u64_shr_is_div(info.sector, shift as u64);
    assert(cmd.slba == info.sector as int / sectors);
    vstd::arithmetic::div_mod::lemma_fundamental_div_mod(info.sector as int, sectors);
    vstd::arithmetic::div_mod::lemma_mod_bound(info.sector as int, sectors);
    let slba = cmd.slba as int;
    assert(slba * sectors == sectors * slba && (slba + 1) * sectors == sectors * slba + sectors)
        by (nonlinear_arith);
    assert(slba * bytes == slba * sectors * 512) by (nonlinear_arith)
        requires
            bytes == sectors * 512,
    ;
    if (info.sector * 512) % bytes == 0 {
        let q = (info.sector * 512) / bytes;
        vstd::arithmetic::div_mod::lemma_fundamental_div_mod(info.sector * 512, bytes);
        assert(info.sector * 512 == bytes * q);
        assert(info.sector == sectors * q) by (nonlinear_arith)
            requires
                info.sector * 512 == bytes * q,
                bytes == sectors * 512,
        ;
        vstd::arithmetic::div_mod::lemma_div_multiples_vanish(q, sectors);
    }
    let payload = info.payload_bytes;
    vstd::bits::lemma_u32_shr_is_div(payload, ns.lba_shift);
    let count = payload as int / bytes;
    vstd::arithmetic::div_mod::lemma_fundamental_div_mod(payload as int, bytes);
    assert(count * bytes == bytes * count) by (nonlinear_arith);
    let tag = info.tag;
    assert(tag as u16 == tag % 0x1_0000) by (bit_vector);
}

/// The command of a read or a write names the logical blocks that hold its sectors.
pub proof fn lemma_build_transfer(info: RequestInfo, ns: NvmeNamespace, r: NvmeCommand)
    requires
        transferable(info, ns),
        call_ensures(crate::nvme::mq::build_transfer, (&info, &ns), r),
    ensures
        transfers(info, ns, r),
{
    lemma_transfer_command(info, ns);
}

/// A read and a write of the same sectors of a namespace name the same logical blocks.
pub proof fn lemma_directions_agree(
    read: RequestInfo,
    write: RequestInfo,
    ns: NvmeNamespace,
    a: NvmeCommand,
    b: NvmeCommand,
)
    requires
        read.command == Command::Read,
        write.command == Command::Write,
        read.sector == write.sector,
        read.payload_bytes == write.payload_bytes,
        transferable(read, ns),
        transferable(write, ns),
        call_ensures(crate::nvme::mq::build_transfer, (&read, &ns), a),
        call_ensures(crate::nvme::mq::build_transfer, (&write, &ns), b),
    ensures
        a.slba == b.slba,
        a.length == b.length,
        a.nsid == b.nsid,
        a.opcode != b.opcode,
{
    lemma_transfer_command(read, ns);
    lemma_transfer_command(write, ns);
}

/// Sectors that follow each other are in logical blocks that follow each other: the command for what
/// comes behind a transfer of whole blocks starts at the block behind its last one.
pub proof fn lemma_transfers_adjoin(
    first: RequestInfo,
    second: RequestInfo,
    ns: NvmeNamespace,
    a: NvmeCommand,
    b: NvmeCommand,
)
    requires
        transferable(first, ns),
        transferable(second, ns),
        (first.sector * 512) % (pow2(ns.lba_shift as nat) as int) == 0,
        first.payload_bytes as int % (pow2(ns.lba_shift as nat) as int) == 0,
        second.sector * 512 == first.sector * 512 + first.payload_bytes,
        call_ensures(crate::nvme::mq::build_transfer, (&first, &ns), a),
        call_ensures(crate::nvme::mq::build_transfer, (&second, &ns), b),
    ensures
        b.slba == a.slba + a.length + 1,
{
    lemma_transfer_command(first, ns);
    lemma_transfer_command(second, ns);
    let bytes = pow2(ns.lba_shift as nat) as int;
    vstd::arithmetic::power2::lemma_pow2_pos(ns.lba_shift as nat);
    let end = a.slba + a.length + 1;
    assert(end * bytes == a.slba * bytes + (a.length + 1) * bytes) by (nonlinear_arith)
        requires
            end == a.slba + a.length + 1,
    ;
    assert(second.sector * 512 == end * bytes);
    assert((second.sector * 512) % bytes == 0) by {
        vstd::arithmetic::div_mod::lemma_mod_multiples_basic(end, bytes);
    }
    let slba = b.slba as int;
    assert(slba == end) by (nonlinear_arith)
        requires
            slba * bytes == end * bytes,
            bytes > 0,
    ;
}

/// A command is in a queue: it took the slot at the tail, the tail moved on by one, around the end
/// of the queue, and no other command was touched.
pub open spec fn command_added(before: QueueState, after: QueueState, cmd: NvmeCommand) -> bool {
    let slot = before.sq_tail as int;
    &&& after.sq.len() == before.sq.len()
    &&& after.sq[slot] == cmd
    &&& forall|i: int| 0 <= i < before.sq.len() && i != slot ==> #[trigger] after.sq[i]
        == before.sq[i]
    &&& after.sq_tail == (slot + 1) % (before.q_depth as int)
    &&& after.cq == before.cq
    &&& after.cq_head == before.cq_head
    &&& after.cq_phase == before.cq_phase
    &&& after.q_depth == before.q_depth
    &&& after.qid == before.qid
    &&& after.db_offset == before.db_offset
    &&& after.sdb_index == before.sdb_index
}

/// The controller learns of the commands: with the last command of a batch its doorbell is written,
/// unless it reads the doorbells from memory and does not wait for a value that was passed. A
/// doorbell is that of the queue, and its value the tail.
pub open spec fn announced(
    before: QueueState,
    data: (NvmeData, NvmeData),
    after: QueueState,
    is_last: bool,
    doorbell: Option<Doorbell>,
) -> bool {
    let told = after.last_sq_tail == after.sq_tail;
    &&& is_last ==> told
    &&& doorbell matches Some(d) ==> told && d.offset == before.db_offset && d.value
        == after.sq_tail
    &&& is_last && (before.qid == 0 || data.0.shadow is None) ==> doorbell is Some
    &&& before.qid == 0 || data.0.shadow is None ==> data.1.doorbells() == data.0.doorbells()
    &&& is_last && before.qid != 0 && data.0.shadow is Some ==> {
        let old_copies = data.0.shadow->0;
        let at = before.sdb_index as int;
        &&& data.1.shadow is Some
        &&& data.1.shadow->0.dbs@ == old_copies.dbs@.update(at, after.sq_tail as u32)
        &&& data.1.shadow->0.eis@ == old_copies.eis@
    }
    &&& !is_last && doorbell is None && before.last_sq_tail != after.last_sq_tail ==> before.qid
        != 0 && data.0.shadow is Some
}

proof fn lemma_added(before: QueueState, cmd: NvmeCommand, is_last: bool)
    requires
        before.inv(),
    ensures
        command_added(before, before.with_command(cmd).rung(is_last), cmd),
{
    let slot = before.sq_tail as int;
    let depth = before.q_depth as int;
    if slot + 1 == depth {
        assert((slot + 1) % depth == 0) by (nonlinear_arith)
            requires
                slot + 1 == depth,
                depth > 0,
        ;
    } else {
        vstd::arithmetic::div_mod::lemma_small_mod((slot + 1) as nat, depth as nat);
    }
}

/// A command that is submitted is in the queue, and the controller learns of it.
pub proof fn lemma_submit(cmd: NvmeCommand, is_last: bool)
    ensures
        forall|queue: &mut NvmeQueue, data: &mut NvmeData, r: Option<Doorbell>|
            #[trigger] call_ensures(
                NvmeQueue::submit_command,
                (queue, data, &cmd, is_last),
                r,
            ) && queue@.inv() ==> {
                &&& command_added(queue@, final(queue)@, cmd)
                &&& announced(queue@, (*data, *final(data)), final(queue)@, is_last, r)
            },
{
    assert forall|queue: &mut NvmeQueue, data: &mut NvmeData, r: Option<Doorbell>|
        #[trigger] call_ensures(NvmeQueue::submit_command, (queue, data, &cmd, is_last), r)
            && queue@.inv() implies {
        &&& command_added(queue@, final(queue)@, cmd)
        &&& announced(queue@, (*data, *final(data)), final(queue)@, is_last, r)
    } by {
        lemma_added(queue@, cmd, is_last);
    }
}

/// The address at which a controller finds byte number `k` of the `length` bytes of a command: in the
/// first page from `prp1` on; behind it in the page `prp2`, where one page is left; else in the pages
/// of the lists, the first of which is at `prp2`.
pub open spec fn controller_address(
    cmd: NvmeCommand,
    lists: Seq<PrpList>,
    length: int,
    k: int,
) -> int {
    let first = 4096 - cmd.prp1 as int % 4096;
    let rest = k - first;
    let pages = (length - first + 4095) / 4096;
    if rest < 0 {
        cmd.prp1 + k
    } else if pages <= 1 {
        cmd.prp2 + rest
    } else {
        crate::nvme::prp::read_chain(lists, 0, pages)[rest / 4096] + rest % 4096
    }
}

/// A controller that starts at the address of a command finds the lists: each one but the last leads
/// to the next with its last entry.
pub open spec fn lists_linked(cmd: NvmeCommand, lists: Seq<PrpList>) -> bool {
    &&& lists.len() > 0 ==> cmd.prp2 == lists[0].dma
    &&& forall|m: int|
        0 <= m < lists.len() - 1 ==> (#[trigger] lists[m]).entries@[511] == lists[m + 1].dma
}

/// A walk that gets to the end of the data has one address for each page.
proof fn lemma_walk_pages(
    segments: Seq<crate::nvme::prp::DmaSegment>,
    position: int,
    addr: int,
    len: int,
    length: int,
)
    requires
        length > 0,
        crate::nvme::prp::walk(segments, position, addr, len, length).end is Done,
    ensures
        crate::nvme::prp::walk(segments, position, addr, len, length).addrs.len() == (length + 4095)
            / 4096,
    decreases length,
{
    if length > 4096 {
        if len > 4096 {
            lemma_walk_pages(segments, position, addr + 4096, len - 4096, length - 4096);
        } else {
            let next = segments[position + 1];
            lemma_walk_pages(
                segments,
                position + 1,
                next.address as int,
                next.length as int,
                length - 4096,
            );
        }
    }
}

/// A controller that follows a command finds the bytes of the request in its memory, one after the
/// other.
pub open spec fn finds_data(
    segments: DmaSegments,
    cmd: NvmeCommand,
    lists: Seq<PrpList>,
    length: int,
) -> bool {
    let all = segments.segments@;
    let at = segments.position as int;
    &&& lists_linked(cmd, lists)
    &&& forall|k: int|
        0 <= k < length ==> #[trigger] controller_address(cmd, lists, length, k)
            == crate::nvme::prp::byte_address(
            all,
            at,
            all[at].address as int,
            all[at].length as int,
            k,
        )
}

/// The memory of a request: its segments meet at the ends of pages, and there are enough of them.
pub open spec fn memory_fits(segments: DmaSegments, length: int) -> bool {
    let all = segments.segments@;
    let at = segments.position as int;
    &&& segments.inv()
    &&& crate::nvme::prp::meet_at_pages(all)
    &&& 0 < length <= crate::nvme::prp::bytes_left(all, at, all[at].length as int)
}

proof fn lemma_finds_data(
    pool: (DmaPool, DmaPool),
    segments: DmaSegments,
    cmd: NvmeCommand,
    full: NvmeCommand,
    max_pages: int,
    length: int,
    rq: NvmeRequest,
)
    requires
        memory_fits(segments, length),
        crate::nvme::mq::memory_described(pool, segments, cmd, full, max_pages, length, rq),
    ensures
        finds_data(segments, full, rq.mapping_data->0.lists@, length),
{
    let all = segments.segments@;
    let at = segments.position as int;
    let lists = rq.mapping_data->0.lists@;
    let first = crate::nvme::prp::to_page_end(all[at].address);
    let rest = crate::nvme::prp::after_first(all[at].address, length);
    let plan = crate::nvme::prp::list_walk(all, at, length);
    if rest > 4096 {
        let (next, addr, len) = crate::nvme::prp::second_page(all, at);
        lemma_walk_pages(all, next, addr, len, rest);
        crate::nvme::prp::lemma_read_chain(lists, plan.addrs);
    }
    assert forall|k: int| 0 <= k < length implies #[trigger] controller_address(
        full,
        lists,
        length,
        k,
    ) == crate::nvme::prp::byte_address(
        all,
        at,
        all[at].address as int,
        all[at].length as int,
        k,
    ) by {
        crate::nvme::prp::lemma_command_describes_data(all, at, length, k);
        if k >= first && rest <= 4096 {
            let (next, addr, len) = crate::nvme::prp::second_page(all, at);
            assert(0 <= addr <= u64::MAX) by {
                assert(all[at].address + all[at].length <= u64::MAX);
            }
        }
    }
}

/// What handing a request to the controller does.
pub open spec fn queued_rightly(
    queue: (NvmeQueue, NvmeQueue),
    data: (NvmeData, NvmeData),
    pool: (DmaPool, DmaPool),
    rq: (NvmeRequest, NvmeRequest),
    ns: NvmeNamespace,
    info: RequestInfo,
    mapped: Result<DmaSegments>,
    is_last: bool,
    r: BlkResult<Option<Doorbell>>,
) -> bool {
    let slot = queue.0.sq_tail as int;
    let cmd = queue.1@.sq[slot];
    &&& r is Err ==> queue.1@ == queue.0@ && rq.1 == rq.0 && data.1.doorbells()
        == data.0.doorbells()
    &&& r matches Ok(doorbell) ==> command_added(queue.0@, queue.1@, cmd) && announced(
        queue.0@,
        data,
        queue.1@,
        is_last,
        doorbell,
    )
    &&& match info.command {
        Command::DriverIn | Command::DriverOut => r is Ok && cmd == rq.0.cmd && rq.1 == rq.0,
        Command::Flush => r is Ok && rq.1 == rq.0 && cmd.opcode == 0 && cmd.nsid == ns.id
            && cmd.command_id == info.tag as int % 0x1_0000,
        Command::Read | Command::Write => {
            &&& mapped is Err ==> r is Err
            &&& mapped is Ok && memory_fits(mapped->Ok_0, info.payload_bytes as int)
                && info.payload_bytes <= pool.0.lists@.len() * 511 * 4096 ==> r is Ok
            &&& r is Ok ==> transfers(info, ns, cmd)
            &&& r is Ok ==> rq.1.inv() && pool.1.lists@.len() + rq.1.page_count
                == pool.0.lists@.len() && pool.1.freed@ == pool.0.freed@
            &&& r is Err ==> pool.1.lists@.len() + pool.1.freed@.len() == pool.0.lists@.len()
                + pool.0.freed@.len()
            &&& r is Ok && memory_fits(mapped->Ok_0, info.payload_bytes as int) ==> {
                &&& rq.1.mapping_data is Some
                &&& finds_data(
                    mapped->Ok_0,
                    cmd,
                    rq.1.mapping_data->0.lists@,
                    info.payload_bytes as int,
                )
            }
        },
        _ => r is Err,
    }
    &&& info.command != Command::Read && info.command != Command::Write ==> pool.1 == pool.0
}

/// The lists of a pool suffice where they have an entry for each page of the memory.
proof fn lemma_lists_suffice(pool: DmaPool, segments: DmaSegments, length: int)
    requires
        memory_fits(segments, length),
        length <= pool.lists@.len() * 511 * 4096,
    ensures
        crate::nvme::mq::can_describe(pool, segments, length),
{
    let all = segments.segments@;
    let at = segments.position as int;
    crate::nvme::prp::lemma_command_describes_data(all, at, length, 0);
    let rest = crate::nvme::prp::after_first(all[at].address, length);
    if rest > 4096 {
        let (next, addr, len) = crate::nvme::prp::second_page(all, at);
        lemma_walk_pages(all, next, addr, len, rest);
    }
}

/// The lists that are not handed out are given back.
proof fn lemma_given_up(pool: (DmaPool, DmaPool), segments: DmaSegments, length: int)
    requires
        crate::nvme::mq::given_up(pool, segments, length),
    ensures
        pool.1.lists@.len() + pool.1.freed@.len() == pool.0.lists@.len() + pool.0.freed@.len(),
{
    let plan = crate::nvme::prp::list_walk(segments.segments@, segments.position as int, length);
    assert(crate::nvme::prp::lists_needed(plan.addrs.len() as int) >= 0);
}

/// A request is handed to the controller as one command in the next slot of the queue: a read or a
/// write names the logical blocks of its sectors and the memory of the request, a flush the
/// namespace, and a request that the driver made its own command. Nothing changes where it fails.
pub proof fn lemma_queue_rq(
    ns: NvmeNamespace,
    info: RequestInfo,
    mapped: Result<DmaSegments>,
    max_pages: usize,
    is_last: bool,
)
    ensures
        forall|
            queue: &mut NvmeQueue,
            data: &mut NvmeData,
            pool: &mut DmaPool,
            rq: &mut NvmeRequest,
            r: BlkResult<Option<Doorbell>>,
        |
            #[trigger] call_ensures(
                crate::nvme::mq::queue_rq,
                (queue, data, pool, &ns, &info, rq, mapped, max_pages, is_last),
                r,
            ) && queue@.inv() && (info.command == Command::Read || info.command == Command::Write
                ==> transferable(info, ns)) ==> queued_rightly(
                (*queue, *final(queue)),
                (*data, *final(data)),
                (*pool, *final(pool)),
                (*rq, *final(rq)),
                ns,
                info,
                mapped,
                is_last,
                r,
            ),
{
    assert forall|
        queue: &mut NvmeQueue,
        data: &mut NvmeData,
        pool: &mut DmaPool,
        rq: &mut NvmeRequest,
        r: BlkResult<Option<Doorbell>>,
    |
        #[trigger] call_ensures(
            crate::nvme::mq::queue_rq,
            (queue, data, pool, &ns, &info, rq, mapped, max_pages, is_last),
            r,
        ) && queue@.inv() && (info.command == Command::Read || info.command == Command::Write
            ==> transferable(info, ns)) implies queued_rightly(
        (*queue, *final(queue)),
        (*data, *final(data)),
        (*pool, *final(pool)),
        (*rq, *final(rq)),
        ns,
        info,
        mapped,
        is_last,
        r,
    ) by {
        let tag = info.tag;
        assert(tag as u16 == tag % 0x1_0000) by (bit_vector);
        if mapped is Ok && memory_fits(mapped->Ok_0, info.payload_bytes as int)
            && info.payload_bytes <= pool.lists@.len() * 511 * 4096 {
            lemma_lists_suffice(*pool, mapped->Ok_0, info.payload_bytes as int);
        }
        if (info.command == Command::Read || info.command == Command::Write) && r is Err && mapped
            is Ok {
            lemma_given_up((*pool, *final(pool)), mapped->Ok_0, info.payload_bytes as int);
        }
        if let Ok(doorbell) = r {
            let cmd = match info.command {
                Command::DriverIn | Command::DriverOut => rq.cmd,
                Command::Flush => crate::nvme::mq::flush_command(info, ns),
                _ => choose|full: NvmeCommand|
                    {
                        &&& crate::nvme::mq::memory_described(
                            (*pool, *final(pool)),
                            mapped->Ok_0,
                            crate::nvme::mq::transfer_command(info, ns),
                            full,
                            max_pages as int,
                            info.payload_bytes as int,
                            *final(rq),
                        )
                        &&& #[trigger] crate::nvme::mq::submitted(
                            (*queue, *final(queue)),
                            (*data, *final(data)),
                            full,
                            is_last,
                            doorbell,
                        )
                    },
            };
            assert(crate::nvme::mq::submitted(
                (*queue, *final(queue)),
                (*data, *final(data)),
                cmd,
                is_last,
                doorbell,
            ));
            lemma_added(queue@, cmd, is_last);
            if info.command == Command::Read || info.command == Command::Write {
                lemma_transfer_command(info, ns);
                if memory_fits(mapped->Ok_0, info.payload_bytes as int) {
                    lemma_finds_data(
                        (*pool, *final(pool)),
                        mapped->Ok_0,
                        crate::nvme::mq::transfer_command(info, ns),
                        cmd,
                        max_pages as int,
                        info.payload_bytes as int,
                        *final(rq),
                    );
                }
            }
        }
    }
}

/// Completing a read or a write fails exactly if its command did, and gives its memory back: the
/// lists that were taken for it when it was queued, all of them and no others. Any other request
/// succeeds and has nothing to give back.
pub proof fn lemma_complete(command: Command)
    ensures
        forall|rq: &mut NvmeRequest, pool: &mut DmaPool, r: u8|
            #[trigger] call_ensures(crate::nvme::mq::complete, (command, rq, pool), r)
                ==> if command == Command::Read || command == Command::Write {
                &&& (r == 0) == (rq.status == 0)
                &&& r == 0 || r == 10
                &&& final(rq).mapping_data is None
                &&& final(rq).status == rq.status
                &&& final(rq).result == rq.result
                &&& final(pool).lists@ == pool.lists@
                &&& final(pool).freed@.len() == pool.freed@.len() + (if rq.mapping_data is Some {
                    rq.page_count as int
                } else {
                    0
                })
            } else {
                command == Command::Flush || command == Command::DriverIn || command
                    == Command::DriverOut ==> {
                    &&& r == 0
                    &&& *final(rq) == *rq
                    &&& *final(pool) == *pool
                }
            },
{
}

/// What queueing a read or a write takes from a pool, completing it gives back.
pub proof fn lemma_memory_returns(
    command: Command,
    ns: NvmeNamespace,
    info: RequestInfo,
    mapped: Result<DmaSegments>,
    max_pages: usize,
    is_last: bool,
)
    requires
        command == info.command,
        command == Command::Read || command == Command::Write,
    ensures
        forall|
            queue: &mut NvmeQueue,
            data: &mut NvmeData,
            pool: &mut DmaPool,
            rq: &mut NvmeRequest,
            doorbell: Option<Doorbell>,
            done: &mut NvmeRequest,
            returned: &mut DmaPool,
            r: u8,
        |
            #[trigger] call_ensures(
                crate::nvme::mq::queue_rq,
                (queue, data, pool, &ns, &info, rq, mapped, max_pages, is_last),
                Ok(doorbell),
            ) && #[trigger] call_ensures(
                crate::nvme::mq::complete,
                (command, done, returned),
                r,
            ) && *done == *final(rq) && *returned == *final(pool) ==> {
                let taken = final(rq).page_count as int;
                let kept = pool.lists@.len() - taken;
                &&& final(returned).lists@ == pool.lists@.take(kept)
                &&& final(returned).freed@.len() == pool.freed@.len() + taken
                &&& forall|i: int|
                    0 <= i < taken ==> #[trigger] final(returned).freed@[pool.freed@.len() + i] == (
                        pool.lists@[pool.lists@.len() - 1 - i].page,
                        pool.lists@[pool.lists@.len() - 1 - i].dma,
                    )
            },
{
    assert forall|
        queue: &mut NvmeQueue,
        data: &mut NvmeData,
        pool: &mut DmaPool,
        rq: &mut NvmeRequest,
        doorbell: Option<Doorbell>,
        done: &mut NvmeRequest,
        returned: &mut DmaPool,
        r: u8,
    |
        #[trigger] call_ensures(
            crate::nvme::mq::queue_rq,
            (queue, data, pool, &ns, &info, rq, mapped, max_pages, is_last),
            Ok(doorbell),
        ) && #[trigger] call_ensures(crate::nvme::mq::complete, (command, done, returned), r)
            && *done == *final(rq) && *returned == *final(pool) implies {
        let taken = final(rq).page_count as int;
        let kept = pool.lists@.len() - taken;
        &&& final(returned).lists@ == pool.lists@.take(kept)
        &&& final(returned).freed@.len() == pool.freed@.len() + taken
        &&& forall|i: int|
            0 <= i < taken ==> #[trigger] final(returned).freed@[pool.freed@.len() + i] == (
                pool.lists@[pool.lists@.len() - 1 - i].page,
                pool.lists@[pool.lists@.len() - 1 - i].dma,
            )
    } by {
        let full = choose|full: NvmeCommand|
            {
                &&& crate::nvme::mq::memory_described(
                    (*pool, *final(pool)),
                    mapped->Ok_0,
                    crate::nvme::mq::transfer_command(info, ns),
                    full,
                    max_pages as int,
                    info.payload_bytes as int,
                    *final(rq),
                )
                &&& #[trigger] crate::nvme::mq::submitted(
                    (*queue, *final(queue)),
                    (*data, *final(data)),
                    full,
                    is_last,
                    doorbell,
                )
            };
        crate::nvme::mq::lemma_lists_are_given_back(
            mapped->Ok_0,
            crate::nvme::mq::transfer_command(info, ns),
            full,
            max_pages as int,
            info.payload_bytes as int,
            *final(rq),
            *pool,
            *final(pool),
            *final(returned),
        );
    }
}

/// The slot of entry number `i` of a completion queue, counted from its head.
pub open spec fn cq_slot(queue: QueueState, i: int) -> int {
    (queue.cq_head + i) % (queue.q_depth as int)
}

/// The phase that tells that entry number `i`, counted from the head, is new: it changes each time
/// the end of the queue is passed.
pub open spec fn cq_phase(queue: QueueState, i: int) -> int {
    if queue.cq_head + i < queue.q_depth {
        queue.cq_phase as int
    } else {
        1 - queue.cq_phase
    }
}

/// Entry number `i`, counted from the head, is new.
pub open spec fn cq_new(queue: QueueState, i: int) -> bool {
    queue.cq[cq_slot(queue, i)].status as int % 2 == cq_phase(queue, i)
}

proof fn lemma_cq_slot(queue: QueueState, i: int)
    requires
        queue.inv(),
        0 <= i <= queue.q_depth,
    ensures
        queue.entry(i) == queue.cq[cq_slot(queue, i)],
        queue.is_new(i) == cq_new(queue, i),
{
    let depth = queue.q_depth as int;
    let at = queue.cq_head + i;
    if at < depth {
        vstd::arithmetic::div_mod::lemma_small_mod(at as nat, depth as nat);
    } else {
        vstd::arithmetic::div_mod::lemma_fundamental_div_mod_converse(at, depth, 1, at - depth);
    }
}

/// What was taken from a completion queue: the new entries from the head on, in order, each with the
/// tag, the result and the status of its command, up to the first one that is not new; the head and
/// the phase are those of that entry, and the doorbell tells the controller of the head.
pub open spec fn taken_rightly(
    before: QueueState,
    data: (NvmeData, NvmeData),
    after: QueueState,
    r: Completions,
) -> bool {
    let n = r.completed@.len() as int;
    &&& n <= before.q_depth
    &&& forall|i: int|
        #![trigger r.completed@[i]]
        0 <= i < n ==> {
            let entry = before.cq[cq_slot(before, i)];
            &&& cq_new(before, i)
            &&& r.completed@[i].command_id == entry.command_id
            &&& r.completed@[i].result == entry.result
            &&& r.completed@[i].status == entry.status as int / 2
        }
    &&& !cq_new(before, n)
    &&& after.cq_head == cq_slot(before, n)
    &&& after.cq_phase == cq_phase(before, n)
    &&& after.cq == before.cq
    &&& after.sq == before.sq
    &&& after.sq_tail == before.sq_tail
    &&& after.last_sq_tail == before.last_sq_tail
    &&& r.doorbell matches Some(d) ==> n > 0 && d.offset == before.db_offset + data.0.db_stride
        && d.value == after.cq_head
    &&& n > 0 && (before.qid == 0 || data.0.shadow is None) ==> r.doorbell is Some
}

/// The new entries of a completion queue are taken, each of them once: without new entries from the
/// controller there is nothing left to take.
pub proof fn lemma_completions<D, F: Fn(u32, u32) -> Option<TaggedRequest>>(
    tagset: TagSet<D>,
    lookup: F,
)
    ensures
        forall|queue: &mut NvmeQueue, data: &mut NvmeData, r: Completions|
            #[trigger] call_ensures(
                NvmeQueue::process_completions::<D, F>,
                (queue, data, &tagset, &lookup),
                r,
            ) && queue@.inv() && queue.db_offset + data.db_stride <= usize::MAX ==> taken_rightly(
                queue@,
                (*data, *final(data)),
                final(queue)@,
                r,
            ) && !cq_new(final(queue)@, 0),
{
    assert forall|queue: &mut NvmeQueue, data: &mut NvmeData, r: Completions|
        #[trigger] call_ensures(
            NvmeQueue::process_completions::<D, F>,
            (queue, data, &tagset, &lookup),
            r,
        ) && queue@.inv() && queue.db_offset + data.db_stride <= usize::MAX implies taken_rightly(
        queue@,
        (*data, *final(data)),
        final(queue)@,
        r,
    ) && !cq_new(final(queue)@, 0) by {
        let n = r.completed@.len() as int;
        lemma_cq_slot(queue@, n);
        assert forall|i: int|
            #![trigger r.completed@[i]]
            0 <= i < n implies cq_new(queue@, i) && queue@.entry(i) == queue@.cq[cq_slot(
            queue@,
            i,
        )] by {
            lemma_cq_slot(queue@, i);
            assert(queue@.is_new(i));
        }
        lemma_cq_slot(final(queue)@, 0);
        let depth = queue.q_depth as int;
        if queue.cq_head + n < depth {
            vstd::arithmetic::div_mod::lemma_small_mod((queue.cq_head + n) as nat, depth as nat);
        } else {
            vstd::arithmetic::div_mod::lemma_fundamental_div_mod_converse(
                queue.cq_head + n,
                depth,
                1,
                queue.cq_head + n - depth,
            );
        }
    }
}

/// The hardware queue of a tag set that a queue serves: the first queue takes administration
/// commands, whose tag set has one hardware queue, and those behind it serve one each.
pub open spec fn hw_queue(qid: u16) -> u32 {
    if qid <= 1 {
        0
    } else {
        (qid - 1) as u32
    }
}

/// A request is the one with a tag among those of a hardware queue.
pub open spec fn found_by<F: Fn(u32, u32) -> Option<TaggedRequest>>(
    lookup: F,
    queue: u32,
    nr_hw_queues: u32,
    tag: u32,
    request: Option<usize>,
) -> bool {
    match request {
        Some(request) => queue < nr_hw_queues && exists|found: TaggedRequest| #[trigger]
            call_ensures(lookup, (queue, tag), Some(found)) && found.request == request,
        None => queue >= nr_hw_queues || call_ensures(lookup, (queue, tag), None),
    }
}

/// A completed command belongs to the request with its tag among those of the hardware queue that
/// its queue serves.
pub proof fn lemma_completed_requests<D, F: Fn(u32, u32) -> Option<TaggedRequest>>(
    tagset: TagSet<D>,
    lookup: F,
    i: int,
)
    ensures
        forall|queue: &mut NvmeQueue, data: &mut NvmeData, r: Completions|
            #[trigger] call_ensures(
                NvmeQueue::process_completions::<D, F>,
                (queue, data, &tagset, &lookup),
                r,
            ) && 0 <= i < r.completed@.len() ==> found_by(
                lookup,
                hw_queue(queue.qid),
                tagset.nr_hw_queues,
                r.completed@[i].command_id as u32,
                r.completed@[i].request,
            ),
{
    assert forall|queue: &mut NvmeQueue, data: &mut NvmeData, r: Completions|
        #[trigger] call_ensures(
            NvmeQueue::process_completions::<D, F>,
            (queue, data, &tagset, &lookup),
            r,
        ) && 0 <= i < r.completed@.len() implies found_by(
        lookup,
        hw_queue(queue.qid),
        tagset.nr_hw_queues,
        r.completed@[i].command_id as u32,
        r.completed@[i].request,
    ) by {
        let done = r.completed@[i];
        let number = hw_queue(queue.qid);
        assert(number == crate::nvme::queue::tag_queue(queue.qid));
        if number < tagset.nr_hw_queues {
            let found = choose|found: Option<TaggedRequest>| #[trigger]
                call_ensures(lookup, (number, done.command_id as u32), found) && match found {
                    Some(tagged) => done.request == Some(tagged.request),
                    None => done.request is None,
                };
            assert(call_ensures(lookup, (number, done.command_id as u32), found));
            assert(found is None ==> found == None::<TaggedRequest>);
            assert(found is Some ==> found == Some(found->0));
        }
    }
}

/// The doorbell of a queue has to be written exactly where the value that the controller waits for is
/// among those from the old value on and before the new one, around the end of the word.
pub proof fn lemma_need_event(event_idx: u16, new_idx: u16, old: u16, r: bool)
    requires
        call_ensures(NvmeQueue::dbbuf_need_event, (event_idx, new_idx, old), r),
    ensures
        r == exists|k: int|
            0 <= k < (new_idx - old) % 0x1_0000 && event_idx == #[trigger] ((old + k) % 0x1_0000),
{
    crate::nvme::queue::lemma_need_event(event_idx, new_idx, old);
    if r {
        let k = choose|k: int|
            0 <= k < crate::nvme::queue::wrapped(new_idx - old) && event_idx
                == #[trigger] crate::nvme::queue::wrapped(old + k);
        assert(event_idx == (old + k) % 0x1_0000);
    }
    if exists|k: int|
        0 <= k < (new_idx - old) % 0x1_0000 && event_idx == #[trigger] ((old + k) % 0x1_0000) {
        let k = choose|k: int|
            0 <= k < (new_idx - old) % 0x1_0000 && event_idx == #[trigger] ((old + k) % 0x1_0000);
        assert(event_idx == crate::nvme::queue::wrapped(old + k));
    }
}

/// The queues of a controller have doorbells of their own: those of submission and completion queues
/// alternate, a stride apart, behind the registers, and no two of them are at the same place.
pub proof fn lemma_doorbells_apart(
    stride: usize,
    qid: (u16, u16),
    depth: u16,
    polled: bool,
    memory: (Result<Vec<NvmeCompletion>>, Result<Vec<NvmeCommand>>),
    queues: (NvmeQueue, NvmeQueue),
)
    requires
        stride > 0,
        qid.0 < qid.1,
        qid.1 * stride * 2 + 4096 <= usize::MAX,
        memory.0 is Ok,
        memory.1 is Ok,
        call_ensures(
            NvmeQueue::try_new,
            (stride, qid.0, depth, polled, memory.0, memory.1),
            Ok::<NvmeQueue, Errno>(queues.0),
        ),
        call_ensures(
            NvmeQueue::try_new,
            (stride, qid.1, depth, polled, memory.0, memory.1),
            Ok::<NvmeQueue, Errno>(queues.1),
        ),
    ensures
        4096 <= queues.0.db_offset,
        queues.0.db_offset + stride < queues.1.db_offset,
        queues.0.sdb_index * 4 <= queues.0.db_offset - 4096,
{
    assert(qid.0 * stride * 2 + stride * 2 <= qid.1 * stride * 2) by (nonlinear_arith)
        requires
            qid.0 + 1 <= qid.1,
            stride > 0,
    ;
    assert(qid.0 * stride * 2 >= 0) by (nonlinear_arith);
}

/// A new queue is empty: the controller has written no new entry, and the first command goes to the
/// first slot.
pub proof fn lemma_new_queue(
    stride: usize,
    qid: u16,
    depth: u16,
    polled: bool,
    cq: Result<Vec<NvmeCompletion>>,
    sq: Result<Vec<NvmeCommand>>,
    r: Result<NvmeQueue>,
)
    requires
        depth > 0,
        call_ensures(NvmeQueue::try_new, (stride, qid, depth, polled, cq, sq), r),
    ensures
        (r is Ok) == (cq is Ok && sq is Ok),
        cq is Err ==> r->Err_0 == cq->Err_0,
        cq is Ok && sq is Err ==> r->Err_0 == sq->Err_0,
        r matches Ok(queue) ==> {
            &&& queue@.inv()
            &&& forall|i: int| 0 <= i < depth ==> !#[trigger] cq_new(queue@, i)
            &&& queue.sq_tail == 0
            &&& queue.cq_head == 0
            &&& queue.last_sq_tail == queue.sq_tail
            &&& queue.q_depth == depth
            &&& queue.qid == qid
            &&& queue.polled == polled
            &&& !queue.irq
        },
{
    if let Ok(queue) = r {
        assert forall|i: int| 0 <= i < depth implies !#[trigger] cq_new(queue@, i) by {
            vstd::arithmetic::div_mod::lemma_small_mod(i as nat, depth as nat);
        }
    }
}

/// The queues of an I/O tag set are divided among the types: those with interrupts come first and
/// get interrupts from number one on, which the administration queue does not use, polled queues
/// follow and get none, and there are no others.
pub proof fn lemma_map_queues(irq_queues: u32, poll_queues: u32)
    requires
        irq_queues + poll_queues < u32::MAX,
    ensures
        forall|maps: &mut Vec<IoQueueMap>|
            #[trigger] call_ensures(
                crate::nvme::mq::map_queues,
                (maps, irq_queues, poll_queues),
                (),
            ) && maps@.len() == 3 ==> {
                let after = final(maps)@;
                &&& after.len() == 3
                &&& after[0].nr_queues == irq_queues
                &&& irq_queues > 0 ==> after[0].queue_offset == 0 && after[0].assignment
                    == Assignment::ByInterrupt(1)
                &&& after[1].nr_queues == 0
                &&& after[2].nr_queues == poll_queues
                &&& poll_queues > 0 ==> after[2].queue_offset == irq_queues && after[2].assignment
                    == Assignment::Spread
            },
{
    reveal_with_fuel(crate::nvme::mq::io_queues_before, 4);
}

/// A request whose command failed is not taken for one that succeeded: what the command left is
/// recorded in the request, a batch is told of the failure, and completing the request fails.
pub proof fn lemma_failure_is_seen(done: Completed, batch: Option<bool>, command: Command)
    requires
        command == Command::Read || command == Command::Write,
    ensures
        forall|r: Delivery|
            #[trigger] call_ensures(Completed::deliver, (&done, batch), r) ==> match r {
                Delivery::Invalid => done.request is None,
                Delivery::Batched(request, failed) => batch == Some(true) && done.request == Some(
                    request,
                ) && failed == (done.status != 0),
                Delivery::Complete(request) => batch != Some(true) && done.request == Some(
                    request,
                ),
            },
        forall|rq: &mut NvmeRequest, later: &mut NvmeRequest, pool: &mut DmaPool, r: u8|
            #[trigger] call_ensures(NvmeRequest::record, (rq, &done), ())
                && #[trigger] call_ensures(
                crate::nvme::mq::complete,
                (command, later, pool),
                r,
            ) && *later == *final(rq) ==> {
                &&& (r == 0) == (done.status == 0)
                &&& final(rq).result == done.result
                &&& final(rq).mapping_data == rq.mapping_data
            },
{
}

} // verus!
