//! The NVMe driver.

use rblk::block::mq::command::Command;
use rblk::block::mq::tag_set::{Attempt, Flags, TagSet, TaggedRequest};
use rblk::error::{Errno, EINVAL, EIO, ENOMEM};
use rblk::nvme::mq::{
    admin_init_hctx, batch_complete, build_transfer, complete, io_init_hctx, map_queues, queue_rq,
    Assignment, IoQueueMap, NvmeNamespace, NvmeRequest, RequestInfo,
};
use rblk::nvme::prp::{free_prps, setup_prps, DmaPool, DmaSegment, DmaSegments, PrpList};
use rblk::nvme::queue::{Completed, Doorbell, Delivery, IrqReturn, NvmeData, NvmeQueue, ShadowDoorbells};
use rblk::nvme::{NvmeCommand, NvmeCompletion};

fn pool(lists: usize) -> DmaPool {
    DmaPool {
        lists: (0..lists)
            .rev()
            .map(|i| PrpList { page: 100 + i, dma: 0x10_0000 * (i as u64 + 1), entries: vec![0; 512] })
            .collect(),
        freed: vec![],
    }
}

fn segments(parts: &[(u64, u32)]) -> DmaSegments {
    DmaSegments {
        segments: parts.iter().map(|p| DmaSegment { address: p.0, length: p.1 }).collect(),
        position: 0,
    }
}

fn blank() -> NvmeCommand {
    NvmeRequest::new().cmd
}

#[test]
fn short_data_needs_no_list() {
    let mut pool = pool(1);
    let mut cmd = blank();
    let mut pages = vec![0; 4];
    let lists = setup_prps(&mut pool, &mut cmd, &mut segments(&[(0x5200, 512)]), &mut pages, 512);
    assert_eq!(lists.unwrap().len(), 0);
    assert_eq!((cmd.prp1, cmd.prp2), (0x5200, 0));
    let mut two = segments(&[(0x5200, 4096)]);
    assert_eq!(setup_prps(&mut pool, &mut cmd, &mut two, &mut pages, 4096).unwrap().len(), 0);
    assert_eq!((cmd.prp1, cmd.prp2), (0x5200, 0x6000));
    let mut apart = segments(&[(0x5000, 4096), (0x9000, 4096)]);
    assert_eq!(setup_prps(&mut pool, &mut cmd, &mut apart, &mut pages, 8192).unwrap().len(), 0);
    assert_eq!((cmd.prp1, cmd.prp2), (0x5000, 0x9000));
    assert_eq!(apart.position, 1);
    assert_eq!(pool.lists.len(), 1);
}

#[test]
fn long_data_needs_a_list() {
    let mut pool = pool(1);
    let mut cmd = blank();
    let mut pages = vec![0; 4];
    let mut data = segments(&[(0x5000, 8192), (0x9000, 4096), (0x2_0000, 8192)]);
    let lists = setup_prps(&mut pool, &mut cmd, &mut data, &mut pages, 20480).unwrap();
    assert_eq!(lists.len(), 1);
    assert_eq!((cmd.prp1, cmd.prp2), (0x5000, 0x10_0000));
    assert_eq!(lists[0].entries[..4], [0x6000, 0x9000, 0x2_0000, 0x2_1000]);
    assert_eq!(pages, vec![100, 0, 0, 0]);
    free_prps(1, &pages, cmd.prp2, &lists, &mut pool);
    assert_eq!(pool.freed, vec![(100, 0x10_0000)]);
}

fn addresses(lists: &[PrpList], mut n: usize) -> Vec<u64> {
    let mut all = vec![];
    for list in lists {
        if n > 512 {
            all.extend_from_slice(&list.entries[..511]);
            n -= 511;
        } else {
            all.extend_from_slice(&list.entries[..n]);
            break;
        }
    }
    all
}

#[test]
fn lists_are_chained() {
    for (entries, needed) in [(512usize, 1), (513, 2), (1023, 2), (1024, 3)] {
        let mut pool = pool(4);
        let mut cmd = blank();
        let mut pages = vec![0; 4];
        let length = (entries as u32 + 1) * 4096;
        let mut data = segments(&[(0x100_0000, length)]);
        let lists = setup_prps(&mut pool, &mut cmd, &mut data, &mut pages, length).unwrap();
        assert_eq!(lists.len(), needed);
        for i in 1..needed {
            assert_eq!(lists[i - 1].entries[511], lists[i].dma);
        }
        let expected: Vec<u64> = (1..=entries as u64).map(|i| 0x100_0000 + i * 4096).collect();
        assert_eq!(addresses(&lists, entries), expected);
        free_prps(needed, &pages, cmd.prp2, &lists, &mut pool);
        let allocated: Vec<(usize, u64)> = lists.iter().map(|l| (l.page, l.dma)).collect();
        assert_eq!(pool.freed, allocated);
    }
}

#[test]
fn lists_are_given_back_where_data_cannot_be_described() {
    let mut cmd = blank();
    let mut pages = vec![0; 4];
    let mut none = pool(0);
    let mut data = segments(&[(0x100_0000, 3 << 20)]);
    let failed = setup_prps(&mut none, &mut cmd, &mut data, &mut pages, 3 << 20);
    assert_eq!(failed.err(), Some(Errno(ENOMEM)));
    assert_eq!((cmd.prp1, cmd.prp2, pages[0]), (0x100_0000, 0, 0));
    let mut one = pool(1);
    let mut data = segments(&[(0x100_0000, 3 << 20)]);
    let failed = setup_prps(&mut one, &mut cmd, &mut data, &mut pages, 3 << 20);
    assert_eq!(failed.err(), Some(Errno(ENOMEM)));
    assert_eq!(one.freed, vec![(100, 0x10_0000)]);
    assert_eq!((cmd.prp1, cmd.prp2), (0x100_0000, 0x10_0000));
    assert_eq!(pages, vec![100, 0, 0, 0]);
    let mut one = pool(1);
    let mut data = segments(&[(0x5000, 8192), (0x9000, 512), (0xa000, 8192)]);
    let failed = setup_prps(&mut one, &mut cmd, &mut data, &mut pages, 16384);
    assert_eq!(failed.err(), Some(Errno(EIO)));
    assert_eq!(one.freed, vec![(100, 0x10_0000)]);
}

fn queue(qid: u16, depth: u16) -> NvmeQueue {
    let cq = vec![NvmeCompletion { result: 9, command_id: 9, status: 9 }; depth as usize];
    let sq = vec![blank(); depth as usize];
    NvmeQueue::try_new(8, qid, depth, false, Ok(cq), Ok(sq)).ok().unwrap()
}

fn direct() -> NvmeData {
    NvmeData { db_stride: 8, shadow: None }
}

fn shadowed(event: u32) -> NvmeData {
    NvmeData {
        db_stride: 8,
        shadow: Some(ShadowDoorbells { dbs: vec![0; 64], eis: vec![event; 64] }),
    }
}

#[test]
fn queues_are_created() {
    let queue = queue(3, 4);
    assert_eq!((queue.db_offset, queue.sdb_index), (4096 + 48, 12));
    assert_eq!((queue.cq_head, queue.cq_phase, queue.sq_tail), (0, 1, 0));
    assert!(queue.cq.iter().all(|c| *c == NvmeCompletion { result: 0, command_id: 0, status: 0 }));
    let failed = NvmeQueue::try_new(8, 1, 4, false, Err(Errno(ENOMEM)), Err(Errno(EIO)));
    assert_eq!(failed.err(), Some(Errno(ENOMEM)));
    let failed = NvmeQueue::try_new(8, 1, 0, false, Ok(vec![]), Err(Errno(EIO)));
    assert_eq!(failed.err(), Some(Errno(EIO)));
}

#[test]
fn events_are_needed_where_the_index_was_passed() {
    for old in [0u16, 10, 65_530] {
        for step in [0u16, 1, 5, 20] {
            let new = old.wrapping_add(step);
            for event in [0u16, 9, 10, 12, 15, 65_529, 65_530, 65_535] {
                let passed = (0..step).any(|k| old.wrapping_add(k) == event);
                assert_eq!(NvmeQueue::dbbuf_need_event(event, new, old), passed);
            }
        }
    }
}

#[test]
fn commands_are_submitted() {
    let mut queue = queue(1, 3);
    let mut data = direct();
    let cmd = |id| NvmeCommand { command_id: id, ..blank() };
    assert_eq!(queue.submit_command(&mut data, &cmd(1), false), None);
    assert_eq!((queue.sq_tail, queue.last_sq_tail), (1, 0));
    // The queue would be full after one more command.
    let doorbell = queue.submit_command(&mut data, &cmd(2), false);
    assert_eq!(doorbell, Some(Doorbell { offset: 4096 + 16, value: 2 }));
    assert_eq!((queue.sq_tail, queue.last_sq_tail), (2, 2));
    let doorbell = queue.submit_command(&mut data, &cmd(3), true);
    assert_eq!(doorbell, Some(Doorbell { offset: 4096 + 16, value: 0 }));
    let ids: Vec<u16> = queue.sq.iter().map(|c| c.command_id).collect();
    assert_eq!(ids, vec![1, 2, 3]);
    assert_eq!(queue.write_sq_db(&mut data, false), None);
    assert_eq!(queue.write_sq_db(&mut data, true), Some(Doorbell { offset: 4096 + 16, value: 0 }));
}

#[test]
fn shadow_doorbells_save_writes() {
    let mut queue = queue(1, 8);
    let mut data = shadowed(3);
    assert_eq!(queue.submit_command(&mut data, &blank(), true), None);
    assert_eq!(data.shadow.as_ref().unwrap().dbs[4], 1);
    let mut data = shadowed(1);
    data.shadow.as_mut().unwrap().dbs[4] = 1;
    let doorbell = queue.submit_command(&mut data, &blank(), true);
    assert_eq!(doorbell, Some(Doorbell { offset: 4096 + 16, value: 2 }));
    let mut admin = self::queue(0, 8);
    assert!(admin.submit_command(&mut shadowed(3), &blank(), true).is_some());
}

fn tags() -> TagSet<()> {
    TagSet::new(2, (), 64, 1, -1, Flags::default(), 0, 0).ok().unwrap()
}

fn entry(id: u16, status: u16) -> NvmeCompletion {
    NvmeCompletion { result: id as u32 * 2, command_id: id, status }
}

#[test]
fn completions_are_taken_in_order() {
    let mut queue = queue(2, 4);
    let mut data = direct();
    let lookup = |qid: u32, tag: u32| {
        if tag == 6 {
            return None;
        }
        let attempts = vec![Attempt { count: 1, exchanged: true }];
        Some(TaggedRequest { request: (qid * 100 + tag) as usize, attempts })
    };
    let none = queue.process_completions(&mut data, &tags(), &lookup);
    assert!(none.completed.is_empty() && none.doorbell.is_none());
    assert_eq!(NvmeQueue::handle(&none), IrqReturn::NotHandled);
    queue.cq[0] = entry(5, 1);
    queue.cq[1] = entry(6, 0x101);
    let some = queue.process_completions(&mut data, &tags(), &lookup);
    assert_eq!(NvmeQueue::handle(&some), IrqReturn::Handled);
    let seen: Vec<_> =
        some.completed.iter().map(|c| (c.command_id, c.request, c.result, c.status)).collect();
    assert_eq!(seen, vec![(5, Some(105), 10, 0), (6, None, 12, 0x80)]);
    assert_eq!(some.completed[0].deliver(None), Delivery::Complete(105));
    assert_eq!(some.completed[0].deliver(Some(false)), Delivery::Complete(105));
    assert_eq!(some.completed[0].deliver(Some(true)), Delivery::Batched(105, false));
    assert_eq!(some.completed[1].deliver(Some(true)), Delivery::Invalid);
    assert_eq!(some.doorbell, Some(Doorbell { offset: 4096 + 32 + 8, value: 2 }));
    assert_eq!((queue.cq_head, queue.cq_phase), (2, 1));
    queue.cq[2] = entry(7, 1);
    queue.cq[3] = entry(8, 1);
    queue.cq[0] = entry(9, 0);
    let wrapped = queue.process_completions(&mut data, &tags(), &lookup);
    let ids: Vec<u16> = wrapped.completed.iter().map(|c| c.command_id).collect();
    assert_eq!(ids, vec![7, 8, 9]);
    assert_eq!((queue.cq_head, queue.cq_phase), (1, 0));
}

#[test]
fn interrupt_handlers_are_registered() {
    let mut queue = queue(1, 4);
    assert_eq!(queue.register_irq(Err(Errno(EINVAL))), Err(Errno(EINVAL)));
    assert!(!queue.unregister_irq());
    assert_eq!(queue.register_irq(Ok(())), Ok(()));
    assert!(queue.unregister_irq());
    assert!(!queue.irq);
}

const NS: NvmeNamespace = NvmeNamespace { id: 4, lba_shift: 12 };

fn info(command: Command, sector: u64, payload_bytes: u32) -> RequestInfo {
    RequestInfo { command, tag: 0x1_0007, sector, payload_bytes }
}

#[test]
fn transfers_become_commands() {
    let cmd = build_transfer(&info(Command::Read, 800, 16384), &NS);
    assert_eq!((cmd.opcode, cmd.command_id, cmd.nsid), (2, 7, 4));
    assert_eq!((cmd.slba, cmd.length), (100, 3));
    let cmd = build_transfer(&info(Command::Write, 801, 4096), &NvmeNamespace { lba_shift: 9, ..NS });
    assert_eq!((cmd.opcode, cmd.slba, cmd.length), (1, 801, 7));
}

#[test]
fn requests_are_queued_and_completed() {
    let mut queue = queue(1, 8);
    let mut data = direct();
    let mut pool = pool(2);
    let mut rq = NvmeRequest::new();
    let mapped = Ok(segments(&[(0x5000, 16384)]));
    let queued = queue_rq(
        &mut queue, &mut data, &mut pool, &NS, &info(Command::Write, 8, 16384), &mut rq, mapped, 4, true,
    );
    assert_eq!(queued, Ok(Some(Doorbell { offset: 4096 + 16, value: 1 })));
    let cmd = queue.sq[0];
    assert_eq!((cmd.opcode, cmd.command_id, cmd.slba, cmd.length), (1, 7, 1, 3));
    assert_eq!((cmd.prp1, cmd.prp2), (0x5000, 0x10_0000));
    assert_eq!((rq.page_count, rq.first_dma), (1, 0x10_0000));
    assert_eq!(rq.mapping_data.as_ref().unwrap().lists[0].entries[..3], [0x6000, 0x7000, 0x8000]);
    rq.status = 0;
    assert_eq!(complete(Command::Write, &mut rq, &mut pool), 0);
    assert!(rq.mapping_data.is_none());
    assert_eq!(pool.freed, vec![(100, 0x10_0000)]);
    rq.record(&Completed { command_id: 7, request: Some(0), result: 5, status: 3 });
    assert_eq!((rq.result, rq.status), (5, 3));
    assert_eq!(complete(Command::Read, &mut rq, &mut pool), 10);
    assert_eq!(complete(Command::Flush, &mut rq, &mut pool), 0);
    assert_eq!(complete(Command::DriverIn, &mut rq, &mut pool), 0);
    batch_complete(&mut rq, &mut pool);
    assert_eq!(pool.freed.len(), 1);
}

#[test]
fn requests_without_data_are_queued() {
    let mut queue = queue(1, 8);
    let mut data = direct();
    let mut pool = pool(0);
    let mut rq = NvmeRequest::new();
    rq.cmd = NvmeCommand { opcode: 6, command_id: 1, ..blank() };
    let mut send = |command, mapped, rq: &mut NvmeRequest| {
        queue_rq(
            &mut queue, &mut data, &mut pool, &NS, &info(command, 8, 1 << 20), rq, mapped, 4, false,
        )
    };
    assert_eq!(send(Command::DriverOut, Err(Errno(EIO)), &mut rq), Ok(None));
    assert_eq!(send(Command::Flush, Err(Errno(EIO)), &mut rq), Ok(None));
    assert_eq!(send(Command::Discard, Err(Errno(EIO)), &mut rq).unwrap_err().to_blk_status(), 10);
    assert_eq!(send(Command::Read, Err(Errno(EIO)), &mut rq).unwrap_err().to_blk_status(), 10);
    let mapped = Ok(segments(&[(0, 1 << 20)]));
    assert_eq!(send(Command::Read, mapped, &mut rq).unwrap_err().to_blk_status(), 10);
    assert_eq!(queue.sq_tail, 2);
    assert_eq!((queue.sq[0].opcode, queue.sq[0].command_id), (6, 1));
    assert_eq!((queue.sq[1].opcode, queue.sq[1].command_id, queue.sq[1].nsid), (0, 7, 4));
    assert!(rq.mapping_data.is_none());
}

#[test]
fn io_queues_are_laid_out() {
    let blank = IoQueueMap { nr_queues: 9, queue_offset: 9, assignment: Assignment::Unassigned };
    let mut maps = vec![blank; 3];
    map_queues(&mut maps, 4, 2);
    assert_eq!((maps[0].nr_queues, maps[0].queue_offset), (4, 0));
    assert_eq!(maps[0].assignment, Assignment::ByInterrupt(1));
    assert_eq!(maps[1], IoQueueMap { nr_queues: 0, ..blank });
    assert_eq!((maps[2].nr_queues, maps[2].queue_offset), (2, 4));
    assert_eq!(maps[2].assignment, Assignment::Spread);
}

#[test]
fn contexts_get_their_queues() {
    assert_eq!(admin_init_hctx(None), Err(Errno(EINVAL)));
    assert_eq!(admin_init_hctx(Some(3)), Ok(3));
    assert_eq!(io_init_hctx(&vec![7, 8], 1), Ok(8));
}
