//! The null block device.

use rblk::bio::Segment;
use rblk::block::mq::command::Command;
use rblk::block::mq::request::Request;
use rblk::block::mq::request_flag::{Flag, Flags};
use rblk::block::mq::request_list::RequestList;
use rblk::configfs::IRQMode;
use rblk::device::queue::{
    Completion, HwQueueContext, PollOutcome, QueueEvents, QueueRequestError, Queued,
    RequestTimeoutStatus,
};
use rblk::device::setup::{NullBlkOptions, NullBlkSettings};
use rblk::device::{Memory, NullBlkDevice};
use rblk::block::badblocks::BadBlocks;
use rblk::disk_storage::DiskStorage;
use rblk::error::{Errno, EFAULT, EINVAL, EIO};
use rblk::hrtimer::HrTimerRestart;
use rblk::module::ModuleParameters;
use rblk::zoned::ZoneCondition;
use std::cell::{Cell, RefCell};

fn settings() -> NullBlkSettings {
    let params = ModuleParameters {
        gb: 1,
        bs: 512,
        memory_backed: 1,
        zone_size: 1,
        zone_capacity: 1,
        zone_append_max_sectors: 0x10_0000,
        ..ModuleParameters::default()
    };
    params.settings(1).unwrap()
}

fn device(settings: NullBlkSettings, enable_bad_blocks: bool) -> NullBlkDevice {
    let options = NullBlkOptions {
        name: b"rnullb0".to_vec(),
        settings,
        bad_blocks: BadBlocks::new(enable_bad_blocks, 0).unwrap(),
        storage: DiskStorage::new(0, settings.block_size_bytes),
    };
    let made = NullBlkDevice::new(options, 1, 64, &mut None, &|_| 0, &|_| 0, &|_, _| 0);
    made.ok().unwrap().queue.queue_data
}

fn pattern(sectors: usize, seed: u8) -> Vec<u8> {
    (0..sectors * 512).map(|i| (i / 512) as u8 ^ (i % 253) as u8 ^ seed).collect()
}

fn request(command: Command, sector: u64, data: Vec<u8>) -> Request {
    let sectors = (data.len() / 512) as u32;
    Request {
        command,
        sector,
        sectors,
        bytes: sectors * 512,
        flags: Flags::from_raw(0),
        poll: false,
        segments: if data.is_empty() { vec![] } else { vec![Segment::new(0, data)] },
        error: 0,
        fake_timeout: 0,
    }
}

fn quiet() -> QueueEvents {
    QueueEvents {
        requeue_fault: false,
        timeout_fault: false,
        timer_active: false,
        reloaded_bytes: 0,
    }
}

struct Rig {
    device: NullBlkDevice,
    hw: HwQueueContext,
    memory: Memory,
}

fn rig(settings: NullBlkSettings, enable_bad_blocks: bool) -> Rig {
    Rig {
        device: device(settings, enable_bad_blocks),
        hw: NullBlkDevice::init_hctx(64, false).ok().unwrap(),
        memory: Memory { grants: 100_000 },
    }
}

impl Rig {
    fn queue(&mut self, rq: Request) -> Result<Queued, QueueRequestError> {
        let (queued, _) = self.device.queue_rq_internal(
            &mut self.hw,
            &mut self.memory,
            rq,
            quiet(),
            |_, _| (0, 0, 0),
            |_, _| true,
        );
        queued
    }

    fn ended(&mut self, rq: Request) -> (Request, u8) {
        match self.queue(rq) {
            Ok(Queued::Completed(Completion::Ended(rq, status))) => (rq, status),
            _ => panic!("the request was not ended"),
        }
    }

    fn status(&mut self, rq: Request) -> u8 {
        self.ended(rq).1
    }

    fn write(&mut self, sector: u64, data: Vec<u8>) -> u8 {
        self.status(request(Command::Write, sector, data))
    }

    fn read(&mut self, sector: u64, sectors: usize) -> (Vec<u8>, u8) {
        let (mut rq, status) =
            self.ended(request(Command::Read, sector, vec![0xee; sectors * 512]));
        (rq.segments.remove(0).into_data(), status)
    }
}

#[test]
fn written_requests_are_read_back() {
    let mut rig = rig(settings(), false);
    let data = pattern(19, 7);
    assert_eq!(rig.write(100, data.clone()), 0);
    assert_eq!(rig.read(100, 19), (data.clone(), 0));
    assert_eq!(rig.read(103, 2), (data[3 * 512..5 * 512].to_vec(), 0));
}

#[test]
fn requests_of_several_segments_are_read_back() {
    let parts = [pattern(3, 1), pattern(9, 2), pattern(4, 3)];
    for cache in [0, 8192, 1 << 20] {
        let mut rig = rig(settings(), false);
        rig.device.storage = DiskStorage::new(cache, 512);
        let mut rq = request(Command::Write, 5, vec![0; 16 * 512]);
        rq.segments = parts.iter().map(|part| Segment::new(0, part.clone())).collect();
        assert_eq!(rig.status(rq), 0);
        assert_eq!(rig.read(5, 16), (parts.concat(), 0));
        let mut rq = request(Command::Read, 5, vec![0; 16 * 512]);
        rq.segments = parts.iter().map(|part| Segment::new(0, vec![0; part.len()])).collect();
        let (rq, status) = rig.ended(rq);
        assert_eq!(status, 0);
        for (segment, part) in rq.segments.into_iter().zip(&parts) {
            assert_eq!(segment.into_data(), *part);
        }
    }
}

#[test]
fn requests_with_forced_unit_access_bypass_the_cache() {
    let mut rig = rig(settings(), false);
    rig.device.storage = DiskStorage::new(1 << 20, 512);
    let data = pattern(8, 1);
    let mut rq = request(Command::Write, 8, data.clone());
    rq.flags = Flags::from_raw(Flag::ForcedUnitAccess.as_raw());
    assert_eq!(rig.status(rq), 0);
    assert!(rig.device.storage.get_cache_page(8).is_none());
    assert_eq!(rig.read(8, 8), (data, 0));
}

#[test]
fn nothing_is_kept_without_memory() {
    let mut rig = rig(NullBlkSettings { memory_backed: false, ..settings() }, false);
    assert_eq!(rig.write(0, pattern(1, 1)), 0);
    assert_eq!(rig.read(0, 1), (vec![0xee; 512], 0));
}

#[test]
fn writes_fail_where_memory_runs_out() {
    let mut rig = rig(settings(), false);
    rig.memory.grants = 1;
    assert_eq!(rig.write(0, pattern(1, 1)), 10);
    rig.memory.grants = 100;
    assert_eq!(rig.write(0, pattern(1, 1)), 0);
}

#[test]
fn discards_free_sectors() {
    let mut rig = rig(NullBlkSettings { block_size_bytes: 4096, discard: true, ..settings() }, false);
    assert_eq!(rig.write(0, pattern(8, 1)), 0);
    let mut rq = request(Command::Discard, 0, vec![]);
    rq.sectors = 8;
    assert_eq!(rig.status(rq), 0);
    assert_eq!(rig.read(0, 8), (vec![0; 4096], 0));
}

#[test]
fn bad_blocks_stop_requests() {
    let mut device = device(settings(), true);
    let mut rq = request(Command::Write, 100, pattern(8, 1));
    let mut sectors = 8;
    let range = Cell::new((0, 0));
    let checked = device.handle_bad_blocks(
        &mut rq,
        &mut sectors,
        |start, count| {
            range.set((start, count));
            (1, 104, 2)
        },
        |_, _| true,
    );
    assert_eq!(checked, Ok(()));
    assert_eq!(range.get(), (100, 8));
    assert_eq!((sectors, rq.error), (0, 10));
    device.bad_blocks_once = true;
    let cleared = Cell::new((0, 0));
    let mut sectors = 8;
    let checked = device.handle_bad_blocks(&mut rq, &mut sectors, |_, _| (-1, 104, 2), |a, b| {
        cleared.set((a, b));
        false
    });
    assert_eq!(checked, Err(Errno(EINVAL)));
    assert_eq!(cleared.get(), (104, 2));
    let mut rq = request(Command::Write, 100, pattern(8, 1));
    let mut sectors = 8;
    let unasked = |_, _| panic!("nothing is cleared");
    let checked = device.handle_bad_blocks(&mut rq, &mut sectors, |_, _| (0, 0, 0), unasked);
    assert_eq!((checked, sectors, rq.error), (Ok(()), 8, 0));
    device.bad_blocks_once = false;
    let checked = device.handle_bad_blocks(&mut rq, &mut sectors, |_, _| (1, 104, 2), unasked);
    assert_eq!((checked, sectors, rq.error), (Ok(()), 0, 10));
}

#[test]
fn partial_transfers_end_before_the_block_of_a_bad_range() {
    let mut device = device(settings(), true);
    device.bad_blocks_partial_io = true;
    let range = |start| rblk::block::badblocks::SectorRange { start, end: start + 1 };
    assert_eq!(device.limit_sectors(0, 8, range(5)), 5);
    assert_eq!(device.limit_sectors(5, 8, range(5)), 8);
    device.block_size_bytes = 4096;
    assert_eq!(device.limit_sectors(0, 64, range(21)), 16);
    assert_eq!(device.limit_sectors(0, 8, range(5)), 8);
    device.bad_blocks_partial_io = false;
    assert_eq!(device.limit_sectors(0, 64, range(21)), 0);
}

#[test]
fn zoned_devices_take_sequential_writes() {
    let mut rig = rig(NullBlkSettings { zoned: true, zone_nr_conv: 1, ..settings() }, false);
    // Conventional zones take any write.
    assert_eq!(rig.write(5, pattern(1, 1)), 0);
    // Sequential zones take writes at their write pointer.
    assert_eq!(rig.write(2049, pattern(1, 1)), 10);
    let data = pattern(4, 2);
    assert_eq!(rig.write(2048, data.clone()), 0);
    assert_eq!(rig.device.zoned.zones[1].write_pointer, 2052);
    assert_eq!(rig.device.zoned.zones[1].condition, ZoneCondition::ImplicitOpen);
    assert_eq!(rig.read(2048, 4), (data, 0));
    assert_eq!(rig.status(request(Command::ZoneFinish, 2048, vec![])), 0);
    assert_eq!(rig.device.zoned.zones[1].condition, ZoneCondition::Full);
    assert_eq!(rig.status(request(Command::ZoneReset, 2048, vec![])), 0);
    assert_eq!(rig.device.zoned.zones[1].condition, ZoneCondition::Empty);
    assert_eq!(rig.status(request(Command::ZoneOpen, 4096, vec![])), 0);
    assert_eq!(rig.device.zoned.zones[2].condition, ZoneCondition::ExplicitOpen);
    assert_eq!(rig.status(request(Command::ZoneClose, 4096, vec![])), 0);
    assert_eq!(rig.device.zoned.zones[2].condition, ZoneCondition::Empty);
    assert_eq!(rig.status(request(Command::ZoneOpen, 0, vec![])), 10);
}

#[test]
fn resetting_all_zones_skips_conventional_ones() {
    let mut rig = rig(NullBlkSettings { zoned: true, zone_nr_conv: 1, ..settings() }, false);
    let data = pattern(1, 1);
    assert_eq!(rig.write(5, data.clone()), 0);
    assert_eq!(rig.write(2048, pattern(4, 2)), 0);
    assert_eq!(rig.write(4096, pattern(4, 3)), 0);
    assert_eq!(rig.status(request(Command::ZoneResetAll, 0, vec![])), 0);
    assert_eq!(rig.device.zoned.zones[0].condition, ZoneCondition::NoWritePointer);
    for no in [1, 2] {
        let zone = &rig.device.zoned.zones[no];
        assert_eq!((zone.condition, zone.write_pointer), (ZoneCondition::Empty, zone.start_sector));
    }
    assert_eq!(rig.read(5, 1), (data, 0));
}

#[test]
fn appends_go_to_the_write_pointer() {
    let mut rig = rig(NullBlkSettings { zoned: true, ..settings() }, false);
    let first = pattern(2, 3);
    let second = pattern(3, 4);
    let (rq, status) = rig.ended(request(Command::ZoneAppend, 2048, first.clone()));
    assert_eq!((rq.sector, status), (2048, 0));
    let (rq, status) = rig.ended(request(Command::ZoneAppend, 2048, second.clone()));
    assert_eq!((rq.sector, status), (2050, 0));
    assert_eq!(rig.device.zoned.zones[1].write_pointer, 2053);
}

#[test]
fn zones_are_reported() {
    let device = device(NullBlkSettings { zoned: true, zone_nr_conv: 1, ..settings() }, false);
    let seen = RefCell::new(vec![]);
    let reported = device.report_zones_internal(0, 3, |zone, no| {
        seen.borrow_mut().push((zone.start, zone.len, zone.wp, zone.capacity, zone.kind, zone.cond, no));
        Ok(())
    });
    assert_eq!(reported, Ok(3));
    let expected = vec![
        (0, 2048, 2048, 2048, 1, 0, 0),
        (2048, 2048, 2048, 2048, 2, 1, 1),
        (4096, 2048, 4096, 2048, 2, 1, 2),
    ];
    assert_eq!(*seen.borrow(), expected);
    let failed = device.report_zones_internal(2048, 2, |_, no| {
        if no == 1 { Err(Errno(EIO)) } else { Ok(()) }
    });
    assert_eq!(failed, Err(Errno(EIO)));
    assert_eq!(device.report_zones_internal(1024 * 2048, 2, |_, _| Ok(())), Ok(0));
}

#[test]
fn faults_requeue_every_other_request() {
    let mut rig = rig(settings(), false);
    let events = QueueEvents { requeue_fault: true, ..quiet() };
    let mut outcomes = vec![];
    for _ in 0..4 {
        let rq = request(Command::Write, 0, pattern(1, 1));
        let (queued, actions) = rig.device.queue_rq(
            &mut rig.hw, &mut rig.memory, rq, events, |_, _| (0, 0, 0), |_, _| true,
        );
        assert!(actions.start_timer.is_none() && !actions.stop_queues && !actions.restart_queues);
        outcomes.push(match queued {
            Ok(Queued::Requeued(_)) => 1,
            Ok(_) => 2,
            Err(e) => e.to_blk_status(),
        });
    }
    assert_eq!(outcomes, vec![10, 1, 10, 1]);
}

#[test]
fn bandwidth_is_limited() {
    let mut rig = rig(NullBlkSettings { bandwidth_limit: 50 * 1000, ..settings() }, false);
    assert_eq!(rig.device.bandwidth_limit, 1000);
    let mut gates = vec![];
    for reloaded_bytes in [0, 5000, 0] {
        let rq = request(Command::Write, 0, pattern(1, 1));
        let events = QueueEvents { reloaded_bytes, ..quiet() };
        let (queued, actions) = rig.device.queue_rq(
            &mut rig.hw, &mut rig.memory, rq, events, |_, _| (0, 0, 0), |_, _| true,
        );
        gates.push((queued.is_ok(), actions.start_timer, actions.stop_queues, actions.restart_queues));
    }
    assert_eq!(
        gates,
        vec![
            (true, Some(20_000_000), false, false),
            (false, Some(20_000_000), true, false),
            (false, Some(20_000_000), true, true),
        ]
    );
    assert_eq!(rig.device.bandwidth_bytes, 1536);
    assert_eq!(rig.device.run(), (HrTimerRestart::Restart, Some(20_000_000), true));
    assert_eq!(rig.device.bandwidth_bytes, 0);
    assert_eq!(rig.device.run(), (HrTimerRestart::NoRestart, None, false));
}

#[test]
fn requests_time_out() {
    let mut rig = rig(settings(), false);
    let events = QueueEvents { timeout_fault: true, ..quiet() };
    let rq = request(Command::Write, 0, pattern(1, 1));
    let (queued, _) = rig.device.queue_rq_internal(
        &mut rig.hw, &mut rig.memory, rq, events, |_, _| (0, 0, 0), |_, _| true,
    );
    let rq = match queued {
        Ok(Queued::TimedOut(rq)) => rq,
        _ => panic!("the request did not time out"),
    };
    assert_eq!(rq.fake_timeout, 1);
    let (status, completion, kept) = NullBlkDevice::request_timeout(Some(rq), false);
    assert_eq!(status, RequestTimeoutStatus::RetryLater);
    assert!(completion.is_none());
    let mut kept = kept.unwrap();
    assert_eq!((kept.error, kept.fake_timeout), (2, 0));
    kept.fake_timeout = 1;
    let (status, completion, kept) = NullBlkDevice::request_timeout(Some(kept), true);
    assert_eq!(status, RequestTimeoutStatus::Completed);
    assert!(kept.is_none());
    assert!(matches!(completion, Some(Completion::Ended(_, 10))));
    let rq = request(Command::Read, 0, vec![]);
    let (status, completion, kept) = NullBlkDevice::request_timeout(Some(rq), true);
    assert_eq!(status, RequestTimeoutStatus::RetryLater);
    assert!(completion.is_none() && kept.is_some());
    assert_eq!(NullBlkDevice::request_timeout(None, true).0, RequestTimeoutStatus::RetryLater);
}

#[test]
fn requests_are_completed_as_configured() {
    let mut soft = rig(NullBlkSettings { irq_mode: IRQMode::Soft, ..settings() }, false);
    match soft.queue(request(Command::Write, 0, pattern(1, 1))) {
        Ok(Queued::Completed(Completion::Remote(rq))) => {
            assert!(matches!(NullBlkDevice::complete(rq), Completion::Ended(_, 0)));
        }
        _ => panic!("the request was not handed on"),
    }
    let mut timer = rig(
        NullBlkSettings { irq_mode: IRQMode::Timer, completion_time: 77, ..settings() },
        false,
    );
    match timer.queue(request(Command::Write, 0, pattern(1, 1))) {
        Ok(Queued::Completed(Completion::Timer(rq, 77))) => {
            let (restart, completion) = NullBlkDevice::run_completion(rq);
            assert_eq!(restart, HrTimerRestart::NoRestart);
            assert!(matches!(completion, Completion::Ended(_, 0)));
        }
        _ => panic!("no timer was started"),
    }
    let mut failed = request(Command::Write, 0, vec![]);
    failed.error = 2;
    match NullBlkDevice::end_request(failed) {
        Completion::Ended(rq, status) => assert_eq!((rq.error, status), (0, 10)),
        _ => panic!("the request was not ended"),
    }
}

#[test]
fn requests_wait_to_be_polled() {
    let mut rig = rig(settings(), false);
    for sector in [1, 2, 3] {
        let mut rq = request(Command::Write, sector, pattern(1, 1));
        rq.poll = true;
        rig.memory.grants = if sector == 2 { 0 } else { 100 };
        rig.hw.page = None;
        if sector == 2 {
            rq.sector = 800;
        }
        assert!(matches!(rig.queue(rq), Ok(Queued::Polled)));
    }
    let (any, outcomes) = NullBlkDevice::poll(&mut rig.hw, &[true, true, false]);
    assert!(any);
    let mut seen = vec![];
    for outcome in outcomes {
        seen.push(match outcome {
            PollOutcome::Batched(rq, failed) => (rq.sector, rq.error, failed as u8),
            PollOutcome::Ended(Completion::Ended(rq, status)) => (rq.sector, rq.error, status),
            PollOutcome::Ended(_) => panic!("the request was not ended"),
        });
    }
    assert_eq!(seen, vec![(1, 0, 0), (800, 0, 1), (3, 0, 0)]);
    let (any, outcomes) = NullBlkDevice::poll(&mut rig.hw, &[]);
    assert!(!any && outcomes.is_empty());
}

#[test]
fn lists_of_requests_are_queued_in_order() {
    let mut rig = rig(settings(), false);
    let mut list = RequestList::new();
    for sector in [10, 20, 30, 40] {
        list.push_tail(request(Command::Write, sector, pattern(1, 1)));
    }
    // Every other requeue fault refuses its request.
    let fault = QueueEvents { requeue_fault: true, ..quiet() };
    let events = [quiet(), fault, fault, quiet()];
    rig.device.requeue_selector = 0;
    let (queued, actions) = rig.device.queue_rqs(
        &mut rig.hw,
        &mut rig.memory,
        &mut list,
        &events,
        &|_, _| (0, 0, 0),
        &|_, _| true,
    );
    assert_eq!(queued.len(), 3);
    assert!(matches!(queued[0], Queued::Completed(_)));
    assert!(matches!(queued[1], Queued::Requeued(_)));
    assert_eq!(actions.len(), 4);
    assert!(actions.iter().all(|action| !action.stop_queues));
    assert_eq!(rig.device.requeue_selector, 2);
    assert_eq!(list.pop().unwrap().sector, 20);
    assert!(list.empty());
}

#[test]
fn hardware_queues_are_set_up() {
    let hw = NullBlkDevice::init_hctx(64, false).ok().unwrap();
    assert_eq!(hw.poll_capacity, 64);
    assert!(hw.page.is_none());
    assert_eq!(NullBlkDevice::init_hctx(64, true).err(), Some(Errno(EFAULT)));
}

#[test]
fn a_cache_keeps_what_was_written_until_it_is_flushed() {
    let mut storage = DiskStorage::new(16, 512);
    let mut memory = Memory { grants: 100 };
    let mut spare = None;
    let mut write = |storage: &mut DiskStorage, sector, seed| {
        let mut segment = Segment::new(0, pattern(2, seed));
        NullBlkDevice::write(storage, &mut spare, &mut memory, 512, sector, &mut segment, false)
    };
    for (sector, seed) in [(0, 1), (16, 2), (32, 3)] {
        assert_eq!(write(&mut storage, sector, seed), Ok(()));
        assert!(storage.get_cache_page(sector).is_some());
    }
    assert_eq!(storage.cache_size_used, 0);
    for (sector, seed) in [(0, 1), (16, 2), (32, 3)] {
        let mut segment = Segment::new(0, vec![0; 1024]);
        assert_eq!(NullBlkDevice::read(&storage, sector, &mut segment), Ok(()));
        assert_eq!(segment.into_data(), pattern(2, seed));
    }
}
