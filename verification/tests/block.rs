//! The block layer.

use rblk::block::badblocks::{BadBlocks, BlockStatus, SectorBound, SectorRange};
use rblk::block::error::{to_result, BlkError};
use rblk::block::mq::command::Command;
use rblk::block::mq::feature::{Feature, Features};
use rblk::block::mq::gen_disk::{GenDiskBuilder, QueueLimits};
use rblk::block::mq::request_list::RequestList;
use rblk::block::mq::request_queue::{RequestQueue, SyncRequest};
use rblk::block::mq::tag_set::{
    share_step, Attempt, Flag, Flags, QueueMap, QueueType, ShareStep, SharedRequest, TagSet,
    TaggedRequest,
};
use rblk::error::{Errno, EINVAL, EIO, ENOMEM};
use std::cell::Cell;

#[test]
fn block_errors_are_never_success() {
    assert_eq!(BlkError::from_blk_status(0).to_blk_status(), 10);
    assert_eq!(BlkError::from_blk_status(13).to_blk_status(), 13);
    assert_eq!(BlkError::from_blk_status(200).to_blk_status(), 10);
    assert!(BlkError::try_from_blk_status(0).is_none());
    assert!(BlkError::try_from_blk_status(200).is_none());
    assert_eq!(BlkError::try_from_blk_status(2).unwrap().to_blk_status(), 2);
    assert_eq!(to_result(0), Ok(()));
    assert_eq!(to_result(1).unwrap_err().to_blk_status(), 1);
    assert_eq!(u8::from(BlkError::from(Errno(EIO))), 10);
    assert_eq!(u32::from(BlkError::from_blk_status(2)), 2);
}

#[test]
fn bad_blocks_are_tracked_by_the_host() {
    let mut blocks = BadBlocks::new(false, 0).unwrap();
    assert!(!blocks.enabled());
    blocks.enable();
    assert!(blocks.enabled());
    assert_eq!(BadBlocks::new(true, -12).unwrap_err(), Errno(ENOMEM));
    let asked = Cell::new((0, 0, 0));
    let start = SectorBound::Included(100);
    let set = blocks.set_bad(start, SectorBound::Included(109), true, |a, b, c| {
        asked.set((a, b, c));
        true
    });
    assert_eq!((set, asked.get()), (Ok(()), (100, 10, 1)));
    let full = blocks.set_bad(start, SectorBound::Excluded(109), false, |a, b, c| {
        asked.set((a, b, c));
        false
    });
    assert_eq!((full, asked.get()), (Err(Errno(ENOMEM)), (100, 9, 0)));
    let cleared = blocks.set_good(SectorBound::Excluded(99), SectorBound::Excluded(101), |a, b| {
        asked.set((a, b, 0));
        false
    });
    assert_eq!((cleared, asked.get()), (Err(Errno(EINVAL)), (100, 1, 0)));
    assert_eq!(blocks.set_good(start, SectorBound::Excluded(101), |_, _| true), Ok(()));
}

#[test]
fn bad_blocks_are_checked() {
    let blocks = BadBlocks::new(true, 0).unwrap();
    let range = SectorRange { start: 7, end: 10 };
    let check = |ret| blocks.check(SectorBound::Included(0), SectorBound::Excluded(8), move |_, _| (ret, 7, 3));
    assert_eq!(check(0), BlockStatus::NoBadBlocks);
    assert_eq!(check(1), BlockStatus::Acknowledged(range));
    assert_eq!(check(-1), BlockStatus::Unacknowledged(range));
    let all = BadBlocks::range(SectorBound::Unbounded, SectorBound::Unbounded);
    assert_eq!((all.start, all.end), (0, u64::MAX));
    assert_eq!(blocks.show(true, |unacknowledged| unacknowledged as isize + 40), 41);
}

#[test]
fn commands_have_codes() {
    assert_eq!(Command::Read.as_raw(), 0);
    assert_eq!(Command::ZoneReset.as_raw(), 13);
    assert_eq!(Command::DriverOut.as_raw(), 35);
    for code in [0, 1, 2, 3, 5, 7, 9, 10, 11, 12, 13, 15, 34, 35] {
        assert_eq!(Command::from_raw(code).as_raw(), code);
    }
}

#[test]
fn features_are_sets() {
    let mut features = Features::from_raw(Feature::Rotational.as_raw());
    features.insert(Feature::WriteCache);
    assert_eq!(features.into_inner(), 5);
    assert!(features.contains(Feature::WriteCache));
    assert!(!features.contains(Feature::ForcedUnitAccess));
}

#[test]
fn block_sizes_are_validated() {
    for size in [512, 1024, 2048, 4096] {
        assert_eq!(GenDiskBuilder::validate_block_size(size), Ok(()));
    }
    for size in [0, 256, 513, 1000, 8192] {
        assert_eq!(GenDiskBuilder::validate_block_size(size), Err(Errno(EINVAL)));
        assert!(GenDiskBuilder::new().logical_block_size(size).is_err());
        assert!(GenDiskBuilder::new().physical_block_size(size).is_err());
    }
}

fn builder() -> GenDiskBuilder {
    GenDiskBuilder::new()
        .rotational(true)
        .logical_block_size(512)
        .unwrap()
        .physical_block_size(1024)
        .unwrap()
        .capacity_sectors(2048)
        .max_hw_discard_sectors(11)
        .zoned(true)
        .zone_size(12)
        .zone_append_max(13)
        .write_cache(true)
        .forced_unit_access(true)
        .max_sectors(14)
        .virt_boundary_mask(15)
}

#[test]
fn disks_are_built_as_configured() {
    let disk = builder().build(b"disk".to_vec(), (), 77u8, true, &|_| 0, &|_, _| 0).ok().unwrap();
    let limits = disk.limits;
    assert_eq!(limits.features.into_inner(), 0x407);
    let plain = builder().zoned(false).build(vec![], (), 0u8, true, &|_| 0, &|_, _| 0);
    assert_eq!(plain.ok().unwrap().limits.features.into_inner(), 7);
    assert_eq!((limits.logical_block_size, limits.physical_block_size), (512, 1024));
    assert_eq!((limits.max_hw_discard_sectors, limits.max_sectors), (11, 14));
    assert_eq!((limits.chunk_sectors, limits.max_hw_zone_append_sectors), (12, 13));
    assert_eq!(limits.virt_boundary_mask, 15);
    assert_eq!(disk.name, b"disk");
    assert_eq!(disk.capacity_sectors, 2048);
    assert!(disk.zones_validated);
    assert_eq!(*disk.queue_data(), 77);
    assert_eq!(*disk.queue().queue_data(), 77);
    assert_eq!(disk.get_ref().0.name, b"disk");
    let removed = Cell::new(0);
    let data = disk.release(|name| {
        assert_eq!(name, b"disk");
        removed.set(removed.get() + 1);
    });
    assert_eq!((data, removed.get()), (77, 1));
    let own = builder().build(vec![], tags(), 0u8, true, &|_| 0, &|_, _| 0).ok().unwrap();
    assert_eq!(own.tag_set().nr_hw_queues, 4);
    let plain = builder().zoned(false).build(vec![], (), 0u8, false, &|_| 0, &|_, _| 0).ok().unwrap();
    assert_eq!((plain.limits.chunk_sectors, plain.limits.max_hw_zone_append_sectors), (0, 0));
    let initial = GenDiskBuilder::default();
    assert_eq!((initial.logical_block_size, initial.physical_block_size), (4096, 4096));
}

#[test]
fn disks_that_cannot_be_built() {
    let name = || b"disk".to_vec();
    let error = |r: Result<_, (Errno, u8)>| r.err().unwrap();
    let accept = |_: QueueLimits| 0;
    let add = |_: u64, _: bool| 0;
    let failed = builder().build(
        name(), (), 7, false, &|_| panic!("no disk is allocated"), &|_, _| panic!("no disk is added"),
    );
    assert_eq!(error(failed.map(|_| ())), (Errno(EINVAL), 7));
    let failed = builder().build(name(), (), 7, true, &|_| -12, &add);
    assert_eq!(error(failed.map(|_| ())), (Errno(ENOMEM), 7));
    let failed = builder().build(vec![b'a'; 32], (), 7, true, &accept, &add);
    assert_eq!(error(failed.map(|_| ())), (Errno(EINVAL), 7));
    assert!(builder().build(vec![b'a'; 31], (), 7, true, &accept, &add).is_ok());
    let failed = builder().build(name(), (), 7, true, &accept, &|capacity, zoned| {
        assert_eq!((capacity, zoned), (2048, true));
        -5
    });
    assert_eq!(error(failed.map(|_| ())), (Errno(EIO), 7));
}

#[test]
fn request_lists_are_queues() {
    let mut list = RequestList::new();
    assert!(list.empty());
    for i in 0..3 {
        list.push_tail(i);
    }
    assert_eq!(list.peek_raw(), Some(&0));
    let mut iter = list.iter();
    assert_eq!((iter.next(), iter.next(), iter.next(), iter.next()), (Some(&0), Some(&1), Some(&2), None));
    assert_eq!((list.pop(), list.pop(), list.pop(), list.pop()), (Some(0), Some(1), Some(2), None));
}

#[test]
fn queues_stop_and_start() {
    let mut queue = RequestQueue::new(5u8);
    assert!(!queue.start_stopped_hw_queues_async());
    queue.stop_hw_queues();
    assert!(queue.stopped);
    assert!(queue.start_stopped_hw_queues_async());
    assert!(!queue.stopped);
    let request = queue.alloc_sync_request(Command::Flush, |code| Ok(code as usize + 100));
    assert_eq!(request, Ok(SyncRequest { request: 102, command: Command::Flush }));
    assert_eq!(queue.alloc_sync_request(Command::Read, |_| Err(Errno(ENOMEM))), Err(Errno(ENOMEM)));
}

fn tags() -> TagSet<u8> {
    TagSet::new(4, 9, 64, 3, -1, Flags::default(), 128, 0).ok().unwrap()
}

#[test]
fn tag_sets_are_made() {
    let set = tags();
    assert_eq!((set.nr_hw_queues, set.queue_depth, set.cmd_size, set.numa_node), (4, 64, 128, -1));
    assert_eq!((set.timeout, *set.data()), (0, 9));
    assert_eq!(set.maps.len(), 3);
    assert_eq!(set.maps[2].kind(), QueueType::Poll);
    let refused = TagSet::new(4, 9u8, 64, 1, -1, Flags::default(), 128, -12);
    assert_eq!(refused.err(), Some((Errno(ENOMEM), 9)));
    if usize::BITS == 64 {
        let large = TagSet::new(4, 9u8, 64, 1, -1, Flags::default(), u32::MAX as usize + 1, 0);
        assert_eq!(large.err(), Some((Errno(EINVAL), 9)));
    }
}

#[test]
fn tag_sets_change_their_queues() {
    let mut set = tags();
    assert_eq!(set.update_hw_queue_count(8, 8), Ok(()));
    assert_eq!(set.hw_queue_count(), 8);
    assert_eq!(set.update_hw_queue_count(16, 8), Err(Errno(ENOMEM)));
    assert_eq!(set.hw_queue_count(), 8);
    set.update_maps(|map| {
        let mut map: QueueMap = map;
        map.set_queue_count(2);
        map.set_offset(5);
        map.map_queues();
        map
    })
    .unwrap();
    assert!(set.maps.iter().all(|map| map.nr_queues == 2 && map.queue_offset == 5 && map.mapped));
    let attempts = [(0, true), (3, false), (4, true), (9, true)];
    let lookup = |qid: u32, tag: u32| {
        Some(TaggedRequest {
            request: (qid * 100 + tag) as usize,
            attempts: attempts.iter().map(|a| Attempt { count: a.0, exchanged: a.1 }).collect(),
        })
    };
    assert_eq!(set.tag_to_rq(7, 3, lookup), Some(SharedRequest { request: 703, count: 5 }));
    assert_eq!(set.tag_to_rq(8, 3, lookup), None);
    assert_eq!(set.tag_to_rq(7, 3, |_, _| None), None);
    assert_eq!(share_step(0), ShareStep::Spin);
    assert_eq!(share_step(2), ShareStep::Exchange { expected: 2, new: 3 });
}

#[test]
fn types_of_queues_have_numbers() {
    assert_eq!(QueueType::try_from(0), Ok(QueueType::Default));
    assert_eq!(QueueType::try_from(1), Ok(QueueType::Read));
    assert_eq!(QueueType::try_from(2), Ok(QueueType::Poll));
    assert_eq!(QueueType::try_from(3), Err(Errno(EINVAL)));
}

#[test]
fn flags_of_tag_sets_combine() {
    let mut flags = Flags::from_flag(Flag::Blocking) | Flags::from_flag(Flag::TagHctxShared);
    assert_eq!(flags.into_inner(), 0x18);
    flags.insert_all(Flags::from_flag(Flag::NoDefaultScheduler));
    assert_eq!(flags.into_inner(), 0x58);
    flags.retain_all(!Flags::from_flag(Flag::Blocking));
    assert_eq!(flags.into_inner(), 0x48);
    assert_eq!((flags & Flags::new(0x40)).into_inner(), 0x40);
}
