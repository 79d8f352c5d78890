//! Configuration and creation of devices.

use rblk::bio::Segment;
use rblk::block::badblocks::BadBlocks;
use rblk::block::mq::tag_set::{QueueType, TagSet};
use rblk::configfs::badblocks::{read_lines, BadBlockOp};
use rblk::configfs::{Config, DeviceConfig, IRQMode};
use rblk::device::setup::{NullBlkOptions, NullBlkSettings, NullBlkTagsetData, TagRequest};
use rblk::device::{Memory, NullBlkDevice};
use rblk::disk_storage::DiskStorage;
use rblk::error::{Errno, EBUSY, EINVAL, EIO, ENOMEM};
use rblk::module::{ModuleParameters, NullBlkModule};
use std::cell::RefCell;

fn config() -> DeviceConfig {
    DeviceConfig::make_group(b"nullb0".to_vec(), 0).unwrap()
}

#[test]
fn completion_modes_are_numbers() {
    assert_eq!(IRQMode::try_from(2), Ok(IRQMode::Timer));
    assert_eq!(IRQMode::try_from(3), Err(Errno(EINVAL)));
    assert_eq!(IRQMode::from_str(b"1"), Ok(IRQMode::Soft));
    assert_eq!(IRQMode::from_str(b"x"), Err(Errno(EINVAL)));
    assert_eq!(IRQMode::from_str(b"256"), Err(Errno(EINVAL)));
    for mode in [IRQMode::Immediate, IRQMode::Soft, IRQMode::Timer] {
        assert_eq!(IRQMode::from_str(&mode.text()), Ok(mode));
    }
}

#[test]
fn new_configurations_have_defaults() {
    let config = config();
    assert_eq!(config.show_power(), b"0\n");
    assert_eq!(config.show_blocksize(), b"4096\n");
    assert_eq!(config.show_rotational(), b"false\n");
    assert_eq!(config.show_size(), b"4096\n");
    assert_eq!(config.show_irqmode(), b"0\n");
    assert_eq!(config.show_completion_nsec(), b"0\n");
    assert_eq!(config.show_memory_backed(), b"0\n");
    assert_eq!(config.show_submit_queues(), b"1\n");
    assert_eq!(config.show_use_per_node_hctx(1), b"true\n");
    assert_eq!(config.show_use_per_node_hctx(2), b"false\n");
    assert_eq!(config.show_home_node(), b"-1\n");
    assert_eq!(config.show_discard(), b"false\n");
    assert_eq!(config.show_no_sched(), b"0\n");
    assert_eq!(config.show_badblocks_once(), b"false\n");
    assert_eq!(config.show_badblocks_partial_io(), b"false\n");
    assert_eq!(config.show_cache_size_mib(), b"0\n");
    assert_eq!(config.show_mbps(), b"0\n");
    assert_eq!(config.show_blocking(), b"false\n");
    assert_eq!(config.show_shared_tags(), b"false\n");
    assert_eq!(config.show_hw_queue_depth(), b"64\n");
    assert_eq!(DeviceConfig::make_group(vec![], -12).err(), Some(Errno(ENOMEM)));
    assert_eq!(
        Config {}.show(),
        "blocksize,size,rotational,irqmode,completion_nsec,memory_backedsubmit_queues,\
         use_per_node_hctx,discard,blocking,shared_tags\n"
    );
}

#[test]
fn attributes_are_stored() {
    let mut config = config();
    assert_eq!(config.store_blocksize(b"512\n"), Ok(()));
    assert_eq!(config.show_blocksize(), b"512\n");
    assert_eq!(config.store_blocksize(b"513"), Err(Errno(EINVAL)));
    assert_eq!(config.store_blocksize(b"nonsense"), Err(Errno(EINVAL)));
    assert_eq!(config.show_blocksize(), b"512\n");
    assert_eq!(config.store_rotational(Ok(true)), Ok(()));
    assert_eq!(config.show_rotational(), b"true\n");
    assert_eq!(config.store_rotational(Err(Errno(EINVAL))), Err(Errno(EINVAL)));
    assert_eq!(config.store_size(b" 8 "), Ok(()));
    assert_eq!(config.show_size(), b"8\n");
    assert_eq!(config.store_irqmode(b"2\n"), Ok(()));
    assert_eq!(config.store_irqmode(b"3\n"), Err(Errno(EINVAL)));
    assert_eq!(config.show_irqmode(), b"2\n");
    assert_eq!(config.store_completion_nsec(b"-5"), Ok(()));
    assert_eq!(config.show_completion_nsec(), b"-5\n");
    assert_eq!(config.store_discard(Ok(true)), Err(Errno(EINVAL)));
    assert_eq!(config.store_memory_backed(b"7"), Ok(()));
    assert_eq!(config.show_memory_backed(), b"1\n");
    assert_eq!(config.store_memory_backed(b"256"), Err(Errno(EINVAL)));
    assert_eq!(config.store_discard(Ok(true)), Ok(()));
    assert_eq!(config.show_discard(), b"true\n");
    assert_eq!(config.store_submit_queues(b"0", 4), Err(Errno(EINVAL)));
    assert_eq!(config.store_submit_queues(b"5", 4), Err(Errno(EINVAL)));
    assert_eq!(config.store_submit_queues(b"3", 4), Ok(()));
    assert_eq!(config.store_use_per_node_hctx(b"0", 2), Ok(()));
    assert_eq!(config.store_use_per_node_hctx(b"0", u32::MAX), Ok(()));
    assert_eq!(config.show_submit_queues(), b"3\n");
    assert_eq!(config.store_use_per_node_hctx(b"1", 2), Ok(()));
    assert_eq!(config.show_submit_queues(), b"6\n");
    assert_eq!(config.store_home_node(b"0", 4), Err(Errno(EINVAL)));
    assert_eq!(config.store_home_node(b"4", 4), Err(Errno(EINVAL)));
    assert_eq!(config.store_home_node(b"3", 4), Ok(()));
    assert_eq!(config.show_home_node(), b"3\n");
    assert_eq!(config.store_no_sched(Ok(true)), Ok(()));
    assert_eq!(config.show_no_sched(), b"1\n");
    assert_eq!(config.store_badblocks_once(Ok(true)), Ok(()));
    assert_eq!(config.store_badblocks_partial_io(Ok(true)), Ok(()));
    assert_eq!(config.store_cache_size_mib(b"16"), Ok(()));
    let storage = config.disk_storage.as_ref().unwrap();
    assert_eq!((storage.cache_size, storage.block_size), (16, 512));
    assert_eq!(config.show_cache_size_mib(), b"16\n");
    assert_eq!(config.store_mbps(b"100"), Ok(()));
    assert_eq!(config.store_blocking(Ok(true)), Ok(()));
    assert_eq!(config.store_shared_tags(Ok(true)), Ok(()));
    assert_eq!(config.store_hw_queue_depth(b"32"), Ok(()));
    assert_eq!(config.show_hw_queue_depth(), b"32\n");
    assert_eq!(config.store_hw_queue_depth(b"4294967296"), Err(Errno(EINVAL)));
}

#[test]
fn shown_numbers_can_be_stored() {
    let mut config = config();
    for (shown, value) in [(config.show_size(), 4096), (config.show_hw_queue_depth(), 64)] {
        assert_eq!(config.store_size(&shown), Ok(()));
        assert_eq!(config.capacity_mib, value);
    }
}

/// What the host was asked for.
struct Asked {
    answers: (i32, i32, i32),
    seen: RefCell<Vec<String>>,
}

fn asked(answers: (i32, i32, i32)) -> Asked {
    Asked { answers, seen: RefCell::new(vec![]) }
}

impl Asked {
    fn note(&self, what: &str) {
        self.seen.borrow_mut().push(what.to_string());
    }

    fn power(&self, config: &mut DeviceConfig, requested: Result<bool, Errno>) -> Result<(), Errno> {
        config.store_power(
            requested,
            1,
            64,
            &mut None,
            &|_| {
                self.note("tags");
                self.answers.0
            },
            &|_| {
                self.note("disk");
                self.answers.1
            },
            &|_, _| {
                self.note("add");
                self.answers.2
            },
            |name| self.note(std::str::from_utf8(name).unwrap()),
        )
    }
}

#[test]
fn devices_that_exist_are_not_configured() {
    let mut config = config();
    config.store_mbps(b"3").unwrap();
    let settings = config.device_settings();
    assert_eq!(settings.bandwidth_limit, 3 << 20);
    assert_eq!((settings.block_size_bytes, settings.device_capacity_mib), (4096, 4096));
    assert_eq!((settings.hw_queue_depth, settings.submit_queues, settings.poll_queues), (64, 1, 0));
    let host = asked((0, 0, 0));
    assert_eq!(host.power(&mut config, Ok(true)), Ok(()));
    assert_eq!(*host.seen.borrow(), ["tags", "disk", "add"]);
    assert!(config.disk_storage.is_none());
    let disk = config.disk.as_ref().unwrap();
    assert_eq!(disk.name, b"nullb0");
    assert_eq!(disk.queue.queue_data.bandwidth_limit, (3 << 20) / 50);
    assert_eq!(disk.queue.queue_data.storage.block_size, 4096);
    assert_eq!(config.show_power(), b"1\n");
    assert_eq!(config.store_blocksize(b"512"), Err(Errno(EBUSY)));
    assert_eq!(config.store_rotational(Ok(true)), Err(Errno(EBUSY)));
    assert_eq!(config.store_rotational(Err(Errno(EINVAL))), Err(Errno(EBUSY)));
    assert_eq!(config.store_irqmode(b"9"), Err(Errno(EBUSY)));
    assert_eq!(config.store_discard(Ok(true)), Err(Errno(EBUSY)));
    assert_eq!(config.store_no_sched(Ok(true)), Err(Errno(EBUSY)));
    assert_eq!(config.store_cache_size_mib(b"1"), Err(Errno(EBUSY)));
    assert_eq!(config.store_home_node(b"0", 1), Err(Errno(EBUSY)));
    let unasked = asked((0, 0, 0));
    assert_eq!(unasked.power(&mut config, Ok(true)), Ok(()));
    assert_eq!(unasked.power(&mut config, Err(Errno(EINVAL))), Err(Errno(EINVAL)));
    assert!(config.powered && config.disk.is_some());
    assert!(unasked.seen.borrow().is_empty());
    let host = asked((0, 0, 0));
    assert_eq!(host.power(&mut config, Ok(false)), Ok(()));
    assert_eq!(*host.seen.borrow(), ["nullb0"]);
    assert_eq!(config.show_power(), b"0\n");
    assert!(config.disk.is_none());
    assert_eq!(config.disk_storage.as_ref().unwrap().block_size, 4096);
    assert_eq!(unasked.power(&mut config, Ok(false)), Ok(()));
    assert!(unasked.seen.borrow().is_empty());
}

#[test]
fn devices_that_cannot_be_created_leave_the_configuration_alone() {
    let refusals: [((i32, i32, i32), &[&str]); 3] = [
        ((-5, 0, 0), &["tags"]),
        ((0, -5, 0), &["tags", "disk"]),
        ((0, 0, -5), &["tags", "disk", "add"]),
    ];
    for (answers, seen) in refusals {
        let mut config = config();
        let host = asked(answers);
        assert_eq!(host.power(&mut config, Ok(true)), Err(Errno(EIO)));
        assert_eq!(*host.seen.borrow(), seen);
        assert!(!config.powered && config.disk.is_none() && config.disk_storage.is_some());
    }
    let mut config = config();
    config.home_node = 2;
    let host = asked((0, 0, 0));
    assert_eq!(host.power(&mut config, Ok(true)), Err(Errno(EINVAL)));
    assert!(host.seen.borrow().is_empty());
    assert!(!config.powered && config.disk.is_none() && config.disk_storage.is_some());
}

#[test]
fn data_survives_a_power_cycle() {
    let mut config = config();
    assert_eq!(config.store_memory_backed(b"1"), Ok(()));
    let host = asked((0, 0, 0));
    assert_eq!(host.power(&mut config, Ok(true)), Ok(()));
    let device = &mut config.disk.as_mut().unwrap().queue.queue_data;
    let mut segment = Segment::new(0, vec![7; 4096]);
    let written = NullBlkDevice::write(
        &mut device.storage, &mut None, &mut Memory { grants: 10 }, 4096, 8, &mut segment, false,
    );
    assert_eq!(written, Ok(()));
    assert_eq!(host.power(&mut config, Ok(false)), Ok(()));
    assert!(config.disk.is_none());
    assert_eq!(host.power(&mut config, Ok(true)), Ok(()));
    let mut segment = Segment::new(0, vec![0; 4096]);
    let storage = &config.disk.as_ref().unwrap().queue.queue_data.storage;
    assert_eq!(NullBlkDevice::read(storage, 8, &mut segment), Ok(()));
    assert_eq!(segment.into_data(), vec![7; 4096]);
}

#[test]
fn bad_blocks_reach_a_device_that_exists() {
    let mut config = config();
    let host = asked((0, 0, 0));
    assert_eq!(host.power(&mut config, Ok(true)), Ok(()));
    assert!(!config.disk.as_ref().unwrap().queue.queue_data.bad_blocks.enabled());
    assert_eq!(config.store_badblocks(b"+1-4\n", &|_, _, _| true, &|_, _| true), Ok(()));
    assert!(config.disk.as_ref().unwrap().queue.queue_data.bad_blocks.enabled());
    assert_eq!(host.power(&mut config, Ok(false)), Ok(()));
    assert!(config.bad_blocks.enabled());
}

#[test]
fn lines_tell_of_bad_blocks() {
    let op = |bad, start, end| BadBlockOp { bad, start, end };
    assert_eq!(read_lines(b"+1-5\n-3-3\r\n+7"), (vec![op(true, 1, 5), op(false, 3, 3)], true));
    assert_eq!(read_lines(b""), (vec![], true));
    assert_eq!(read_lines(b"\n"), (vec![], false));
    assert_eq!(read_lines(b"+1-5\nx\n+6-7"), (vec![op(true, 1, 5)], false));
    assert_eq!(read_lines(b"+5-1"), (vec![], false));
    assert_eq!(read_lines(b"+1-"), (vec![], false));
    assert_eq!(read_lines(b"++1-+2"), (vec![op(true, 1, 2)], true));
    assert_eq!(read_lines(b"+1-5\r"), (vec![], false));
}

#[test]
fn bad_blocks_are_stored() {
    let mut config = config();
    let seen = RefCell::new(vec![]);
    let set = |start: u64, count: u64, acknowledged: i32| {
        seen.borrow_mut().push(('+', start, count, acknowledged));
        start != 50
    };
    let clear = |start: u64, count: u64| {
        seen.borrow_mut().push(('-', start, count, 0));
        start != 60
    };
    assert_eq!(config.store_badblocks(b"+1\n", &set, &clear), Ok(()));
    assert!(!config.bad_blocks.enabled());
    assert_eq!(config.store_badblocks(b"+1-4\n-2-2\n", &set, &clear), Ok(()));
    assert!(config.bad_blocks.enabled());
    assert_eq!(config.store_badblocks(b"+7-7\n?", &set, &clear), Err(Errno(EINVAL)));
    assert_eq!(config.store_badblocks(b"+50-51\n+1-1", &set, &clear), Err(Errno(ENOMEM)));
    assert_eq!(config.store_badblocks(b"-60-61\n+1-1", &set, &clear), Err(Errno(EINVAL)));
    assert_eq!(config.store_badblocks(b"+1-1\n+2-\xff", &set, &clear), Err(Errno(EINVAL)));
    let expected =
        vec![('+', 1, 4, 1), ('-', 2, 1, 0), ('+', 7, 1, 1), ('+', 50, 2, 1), ('-', 60, 2, 0)];
    assert_eq!(*seen.borrow(), expected);
    assert_eq!(config.show_badblocks(|unacknowledged| 5 + unacknowledged as isize), Ok(5));
    assert_eq!(config.show_badblocks(|_| -5), Err(Errno(EIO)));
}

fn settings() -> NullBlkSettings {
    ModuleParameters::default().settings(1).unwrap()
}

fn options(settings: NullBlkSettings) -> NullBlkOptions {
    NullBlkOptions {
        name: b"disk".to_vec(),
        settings,
        bad_blocks: BadBlocks::new(false, 0).unwrap(),
        storage: DiskStorage::new(0, settings.block_size_bytes),
    }
}

fn create(settings: NullBlkSettings) -> Result<(), Errno> {
    NullBlkDevice::new(options(settings), 1, 64, &mut None, &|_| 0, &|_| 0, &|_, _| 0)
        .map(|_| ())
        .map_err(|failed| failed.error)
}

#[test]
fn parameters_have_defaults() {
    let settings = settings();
    assert_eq!(settings.device_capacity_mib, 4096);
    assert_eq!((settings.block_size_bytes, settings.completion_time), (4096, 10_000));
    assert_eq!((settings.home_node, settings.hw_queue_depth), (-1, 64));
    assert!(settings.forced_unit_access && !settings.zoned && !settings.memory_backed);
    assert_eq!(settings.zone_size_mib, 256);
    let per_node = ModuleParameters { use_per_node_hctx: 1, ..ModuleParameters::default() };
    assert_eq!(per_node.settings(7).unwrap().submit_queues, 7);
    let mode = ModuleParameters { irqmode: 3, ..ModuleParameters::default() };
    assert_eq!(mode.settings(1), Err(Errno(EINVAL)));
}

#[test]
fn devices_are_created() {
    let settings = NullBlkSettings {
        memory_backed: true,
        discard: true,
        bandwidth_limit: 5000,
        no_sched: true,
        poll_queues: 2,
        virt_boundary: true,
        max_sectors: 9,
        ..settings()
    };
    let asked = RefCell::new(None);
    let mut shared = None;
    let made = NullBlkDevice::new(
        options(settings),
        1,
        64,
        &mut shared,
        &|request| {
            *asked.borrow_mut() = Some(request);
            0
        },
        &|_| 0,
        &|_, _| 0,
    )
    .ok()
    .unwrap();
    let request = TagRequest { nr_hw_queues: 3, queue_depth: 64, nr_maps: 3, home_node: -1, flags: 0x50 };
    assert_eq!(*asked.borrow(), Some(request));
    assert!(shared.is_none());
    let tags = made.tag_set.unwrap();
    assert_eq!((tags.nr_hw_queues, tags.cmd_size, tags.maps.len()), (3, 64, 3));
    assert_eq!((tags.data.queue_config.submit_queues, tags.data.queue_config.poll_queues), (1, 2));
    let device = &made.queue.queue_data;
    assert_eq!(device.bandwidth_limit, 100);
    assert_eq!(device.completion_time, 10_000);
    assert_eq!(device.zoned.zones.len(), 16);
    assert_eq!(made.capacity_sectors, 4096 * 2048);
    assert_eq!(made.limits.max_hw_discard_sectors, 0x7f_ffff);
    assert_eq!(made.limits.virt_boundary_mask, 4095);
    assert_eq!(made.limits.max_sectors, 9);
    assert_eq!(made.limits.features.into_inner(), 0);
}

#[test]
fn caches_show_in_the_features() {
    let mut with_cache = options(settings());
    with_cache.storage = DiskStorage::new(8, 4096);
    let made = NullBlkDevice::new(with_cache, 1, 64, &mut None, &|_| 0, &|_| 0, &|_, _| 0);
    assert_eq!(made.ok().unwrap().limits.features.into_inner(), 3);
}

#[test]
fn invalid_devices_are_refused() {
    assert_eq!(create(settings()), Ok(()));
    assert_eq!(create(NullBlkSettings { home_node: 2, ..settings() }), Err(Errno(EINVAL)));
    assert_eq!(create(NullBlkSettings { home_node: 1, ..settings() }), Ok(()));
    assert_eq!(create(NullBlkSettings { zone_size_mib: 3, ..settings() }), Err(Errno(EINVAL)));
    assert_eq!(create(NullBlkSettings { block_size_bytes: 1000, ..settings() }), Err(Errno(EINVAL)));
    let mut named = options(settings());
    named.name = b"\xff".to_vec();
    let refused = NullBlkDevice::new(named, 1, 64, &mut None, &|_| 0, &|_| 0, &|_, _| 0);
    assert_eq!(refused.err().map(|failed| failed.error), Some(Errno(EINVAL)));
    let refused = NullBlkDevice::new(options(settings()), 1, 64, &mut None, &|_| -12, &|_| 0, &|_, _| 0);
    assert_eq!(refused.err().map(|failed| failed.error), Some(Errno(ENOMEM)));
    let refused = NullBlkDevice::new(options(settings()), 1, 64, &mut None, &|_| 0, &|_| -5, &|_, _| 0);
    assert_eq!(refused.err().map(|failed| failed.error), Some(Errno(EIO)));
    let refused = NullBlkDevice::new(options(settings()), 1, 64, &mut None, &|_| 0, &|_| 0, &|_, _| -5);
    assert_eq!(refused.err().map(|failed| failed.error), Some(Errno(EIO)));
}

#[test]
fn tag_sets_are_shared() {
    let shared_settings = NullBlkSettings { shared_tags: true, ..settings() };
    let mut shared: Option<TagSet<NullBlkTagsetData>> = None;
    let first = NullBlkDevice::new(
        options(shared_settings), 1, 64, &mut shared, &|_| 0, &|_| 0, &|_, _| 0,
    );
    assert!(first.ok().unwrap().tag_set.is_none());
    assert_eq!(shared.as_ref().unwrap().queue_depth, 64);
    let second = NullBlkDevice::new(
        options(NullBlkSettings { hw_queue_depth: 5, ..shared_settings }),
        1, 64, &mut shared, &|_| -12, &|_| 0, &|_, _| 0,
    );
    assert!(second.is_ok());
    assert_eq!(shared.as_ref().unwrap().queue_depth, 64);
}

#[test]
fn queues_are_laid_out() {
    let settings = NullBlkSettings { submit_queues: 4, poll_queues: 2, ..settings() };
    let made = NullBlkDevice::new(options(settings), 1, 64, &mut None, &|_| 0, &|_| 0, &|_, _| 0);
    let mut tags = made.ok().unwrap().tag_set.unwrap();
    NullBlkDevice::map_queues(&mut tags);
    let layout: Vec<_> = tags.maps.iter().map(|m| (m.kind, m.queue_offset, m.nr_queues)).collect();
    assert_eq!(
        layout,
        vec![(QueueType::Default, 0, 4), (QueueType::Read, 4, 0), (QueueType::Poll, 4, 2)]
    );
    assert!(tags.maps.iter().all(|map| map.mapped));
    tags.nr_hw_queues = 5;
    NullBlkDevice::map_queues(&mut tags);
    let layout: Vec<_> = tags.maps.iter().map(|m| (m.queue_offset, m.nr_queues)).collect();
    assert_eq!(layout, vec![(0, 1), (1, 0), (1, 0)]);
}

#[test]
fn the_module_creates_its_devices() {
    let params = ModuleParameters { nr_devices: 3, shared_tags: 1, ..ModuleParameters::default() };
    let init = |params| {
        NullBlkModule::init(params, 1, 64, &|| 0, &|_: TagRequest| 0, &|_| 0, &|_, _| 0)
    };
    let module = init(params).ok().unwrap();
    let names: Vec<_> = module.param_disks.iter().map(|d| d.name.clone()).collect();
    assert_eq!(names, vec![b"rnullb0".to_vec(), b"rnullb1".to_vec(), b"rnullb2".to_vec()]);
    assert!(module.shared_tags.is_some());
    let none = init(ModuleParameters { nr_devices: 0, irqmode: 9, ..params }).ok().unwrap();
    assert!(none.param_disks.is_empty());
    assert_eq!(init(ModuleParameters { irqmode: 9, ..params }).err(), Some(Errno(EINVAL)));
    assert_eq!(
        init(ModuleParameters { completion_nsec: 1 << 63, nr_devices: 0, ..params }).err(),
        Some(Errno(EINVAL))
    );
    let unasked = ModuleParameters { irqmode: 9, ..params };
    let refused = NullBlkModule::init(
        unasked, 1, 64, &|| panic!(), &|_: TagRequest| panic!(), &|_| panic!(), &|_, _| panic!(),
    );
    assert_eq!(refused.err(), Some(Errno(EINVAL)));
    let no_table = NullBlkModule::init(params, 1, 64, &|| -12, &|_: TagRequest| 0, &|_| 0, &|_, _| 0);
    assert_eq!(no_table.err(), Some(Errno(ENOMEM)));
}
