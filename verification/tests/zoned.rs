//! Zones.

use rblk::disk_storage::DiskStorage;
use rblk::error::{Errno, EINVAL, EIO};
use rblk::zoned::{
    init_zone_descriptors, ZoneCondition, ZoneOptions, ZoneOptionsArgs, ZoneType,
};

fn args() -> ZoneOptionsArgs {
    ZoneOptionsArgs {
        enable: true,
        device_capacity_mib: 8,
        block_size_bytes: 512,
        zone_size_mib: 1,
        zone_capacity_mib: 1,
        zone_nr_conv: 2,
        zone_max_open: 2,
        zone_max_active: 3,
        zone_append_max_sectors: 0x10_0000,
    }
}

fn counts(zones: &ZoneOptions) -> (u32, u32, u32) {
    let accounting = &zones.accounting;
    (accounting.implicit_open, accounting.explicit_open, accounting.closed)
}

#[test]
fn zones_are_laid_out() {
    let zones = ZoneOptions::new(args()).unwrap();
    assert_eq!(zones.zones.len(), 8);
    assert_eq!(zones.size_sectors, 2048);
    assert_eq!(zones.conventional_count, 2);
    assert_eq!((zones.max_open, zones.max_active), (2, 3));
    assert_eq!(zones.append_max_sectors, 2048);
    assert_eq!(zones.zones[0].kind, ZoneType::Conventional);
    assert_eq!(zones.zones[0].condition, ZoneCondition::NoWritePointer);
    assert_eq!(zones.zones[0].write_pointer, 2048);
    assert_eq!(zones.zones[3].kind, ZoneType::SequentialWriteRequired);
    assert_eq!(zones.zones[3].condition, ZoneCondition::Empty);
    assert_eq!(zones.zones[3].start_sector, 6144);
    assert_eq!(zones.zones[3].write_pointer, 6144);
    assert_eq!(zones.zones[3].capacity_sectors, 2048);
    assert_eq!(zones.zone_no(6143), 2);
    assert_eq!(zones.zone(6144), Ok(3));
    assert_eq!(zones.zone(8 * 2048), Err(Errno(EINVAL)));
    assert!(zones.use_accounting());
}

#[test]
fn the_size_of_a_zone_is_a_power_of_two_whatever_its_logarithm() {
    for shift in 0..6 {
        let zones = ZoneOptions::new(ZoneOptionsArgs {
            device_capacity_mib: 64,
            zone_size_mib: 1 << shift,
            zone_capacity_mib: 0,
            ..args()
        })
        .unwrap();
        assert_eq!(zones.zones.len(), 64 >> shift);
        assert_eq!(zones.zone_no((2048 << shift) as u64), 1);
        assert_eq!(zones.zone_no((2048 << shift) as u64 - 1), 0);
    }
}

#[test]
fn invalid_zones_are_refused() {
    let sizes = [(3, 0), (0, 0), (2, 3)];
    for (zone_size_mib, zone_capacity_mib) in sizes {
        let zones = ZoneOptions::new(ZoneOptionsArgs { zone_size_mib, zone_capacity_mib, ..args() });
        assert_eq!(zones.err(), Some(Errno(EINVAL)));
    }
    let zones = ZoneOptions::new(ZoneOptionsArgs { device_capacity_mib: 1 << 32, ..args() });
    assert_eq!(zones.err(), Some(Errno(EINVAL)));
}

#[test]
fn limits_are_adjusted() {
    let all = ZoneOptions::new(ZoneOptionsArgs { zone_nr_conv: 20, ..args() }).unwrap();
    assert_eq!(all.conventional_count, 7);
    assert_eq!((all.max_open, all.max_active), (0, 0));
    assert!(!all.use_accounting());
    let open = ZoneOptions::new(ZoneOptionsArgs { zone_max_open: 5, ..args() }).unwrap();
    assert_eq!((open.max_open, open.max_active), (3, 3));
    let partial = ZoneOptions::new(ZoneOptionsArgs { device_capacity_mib: 3, zone_size_mib: 2, ..args() })
        .unwrap();
    assert_eq!(partial.zones.len(), 2);
}

#[test]
fn appends_are_limited_to_whole_blocks_of_a_zone() {
    let limit = |zone_append_max_sectors, zone_capacity_mib, block_size_bytes| {
        let made = ZoneOptions::new(ZoneOptionsArgs {
            zone_append_max_sectors,
            zone_size_mib: 2,
            zone_capacity_mib,
            block_size_bytes,
            ..args()
        });
        made.unwrap().append_max_sectors
    };
    assert_eq!(limit(0x10_0000, 1, 512), 2048);
    assert_eq!(limit(0x10_0000, 0, 512), 4096);
    assert_eq!(limit(21, 1, 512), 21);
    assert_eq!(limit(21, 1, 4096), 16);
}

#[test]
fn descriptors_are_made() {
    let zones = init_zone_descriptors(100, 60, 3, 1).unwrap();
    assert_eq!(zones[0].capacity_sectors, 100);
    assert_eq!(zones[1].capacity_sectors, 60);
    assert_eq!(zones[2].start_sector, 200);
    assert_eq!(init_zone_descriptors(100, 0, 1, 0).unwrap()[0].capacity_sectors, 100);
}

#[test]
fn bounds_are_checked() {
    let mut zone = init_zone_descriptors(100, 60, 1, 0).unwrap()[0];
    assert_eq!(zone.check_bounds_write(50, 10), Ok(()));
    assert_eq!(zone.check_bounds_write(50, 11), Err(Errno(EIO)));
    zone.write_pointer = 10;
    assert_eq!(zone.check_bounds_read(0, 10), Ok(()));
    assert_eq!(zone.check_bounds_read(0, 11), Err(Errno(EIO)));
}

#[test]
fn zones_are_opened_closed_finished_and_reset() {
    let mut storage = DiskStorage::new(0, 512);
    let mut zones = ZoneOptions::new(args()).unwrap();
    assert_eq!(zones.open_zone(0), Err(Errno(EINVAL)));
    assert_eq!(zones.close_zone(0), Err(Errno(EINVAL)));
    assert_eq!(zones.finish_zone(0), Err(Errno(EINVAL)));
    assert_eq!(zones.open_zone(2), Ok(()));
    assert_eq!(zones.zones[2].condition, ZoneCondition::ExplicitOpen);
    assert_eq!(counts(&zones), (0, 1, 0));
    assert_eq!(zones.open_zone(2), Ok(()));
    assert_eq!(counts(&zones), (0, 1, 0));
    assert_eq!(zones.close_zone(2), Ok(()));
    assert_eq!(zones.zones[2].condition, ZoneCondition::Empty);
    assert_eq!(counts(&zones), (0, 0, 0));
    assert_eq!(zones.finish_zone(3), Ok(()));
    assert_eq!(zones.zones[3].condition, ZoneCondition::Full);
    assert_eq!(zones.zones[3].write_pointer, 8192);
    assert_eq!(zones.open_zone(3), Err(Errno(EIO)));
    assert_eq!(zones.reset_zone(&mut storage, 3), Ok(()));
    assert_eq!(zones.zones[3].condition, ZoneCondition::Empty);
    assert_eq!(zones.zones[3].write_pointer, 6144);
}

#[test]
fn writes_advance_the_write_pointer() {
    let mut zones = ZoneOptions::new(args()).unwrap();
    assert_eq!(zones.write_position(2, 4096, 8, false), Ok(4096));
    assert_eq!(zones.write_position(2, 4097, 8, false), Err(Errno(EINVAL)));
    assert_eq!(zones.write_position(2, 4096, 8, true), Ok(4096));
    assert_eq!(zones.begin_write(2), Ok(()));
    assert_eq!(counts(&zones), (1, 0, 0));
    zones.advance_write(2, 8);
    assert_eq!(zones.zones[2].write_pointer, 4104);
    assert_eq!(zones.write_position(2, 0, 8, true), Ok(4104));
    assert_eq!(zones.close_zone(2), Ok(()));
    assert_eq!(zones.zones[2].condition, ZoneCondition::Closed);
    assert_eq!(counts(&zones), (0, 0, 1));
    assert_eq!(zones.begin_write(2), Ok(()));
    zones.advance_write(2, 2040);
    assert_eq!(zones.zones[2].condition, ZoneCondition::Full);
    assert_eq!(counts(&zones), (0, 0, 0));
}

#[test]
fn limits_on_zones_are_kept() {
    let mut zones = ZoneOptions::new(args()).unwrap();
    for no in [2, 3] {
        assert_eq!(zones.begin_write(no), Ok(()));
        zones.advance_write(no, 8);
    }
    assert_eq!(counts(&zones), (2, 0, 0));
    // A zone that a write opened is closed to make room.
    assert_eq!(zones.begin_write(4), Ok(()));
    zones.advance_write(4, 8);
    assert_eq!(counts(&zones), (2, 0, 1));
    assert_eq!(zones.zones[2].condition, ZoneCondition::Closed);
    // Three zones are active.
    assert!(zones.begin_write(5).is_err());
    assert_eq!(zones.zones[5].condition, ZoneCondition::Empty);
    assert_eq!(counts(&zones), (2, 0, 1));
}

#[test]
fn zones_that_a_command_opened_are_not_closed() {
    let mut zones = ZoneOptions::new(args()).unwrap();
    assert_eq!(zones.open_zone(2), Ok(()));
    assert_eq!(zones.open_zone(3), Ok(()));
    assert!(zones.open_zone(4).is_err());
    assert_eq!(counts(&zones), (0, 2, 0));
}

#[test]
fn zones_go_offline_and_come_back() {
    let mut storage = DiskStorage::new(0, 512);
    let mut zones = ZoneOptions::new(args()).unwrap();
    assert_eq!(zones.offline_zone(&mut storage, 4), Ok(()));
    assert_eq!(zones.zones[4].condition, ZoneCondition::Offline);
    assert_eq!(zones.zones[4].write_pointer, u64::MAX);
    assert_eq!(zones.offline_zone(&mut storage, 4), Ok(()));
    assert_eq!(zones.zones[4].condition, ZoneCondition::Empty);
    assert_eq!(zones.zones[4].write_pointer, 8192);
    assert_eq!(zones.read_only_zone(&mut storage, 5), Ok(()));
    assert_eq!(zones.zones[5].condition, ZoneCondition::Offline);
}

#[test]
fn numbers_of_types_and_conditions() {
    assert_eq!(ZoneType::Conventional.as_raw(), 1);
    assert_eq!(ZoneType::SequentialWriteRequired.as_raw(), 2);
    assert_eq!(ZoneCondition::NoWritePointer.as_raw(), 0);
    assert_eq!(ZoneCondition::Empty.as_raw(), 1);
    assert_eq!(ZoneCondition::Closed.as_raw(), 4);
    assert_eq!(ZoneCondition::ReadOnly.as_raw(), 13);
    assert_eq!(ZoneCondition::Full.as_raw(), 14);
    assert_eq!(ZoneCondition::Offline.as_raw(), 15);
}
