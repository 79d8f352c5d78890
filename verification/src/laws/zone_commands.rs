//! Laws on zone management, on reads of zones, on conventional zones and on new zones.

use crate::block::mq::command::Command;
use crate::block::mq::request::Request;
use crate::device::io::{io_state, IoConfig, IoState, Verdict};
use crate::device::readback::{
    addressable, holds_segments, request_traceable, sectors_from,
};
use crate::device::zoned::zone_state;
use crate::device::{Memory, NullBlkDevice};
use crate::disk_storage::page::NullBlockPage;
use crate::disk_storage::{DiskStorage, StorageState};
use crate::error::{Errno, Result, EINVAL, EIO};
use crate::laws::discard::{discardable, sectors_freed, starts_block, used};
use crate::laws::storage::{aligned_from, filled_from};
use crate::laws::zones::{
    closed_rightly, finished_rightly, fits, holds, is_open, opened_rightly,
    others_same, reset_rightly, same_shape,
};
use crate::zoned::{
    ZoneCondition, ZoneDescriptor, ZoneOptions, ZoneOptionsArgs, ZoneType, ZonesState,
};
use vstd::prelude::*;

verus! {

/// A zone can be neither written nor managed.
pub open spec fn out_of_service(zone: ZoneDescriptor) -> bool {
    zone.condition == ZoneCondition::ReadOnly || zone.condition == ZoneCondition::Offline
}

/// A zone command for zone number `no` was carried out on the zone that holds the sector of the
/// request, and on the storage only by a reset.
pub open spec fn managed_rightly(
    before: IoState,
    no: int,
    after: IoState,
    r: Result<()>,
) -> bool {
    let zone = before.zones.zones[no];
    if out_of_service(zone) {
        &&& r == Err::<(), Errno>(Errno(EIO))
        &&& after == before
    } else {
        match before.rq.command {
            Command::ZoneOpen => opened_rightly(before.zones, no, after.zones, r) && after.store
                == before.store,
            Command::ZoneClose => closed_rightly(before.zones, no, after.zones, r) && after.store
                == before.store,
            Command::ZoneFinish => finished_rightly(before.zones, no, after.zones, r)
                && after.store == before.store,
            Command::ZoneReset => {
                &&& reset_rightly(before.zones, no, after.zones, r)
                &&& r is Err ==> after.store == before.store
                &&& r is Ok && discardable(
                    before.store,
                    zone.start_sector as int,
                    zone.size_sectors as int,
                ) ==> sectors_freed(
                    before.store,
                    after.store,
                    zone.start_sector as int,
                    zone.size_sectors as int,
                )
            },
            _ => true,
        }
    }
}

/// The outcome of a zone command is right.
pub proof fn lemma_managed_rightly(s: IoState, no: int)
    requires
        s.zones.inv(),
        s.zones.can_count_closed(),
        0 <= no < s.zones.zones.len(),
        holds(s.zones.zones[no], s.rq.sector as int),
        s.rq.command != Command::ZoneResetAll,
    ensures
        managed_rightly(s, no, s.zones_managed().0, s.zones_managed().1),
{
    crate::laws::zones::lemma_zone_of(s.zones, no, s.rq.sector);
    crate::laws::zones::lemma_outcomes(s.zones, no);
    let first = s.zones.zones[no].start_sector;
    if discardable(s.store, first as int, s.zones.size_sectors as int) {
        crate::laws::discard::lemma_sectors_freed(s.store, first, s.zones.size_sectors);
    }
}

/// A zone command acts on the zone that holds the sector of the request.
pub proof fn lemma_zone_management(no: int, rq: Request)
    ensures
        forall|device: &mut NullBlkDevice, r: Result<()>|
            #[trigger] call_ensures(NullBlkDevice::zone_management, (device, &rq), r)
                && device.zoned.inv() && device.zoned@.can_count_closed() && 0 <= no
                < device.zoned@.zones.len()
                && holds(device.zoned@.zones[no], rq.sector as int)
                && rq.command != Command::ZoneResetAll ==> managed_rightly(
                zone_state(*device, rq),
                no,
                zone_state(*final(device), rq),
                r,
            ),
{
    assert forall|device: &mut NullBlkDevice, r: Result<()>|
        #[trigger] call_ensures(NullBlkDevice::zone_management, (device, &rq), r)
            && device.zoned.inv() && device.zoned@.can_count_closed() && 0 <= no
            < device.zoned@.zones.len()
            && holds(device.zoned@.zones[no], rq.sector as int)
            && rq.command != Command::ZoneResetAll implies managed_rightly(
        zone_state(*device, rq),
        no,
        zone_state(*final(device), rq),
        r,
    ) by {
        lemma_managed_rightly(zone_state(*device, rq), no);
    }
}

/// What happens to a read of zone number `no`: where the zone is offline or the read goes beyond the
/// write pointer it is refused and changes nothing; below the write pointer it succeeds where there
/// are no bad blocks, and changes neither zones nor storage.
pub open spec fn read_rightly(
    before: IoState,
    config: IoConfig,
    no: int,
    after: IoState,
    r: Result<()>,
) -> bool {
    let zone = before.zones.zones[no];
    let beyond = before.rq.sector + before.rq.sectors > zone.write_pointer;
    &&& after.zones == before.zones
    &&& after.store == before.store
    &&& zone.condition == ZoneCondition::Offline ==> r == Err::<(), Errno>(Errno(EINVAL)) && after
        == before
    &&& zone.condition != ZoneCondition::Offline && beyond ==> r == Err::<(), Errno>(Errno(EIO))
        && after == before
    &&& zone.condition != ZoneCondition::Offline && !beyond && !config.bad_blocks ==> {
        let sector = before.rq.sector as int;
        &&& r is Ok
        &&& after.rq.error == before.rq.error
        &&& config.memory_backed && aligned_from(before.rq.segs, 0, sector) && sectors_from(
            before.rq.segs,
            0,
        ) <= before.rq.sectors && addressable(sector + before.rq.sectors) ==> filled_from(
            before.store,
            sector,
            before.rq.segs,
            after.rq.segs,
            0,
        )
    }
}

/// Reading leaves the storage alone and succeeds.
pub proof fn lemma_read_frame(s: IoState, config: IoConfig, i: int, sector: int, end: int)
    requires
        0 <= i,
    ensures
        s.segments_transferred(config, Command::Read, i, sector, end).0.store == s.store,
        s.segments_transferred(config, Command::Read, i, sector, end).1 is Ok,
    decreases s.rq.segs.len() - i,
{
    if i < s.rq.segs.len() {
        let state = s.segment_transferred(config, Command::Read, i, sector).0;
        let next = sector + crate::device::io::advance_len(s.rq.segs[i], end - sector) / 512;
        if next < end && state.rq.segs.len() == s.rq.segs.len() {
            lemma_read_frame(state, config, i + 1, next, end);
        }
    }
}

pub proof fn lemma_read_rightly(s: IoState, config: IoConfig, v: Verdict, no: int)
    requires
        s.inv(),
        s.rq.command == Command::Read,
        0 <= no < s.zones.zones.len(),
        holds(s.zones.zones[no], s.rq.sector as int),
        0 < config.block_size <= 4096,
        !config.bad_blocks && s.read_checked_from() is Some ==> v == (Verdict {
            error: false,
            sectors: s.rq.sectors,
            result: Ok(()),
        }),
    ensures
        read_rightly(s, config, no, s.zone_read(config, v).0, s.zone_read(config, v).1),
{
    crate::laws::zones::lemma_zone_of(s.zones, no, s.rq.sector);
    let j = s.judged(v);
    lemma_read_frame(j, config, 0, s.rq.sector as int, s.rq.sector + v.sectors);
    crate::device::zoned::lemma_transfer_frame(
        j,
        config,
        Command::Read,
        0,
        s.rq.sector as int,
        s.rq.sector + v.sectors,
    );
    if !config.bad_blocks && s.read_checked_from() is Some {
        crate::laws::storage::lemma_regular_rightly(s, config);
    }
}

/// What is below the write pointer of a zone can be read, and nothing else.
pub proof fn lemma_zoned_read<
    L: FnOnce(u64, u64) -> (i32, u64, u64),
    G: FnOnce(u64, u64) -> bool,
>(no: int, lookup: L, clear: G)
    ensures
        forall|
            device: &mut NullBlkDevice,
            spare: &mut Option<NullBlockPage>,
            memory: &mut Memory,
            rq: &mut Request,
            r: Result<()>,
        |
            #[trigger] call_ensures(
                NullBlkDevice::zoned_read::<L, G>,
                (device, spare, memory, rq, lookup, clear),
                r,
            ) && device.inv() && io_state(*device, *spare, *memory, *rq).inv() && 0 <= no
                < device.zoned@.zones.len()
                && holds(device.zoned@.zones[no], rq.sector as int)
                && rq.command == Command::Read ==> read_rightly(
                io_state(*device, *spare, *memory, *rq),
                device.config(),
                no,
                io_state(*final(device), *final(spare), *final(memory), *final(rq)),
                r,
            ),
{
    assert forall|
            device: &mut NullBlkDevice,
            spare: &mut Option<NullBlockPage>,
            memory: &mut Memory,
            rq: &mut Request,
            r: Result<()>,
    |
        #[trigger] call_ensures(
                NullBlkDevice::zoned_read::<L, G>,
                (device, spare, memory, rq, lookup, clear),
                r,
            ) && device.inv() && io_state(*device, *spare, *memory, *rq).inv() && 0 <= no
                < device.zoned@.zones.len()
                && holds(device.zoned@.zones[no], rq.sector as int)
                && rq.command == Command::Read implies read_rightly(
                io_state(*device, *spare, *memory, *rq),
                device.config(),
                no,
                io_state(*final(device), *final(spare), *final(memory), *final(rq)),
                r,
            ) by {
        let s = io_state(*device, *spare, *memory, *rq);
        let config = device.config();
        let t = io_state(*final(device), *final(spare), *final(memory), *final(rq));
        let v = choose|v: Verdict|
            {
                &&& s.read_checked_from() matches Some(start) ==> crate::device::io::judged(
                    config,
                    start,
                    rq.sectors,
                    lookup,
                    clear,
                    v,
                )
                &&& (t, r) == #[trigger] s.zone_read(config, v)
            };
        lemma_read_rightly(s, config, v, no);
    }
}

/// The same holds of a read that comes as a request for a zoned device.
pub proof fn lemma_zoned_read_command<
    L: FnOnce(u64, u64) -> (i32, u64, u64),
    G: FnOnce(u64, u64) -> bool,
>(no: int, lookup: L, clear: G)
    ensures
        forall|
            device: &mut NullBlkDevice,
            spare: &mut Option<NullBlockPage>,
            memory: &mut Memory,
            rq: &mut Request,
            r: Result<()>,
        |
            #[trigger] call_ensures(
                NullBlkDevice::handle_zoned_command::<L, G>,
                (device, spare, memory, rq, lookup, clear),
                r,
            ) && device.inv() && io_state(*device, *spare, *memory, *rq).inv() && 0 <= no
                < device.zoned@.zones.len()
                && holds(device.zoned@.zones[no], rq.sector as int)
                && rq.command == Command::Read ==> read_rightly(
                io_state(*device, *spare, *memory, *rq),
                device.config(),
                no,
                io_state(*final(device), *final(spare), *final(memory), *final(rq)),
                r,
            ),
{
    assert forall|
            device: &mut NullBlkDevice,
            spare: &mut Option<NullBlockPage>,
            memory: &mut Memory,
            rq: &mut Request,
            r: Result<()>,
    |
        #[trigger] call_ensures(
                NullBlkDevice::handle_zoned_command::<L, G>,
                (device, spare, memory, rq, lookup, clear),
                r,
            ) && device.inv() && io_state(*device, *spare, *memory, *rq).inv() && 0 <= no
                < device.zoned@.zones.len()
                && holds(device.zoned@.zones[no], rq.sector as int)
                && rq.command == Command::Read implies read_rightly(
                io_state(*device, *spare, *memory, *rq),
                device.config(),
                no,
                io_state(*final(device), *final(spare), *final(memory), *final(rq)),
                r,
            ) by {
        let s = io_state(*device, *spare, *memory, *rq);
        let config = device.config();
        let t = io_state(*final(device), *final(spare), *final(memory), *final(rq));
        let v = choose|v: Verdict|
            {
                &&& s.zoned_checked_from() matches Some(start) ==> crate::device::io::judged(
                    config,
                    start,
                    rq.sectors,
                    lookup,
                    clear,
                    v,
                )
                &&& (t, r) == #[trigger] s.zoned(config, v)
            };
        lemma_read_rightly(s, config, v, no);
    }
}

/// What happens to a write to conventional zone number `no`: an append is refused, and so is a write
/// beyond the zone; any other write succeeds where there is memory and no bad block. The zones stay
/// as they were.
pub open spec fn conventional_rightly(
    before: IoState,
    config: IoConfig,
    no: int,
    after: IoState,
    r: Result<()>,
) -> bool {
    let zone = before.zones.zones[no];
    let beyond = before.rq.sector + before.rq.sectors > zone.start_sector + zone.capacity_sectors;
    &&& after.zones == before.zones
    &&& before.rq.command == Command::ZoneAppend ==> r == Err::<(), Errno>(Errno(EINVAL)) && after
        == before
    &&& before.rq.command == Command::Write && beyond ==> r == Err::<(), Errno>(Errno(EIO))
        && after == before
    &&& before.rq.command == Command::Write && !beyond && !config.bad_blocks && before.grants >= 2
        * crate::laws::frames::bytes_from(before.rq.segs, 0) ==> r is Ok && after.rq.error
        == before.rq.error && after.rq.sector == before.rq.sector && (request_traceable(
        config,
        before,
        0,
        before.rq.sector as int,
        before.rq.sector + before.rq.sectors,
    ) ==> holds_segments(after.store, before.rq.sector as int, before.rq.segs, 0))
}

pub proof fn lemma_conventional_rightly(s: IoState, config: IoConfig, v: Verdict, no: int)
    requires
        s.inv(),
        s.rq.command == Command::Write || s.rq.command == Command::ZoneAppend,
        0 <= no < s.zones.zones.len(),
        s.zones.zones[no].kind == ZoneType::Conventional,
        holds(s.zones.zones[no], s.rq.sector as int),
        0 < config.block_size <= 4096,
        !config.bad_blocks && s.write_checked_from() is Some ==> v == (Verdict {
            error: false,
            sectors: s.rq.sectors,
            result: Ok(()),
        }),
    ensures
        conventional_rightly(
            s,
            config,
            no,
            s.zone_written(config, v).0,
            s.zone_written(config, v).1,
        ),
{
    crate::laws::zones::lemma_zone_of(s.zones, no, s.rq.sector);
    let j = s.judged(v);
    assert forall|i: int| 0 <= i < j.rq.segs.len() implies #[trigger] j.rq.segs[i].inv() by {
        assert(s.rq.segs[i].inv());
    }
    if s.grants >= 2 * crate::laws::frames::bytes_from(s.rq.segs, 0) {
        crate::laws::frames::lemma_transfer_memory(
            j,
            config,
            s.rq.command,
            0,
            s.rq.sector as int,
            s.rq.sector + v.sectors,
        );
        let end = s.rq.sector + s.rq.sectors;
        if s.rq.command == Command::Write && !config.bad_blocks && s.write_checked_from() is Some
            && request_traceable(config, s, 0, s.rq.sector as int, end) {
            crate::device::readback::lemma_segments_held(config, j, 0, s.rq.sector as int, end);
        }
    }
    crate::device::zoned::lemma_transfer_frame(
        j,
        config,
        s.rq.command,
        0,
        s.rq.sector as int,
        s.rq.sector + v.sectors,
    );
}

/// A conventional zone accepts any write that stays in it, and no append.
pub proof fn lemma_conventional_write<
    L: FnOnce(u64, u64) -> (i32, u64, u64),
    G: FnOnce(u64, u64) -> bool,
>(no: int, lookup: L, clear: G)
    ensures
        forall|
            device: &mut NullBlkDevice,
            spare: &mut Option<NullBlockPage>,
            memory: &mut Memory,
            rq: &mut Request,
            r: Result<()>,
        |
            #[trigger] call_ensures(
                NullBlkDevice::zoned_write::<L, G>,
                (device, spare, memory, rq, lookup, clear),
                r,
            ) && device.inv() && io_state(*device, *spare, *memory, *rq).inv() && 0 <= no
                < device.zoned@.zones.len()
                && holds(device.zoned@.zones[no], rq.sector as int)
                && device.zoned@.zones[no].kind
                == ZoneType::Conventional && (rq.command == Command::Write || rq.command
                == Command::ZoneAppend) ==> conventional_rightly(
                io_state(*device, *spare, *memory, *rq),
                device.config(),
                no,
                io_state(*final(device), *final(spare), *final(memory), *final(rq)),
                r,
            ),
{
    assert forall|
            device: &mut NullBlkDevice,
            spare: &mut Option<NullBlockPage>,
            memory: &mut Memory,
            rq: &mut Request,
            r: Result<()>,
    |
        #[trigger] call_ensures(
                NullBlkDevice::zoned_write::<L, G>,
                (device, spare, memory, rq, lookup, clear),
                r,
            ) && device.inv() && io_state(*device, *spare, *memory, *rq).inv() && 0 <= no
                < device.zoned@.zones.len()
                && holds(device.zoned@.zones[no], rq.sector as int)
                && device.zoned@.zones[no].kind
                == ZoneType::Conventional && (rq.command == Command::Write || rq.command
                == Command::ZoneAppend) implies conventional_rightly(
                io_state(*device, *spare, *memory, *rq),
                device.config(),
                no,
                io_state(*final(device), *final(spare), *final(memory), *final(rq)),
                r,
            ) by {
        let s = io_state(*device, *spare, *memory, *rq);
        let config = device.config();
        let t = io_state(*final(device), *final(spare), *final(memory), *final(rq));
        let v = choose|v: Verdict|
            {
                &&& s.write_checked_from() matches Some(start) ==> crate::device::io::judged(
                    config,
                    start,
                    rq.sectors,
                    lookup,
                    clear,
                    v,
                )
                &&& (t, r) == #[trigger] s.zone_written(config, v)
            };
        lemma_conventional_rightly(s, config, v, no);
    }
}

/// The sectors of all zones can be discarded.
pub open spec fn zones_discardable(s: IoState) -> bool {
    forall|i: int|
        0 <= i < s.zones.zones.len() ==> discardable(
            s.store,
            #[trigger] s.zones.zones[i].start_sector as int,
            s.zones.size_sectors as int,
        )
}

/// Resetting zones leaves no block of a zone that was reset in use.
proof fn lemma_reset_frees(s: IoState, no: int, i: int, t: int)
    requires
        s.zones.inv(),
        zones_discardable(s),
        0 <= no,
        0 <= i < s.zones.zones.len(),
        addressable(t),
    ensures
        ({
            let after = s.zones_reset(no).0.store;
            &&& !used(s.store.disk, t) ==> !used(after.disk, t)
            &&& s.store.cache_size > 0 && !used(s.store.cache, t) ==> !used(after.cache, t)
            &&& i >= no && !s.reset_skips(i) && starts_block(
                s.zones.zones[i].start_sector as int,
                s.zones.size_sectors as int,
                s.store.block_size as int,
                t,
            ) ==> !used(after.disk, t) && (s.store.cache_size > 0 ==> !used(after.cache, t))
        }),
    decreases s.zones.zones.len() - no,
{
    if no < s.zones.zones.len() {
        assert(s.zones.zone_placed(no));
        assert(s.zones.zone_placed(i));
        if s.reset_skips(no) {
            lemma_reset_frees(s, no + 1, i, t);
        } else {
            crate::zoned::lemma_reset_keeps(s.zones, no);
            let next = s.zone_reset(no).0;
            let first = s.zones.zones[no].start_sector;
            assert(discardable(s.store, first as int, s.zones.size_sectors as int));
            crate::laws::discard::lemma_sectors_freed(s.store, first, s.zones.size_sectors);
            assert(sectors_freed(
                s.store,
                next.store,
                first as int,
                s.zones.size_sectors as int,
            ));
            assert(used(next.store.disk, t) ==> used(s.store.disk, t));
            assert(s.store.cache_size > 0 && used(next.store.cache, t) ==> used(s.store.cache, t));
            assert(zones_discardable(next)) by {
                assert forall|k: int| 0 <= k < next.zones.zones.len() implies discardable(
                    next.store,
                    #[trigger] next.zones.zones[k].start_sector as int,
                    next.zones.size_sectors as int,
                ) by {
                    assert(discardable(
                        s.store,
                        s.zones.zones[k].start_sector as int,
                        s.zones.size_sectors as int,
                    ));
                }
            }
            lemma_reset_frees(next, no + 1, i, t);
        }
    }
}

/// What resetting all zones does to zone number `i`.
pub open spec fn all_reset(before: IoState, after: IoState, i: int) -> bool {
    let zone = before.zones.zones[i];
    if zone.kind == ZoneType::Conventional || out_of_service(zone) {
        after.zones.zones[i] == zone
    } else {
        &&& after.zones.zones[i].condition == ZoneCondition::Empty
        &&& after.zones.zones[i].write_pointer == zone.start_sector
        &&& zone.condition != ZoneCondition::Empty && zones_discardable(before) ==> forall|t: int|
            addressable(t) && starts_block(
                zone.start_sector as int,
                before.zones.size_sectors as int,
                before.store.block_size as int,
                t,
            ) ==> !#[trigger] used(after.store.disk, t) && (before.store.cache_size > 0 ==> !used(
                after.store.cache,
                t,
            ))
    }
}

/// The outcome of resetting all zones is right.
pub proof fn lemma_all_reset(s: IoState)
    requires
        s.zones.inv(),
    ensures
        s.zones_reset(0).1 is Ok,
        s.zones_reset(0).0.zones.zones.len() == s.zones.zones.len(),
        forall|i: int|
            0 <= i < s.zones.zones.len() ==> #[trigger] all_reset(s, s.zones_reset(0).0, i),
{
    let after = s.zones_reset(0).0;
    crate::device::zoned::lemma_reset_all(s, 0, s.zones.conventional_count as int);
    assert forall|i: int| 0 <= i < s.zones.zones.len() implies #[trigger] all_reset(
        s,
        after,
        i,
    ) by {
        assert(s.zones.zone_placed(i));
        crate::device::zoned::lemma_reset_all(s, 0, i);
        if zones_discardable(s) && !s.reset_skips(i) {
            assert forall|t: int|
                addressable(t) && starts_block(
                    s.zones.zones[i].start_sector as int,
                    s.zones.size_sectors as int,
                    s.store.block_size as int,
                    t,
                ) implies !#[trigger] used(after.store.disk, t) && (s.store.cache_size > 0 ==> !used(
                after.store.cache,
                t,
            )) by {
                lemma_reset_frees(s, 0, i, t);
            }
        }
    }
}

/// Resetting all zones empties every sequential zone that is in service and frees its blocks, and
/// leaves all other zones alone.
pub proof fn lemma_reset_all_zones(rq: Request)
    ensures
        forall|device: &mut NullBlkDevice, r: Result<()>|
            #[trigger] call_ensures(NullBlkDevice::zone_management, (device, &rq), r)
                && device.zoned.inv() && rq.command == Command::ZoneResetAll ==> {
                &&& r is Ok
                &&& final(device).zoned@.zones.len() == device.zoned@.zones.len()
                &&& forall|i: int|
                    0 <= i < device.zoned@.zones.len() ==> #[trigger] all_reset(
                        zone_state(*device, rq),
                        zone_state(*final(device), rq),
                        i,
                    )
            },
{
    assert forall|device: &mut NullBlkDevice, r: Result<()>|
        #[trigger] call_ensures(NullBlkDevice::zone_management, (device, &rq), r)
            && device.zoned.inv() && rq.command == Command::ZoneResetAll implies {
        &&& r is Ok
        &&& final(device).zoned@.zones.len() == device.zoned@.zones.len()
        &&& forall|i: int|
            0 <= i < device.zoned@.zones.len() ==> #[trigger] all_reset(
                zone_state(*device, rq),
                zone_state(*final(device), rq),
                i,
            )
    } by {
        let s = zone_state(*device, rq);
        lemma_all_reset(s);
        assert(zone_state(*final(device), rq) == s.zones_reset(0).0);
    }
}

/// Advancing the write pointer after a write moves it by the sectors, and a zone without room is
/// full.
pub proof fn lemma_advance_write(no: usize, sectors: u32)
    ensures
        forall|zones: &mut ZoneOptions|
            #[trigger] call_ensures(ZoneOptions::advance_write, (zones, no, sectors), ())
                && zones.inv() && no < zones@.zones.len() && fits(
                zones@.zones[no as int],
                sectors as int,
            ) && is_open(zones@.zones[no as int]) ==> {
                &&& crate::laws::zones::advanced(
                    zones@.zones[no as int],
                    final(zones)@.zones[no as int],
                    sectors as int,
                )
                &&& others_same(zones@.zones, final(zones)@.zones, no as int)
            },
{
    assert forall|zones: &mut ZoneOptions|
        #[trigger] call_ensures(ZoneOptions::advance_write, (zones, no, sectors), ())
            && zones.inv() && no < zones@.zones.len() && fits(
            zones@.zones[no as int],
            sectors as int,
        ) && is_open(zones@.zones[no as int]) implies {
        &&& crate::laws::zones::advanced(
            zones@.zones[no as int],
            final(zones)@.zones[no as int],
            sectors as int,
        )
        &&& others_same(zones@.zones, final(zones)@.zones, no as int)
    } by {
        crate::zoned::lemma_zone_fits(zones@, no as int);
    }
}

/// Taking a zone out of service, or bringing it back where it was in that condition.
pub open spec fn toggled(
    zones: ZonesState,
    storage: StorageState,
    no: int,
    condition: ZoneCondition,
    zones_after: ZonesState,
    storage_after: StorageState,
    r: Result<()>,
) -> bool {
    let before = zones.zones[no];
    let after = zones_after.zones[no];
    if before.condition == condition {
        &&& r is Ok
        &&& others_same(zones.zones, zones_after.zones, no)
        &&& same_shape(before, after)
        &&& after.condition == ZoneCondition::Empty
        &&& after.write_pointer == before.start_sector
        &&& discardable(storage, before.start_sector as int, zones.size_sectors as int)
            ==> sectors_freed(
            storage,
            storage_after,
            before.start_sector as int,
            zones.size_sectors as int,
        )
    } else {
        &&& storage_after == storage
        &&& !out_of_service(before) ==> {
            &&& r is Ok
            &&& others_same(zones.zones, zones_after.zones, no)
            &&& same_shape(before, after)
            &&& after.condition == ZoneCondition::Offline
            &&& !fits(after, 1)
        }
    }
}

proof fn lemma_toggled(zones: ZonesState, storage: StorageState, no: int)
    requires
        zones.inv(),
        0 <= no < zones.zones.len(),
    ensures
        zones.zone_placed(no),
        zones.zones[no].limit() <= u64::MAX,
        discardable(storage, zones.zones[no].start_sector as int, zones.size_sectors as int)
            ==> sectors_freed(
            storage,
            storage.sectors_discarded(zones.zones[no].start_sector, zones.size_sectors),
            zones.zones[no].start_sector as int,
            zones.size_sectors as int,
        ),
{
    crate::zoned::lemma_zone_fits(zones, no);
    if discardable(storage, zones.zones[no].start_sector as int, zones.size_sectors as int) {
        crate::laws::discard::lemma_sectors_freed(
            storage,
            zones.zones[no].start_sector,
            zones.size_sectors,
        );
    }
}

/// Taking a zone offline leaves nothing that could be written; a zone that is offline comes back
/// empty, with its sectors free.
pub proof fn lemma_offline(no: usize)
    ensures
        forall|zones: &mut ZoneOptions, storage: &mut DiskStorage, r: Result<()>|
            #[trigger] call_ensures(ZoneOptions::offline_zone, (zones, storage, no), r) && zones.inv()
                && no < zones@.zones.len() ==> toggled(
                zones@,
                storage@,
                no as int,
                ZoneCondition::Offline,
                final(zones)@,
                final(storage)@,
                r,
            ),
{
    assert forall|zones: &mut ZoneOptions, storage: &mut DiskStorage, r: Result<()>|
        #[trigger] call_ensures(ZoneOptions::offline_zone, (zones, storage, no), r) && zones.inv()
                && no < zones@.zones.len() implies toggled(
                zones@,
                storage@,
                no as int,
                ZoneCondition::Offline,
                final(zones)@,
                final(storage)@,
                r,
            ) by {
        lemma_toggled(zones@, storage@, no as int);
    }
}

/// Taking a zone out of service leaves nothing that could be written; a zone that is read-only comes
/// back empty, with its sectors free.
pub proof fn lemma_read_only(no: usize)
    ensures
        forall|zones: &mut ZoneOptions, storage: &mut DiskStorage, r: Result<()>|
            #[trigger] call_ensures(ZoneOptions::read_only_zone, (zones, storage, no), r) && zones.inv()
                && no < zones@.zones.len() ==> toggled(
                zones@,
                storage@,
                no as int,
                ZoneCondition::ReadOnly,
                final(zones)@,
                final(storage)@,
                r,
            ),
{
    assert forall|zones: &mut ZoneOptions, storage: &mut DiskStorage, r: Result<()>|
        #[trigger] call_ensures(ZoneOptions::read_only_zone, (zones, storage, no), r) && zones.inv()
                && no < zones@.zones.len() implies toggled(
                zones@,
                storage@,
                no as int,
                ZoneCondition::ReadOnly,
                final(zones)@,
                final(storage)@,
                r,
            ) by {
        lemma_toggled(zones@, storage@, no as int);
    }
}

/// The zones of a new device: they lie one after the other and cover the device, the last one ends
/// at its end or behind it; conventional zones come first and leave at least one sequential zone;
/// nothing is written to a sequential zone, all of whose capacity can be written.
pub proof fn lemma_new_zones(args: ZoneOptionsArgs, zones: ZoneOptions)
    requires
        args.computable(),
        call_ensures(ZoneOptions::new, (args,), Ok::<ZoneOptions, Errno>(zones)),
    ensures
        ({
            let size = args.zone_size_mib * 2048;
            let count = zones@.zones.len() as int;
            let conventional = zones.conventional_count as int;
            &&& zones.size_sectors == size
            &&& (count - 1) * size < args.device_sectors() <= count * size
            &&& conventional < count
            &&& conventional == args.zone_nr_conv || args.zone_nr_conv > conventional == count - 1
            &&& zones.enabled == args.enable
            &&& forall|i: int|
                0 <= i < count ==> {
                    let zone = #[trigger] zones@.zones[i];
                    &&& zone.start_sector == i * size
                    &&& zone.size_sectors == size
                    &&& i < conventional ==> zone.kind == ZoneType::Conventional
                        && zone.capacity_sectors == size && zone.write_pointer == i * size + size
                    &&& i >= conventional ==> {
                        &&& zone.kind == ZoneType::SequentialWriteRequired
                        &&& zone.condition == ZoneCondition::Empty
                        &&& zone.write_pointer == zone.start_sector
                        &&& args.zone_capacity_mib == 0 ==> zone.capacity_sectors == size
                        &&& args.zone_capacity_mib != 0 ==> zone.capacity_sectors
                            == args.zone_capacity_mib * 2048
                    }
                }
        }),
{
    let size = args.zone_size_mib * 2048;
    let sectors = args.device_sectors();
    let e: nat = choose|e: nat|
        args.zone_size_mib == #[trigger] vstd::arithmetic::power2::pow2(e);
    vstd::arithmetic::power2::lemma_pow2_pos(e);
    crate::util::lemma_rounding(sectors, size);
    let q = (sectors + size - 1) / size;
    vstd::arithmetic::div_mod::lemma_div_multiples_vanish(q, size);
    assert(size * q == q * size) by (nonlinear_arith);
    assert(args.zone_count() == q);
    assert((q - 1) * size == q * size - size) by (nonlinear_arith);
    assert(q >= 1) by (nonlinear_arith)
        requires
            q * size >= sectors,
            sectors > 0,
            size > 0,
    ;
    assert forall|i: int| 0 <= i < q implies 0 <= #[trigger] (i * size) <= u64::MAX - size by {
        assert(0 <= i * size <= u64::MAX - size) by (nonlinear_arith)
            requires
                0 <= i < q,
                q <= u32::MAX,
                0 < size <= u32::MAX,
        ;
    }
}

/// Limits of a new device stand where they can be exceeded: a limit on active zones that is below
/// the number of sequential zones is kept, and the limit on open zones is not above it.
pub proof fn lemma_new_limits(args: ZoneOptionsArgs, zones: ZoneOptions)
    requires
        args.computable(),
        call_ensures(ZoneOptions::new, (args,), Ok::<ZoneOptions, Errno>(zones)),
    ensures
        ({
            let sequential = zones@.zones.len() - zones.conventional_count;
            &&& args.zone_max_active < sequential ==> zones.max_active == args.zone_max_active
            &&& args.zone_max_active >= sequential ==> zones.max_active == 0
            &&& args.zone_max_open < sequential && (zones.max_active == 0 || args.zone_max_open
                <= zones.max_active) ==> zones.max_open == args.zone_max_open
            &&& zones.max_active != 0 ==> zones.max_open <= zones.max_active
            &&& zones.max_active != 0 && args.zone_max_open > zones.max_active ==> zones.max_open
                == zones.max_active
            &&& zones.max_open < sequential
        }),
{
    lemma_new_zones(args, zones);
}

} // verus!
