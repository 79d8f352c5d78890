//! Laws on zones: where writes are accepted, what they need, and what is reported.

use crate::block::mq::command::Command;
use crate::block::mq::request::Request;
use crate::device::io::{io_state, IoConfig, IoState, Verdict};
use crate::device::readback::{holds_segments, request_traceable};
use crate::device::zoned::ZoneReport;
use crate::device::{Memory, NullBlkDevice};
use crate::disk_storage::page::NullBlockPage;
use crate::disk_storage::DiskStorage;
use crate::error::{Errno, Result, EBUSY, EINVAL, EIO};
use crate::laws::discard::{discardable, sectors_freed};
use crate::laws::frames::bytes_from;
use crate::zoned::{
    count_in, exact, ZoneCondition, ZoneDescriptor, ZoneOptions, ZoneType, ZonesState,
};
use vstd::prelude::*;

verus! {

/// A zone is open, by a write or by a command.
pub open spec fn is_open(zone: ZoneDescriptor) -> bool {
    zone.condition == ZoneCondition::ImplicitOpen || zone.condition == ZoneCondition::ExplicitOpen
}

/// A zone holds a sector.
pub open spec fn holds(zone: ZoneDescriptor, sector: int) -> bool {
    zone.start_sector <= sector < zone.start_sector + zone.size_sectors
}

/// So many sectors can still be written to a zone.
pub open spec fn fits(zone: ZoneDescriptor, sectors: int) -> bool {
    zone.write_pointer + sectors <= zone.start_sector + zone.capacity_sectors
}

/// Place, size, type and capacity are those of another zone.
pub open spec fn same_shape(a: ZoneDescriptor, b: ZoneDescriptor) -> bool {
    &&& a.start_sector == b.start_sector
    &&& a.size_sectors == b.size_sectors
    &&& a.kind == b.kind
    &&& a.capacity_sectors == b.capacity_sectors
}

/// All zones but number `no` are as they were.
pub open spec fn others_same(
    before: Seq<ZoneDescriptor>,
    after: Seq<ZoneDescriptor>,
    no: int,
) -> bool {
    &&& after.len() == before.len()
    &&& forall|i: int| 0 <= i < before.len() && i != no ==> #[trigger] after[i] == before[i]
}

/// Number of open zones.
pub open spec fn open_count(zones: Seq<ZoneDescriptor>) -> int {
    count_in(zones, ZoneCondition::ImplicitOpen) + count_in(zones, ZoneCondition::ExplicitOpen)
}

/// Number of active zones: those that are open or closed.
pub open spec fn active_count(zones: Seq<ZoneDescriptor>) -> int {
    open_count(zones) + count_in(zones, ZoneCondition::Closed)
}

/// The numbers of open and of active zones respect the limits.
pub open spec fn within_limits(s: ZonesState) -> bool {
    &&& s.max_open != 0 ==> open_count(s.zones) <= s.max_open
    &&& s.max_active != 0 ==> active_count(s.zones) <= s.max_active
}

/// The limits leave room to open zone number `no`, which is empty or closed.
pub open spec fn has_room(s: ZonesState, no: int) -> bool {
    &&& s.max_open != 0 ==> open_count(s.zones) < s.max_open
    &&& s.max_active != 0 ==> active_count(s.zones) < s.max_active || s.zones[no].condition
        == ZoneCondition::Closed
}

/// Zone number `no` is ready for a write: it is open, or it is empty or closed and can be opened.
pub open spec fn ready(s: ZonesState, no: int) -> bool {
    ||| is_open(s.zones[no])
    ||| {
        &&& s.zones[no].condition == ZoneCondition::Empty || s.zones[no].condition
            == ZoneCondition::Closed
        &&& exact(s)
        &&& has_room(s, no)
    }
}

/// What a write does to the zone that it goes to: the write pointer advances by its sectors, a zone
/// without room is full, and a zone that was open stays open as it was.
pub open spec fn advanced(before: ZoneDescriptor, after: ZoneDescriptor, sectors: int) -> bool {
    &&& same_shape(before, after)
    &&& after.write_pointer == before.write_pointer + sectors
    &&& after.condition == (if after.write_pointer == after.start_sector + after.capacity_sectors {
        ZoneCondition::Full
    } else if is_open(before) {
        before.condition
    } else {
        ZoneCondition::ImplicitOpen
    })
}

/// A sector belongs to the zone that holds it.
pub proof fn lemma_zone_of(s: ZonesState, no: int, sector: u64)
    requires
        s.inv(),
        0 <= no < s.zones.len(),
        holds(s.zones[no], sector as int),
    ensures
        s.zone_no(sector) == no,
        s.zone_placed(no),
{
    assert(s.zone_placed(no));
    let size = s.size_sectors as int;
    vstd::arithmetic::div_mod::lemma_fundamental_div_mod_converse(
        sector as int,
        size,
        no,
        sector - no * size,
    );
    assert(no * size == size * no) by (nonlinear_arith);
}

/// A write to a sequential zone is accepted exactly at its write pointer, if it fits there; an append
/// is placed there, wherever in the zone it was addressed to.
pub proof fn lemma_position(
    zones: ZoneOptions,
    no: usize,
    sector: u64,
    sectors: u32,
    append: bool,
    r: Result<u64>,
)
    requires
        no < zones.zones@.len(),
        call_ensures(ZoneOptions::write_position, (&zones, no, sector, sectors, append), r),
    ensures
        ({
            let zone = zones.zones@[no as int];
            let here = if append {
                zones.append_max_sectors != 0
            } else {
                sector == zone.write_pointer
            };
            &&& (r is Ok) == (here && fits(zone, sectors as int))
            &&& r matches Ok(position) ==> position == zone.write_pointer
            &&& r matches Err(e) ==> e == Errno(EINVAL)
        }),
{
}

/// A zone that is ready for a write is opened for it, if need be, without a change to other zones.
proof fn lemma_begun(s: ZonesState, no: int)
    requires
        s.inv(),
        0 <= no < s.zones.len(),
        ready(s, no),
    ensures
        s.write_begun(no) is Ok,
        is_open(s.zones[no]) ==> s.write_begun(no)->Ok_0 == s,
        ({
            let t = s.write_begun(no)->Ok_0;
            &&& others_same(s.zones, t.zones, no)
            &&& t.zones[no] == s.zones[no].with_condition(
                if is_open(s.zones[no]) {
                    s.zones[no].condition
                } else {
                    ZoneCondition::ImplicitOpen
                },
            )
            &&& t == (ZonesState { zones: t.zones, accounting: t.accounting, ..s })
        }),
{
    if !is_open(s.zones[no]) && s.use_accounting() {
        assert(!s.open_exhausted());
        if s.zones[no].condition == ZoneCondition::Empty {
            assert(!s.active_exhausted());
        }
    }
}

/// A zone that is open already, by a write or by a command, needs no room among the limits and is
/// not changed when a write to it begins; an empty or closed zone is opened by the write where the
/// limits leave room.
pub proof fn lemma_begin_write(no: usize)
    ensures
        forall|zones: &mut ZoneOptions, r: Result<()>|
            #[trigger] call_ensures(ZoneOptions::begin_write, (zones, no), r) && zones.inv() && no
                < zones@.zones.len() && ready(zones@, no as int) ==> {
                let before = zones@.zones[no as int];
                let after = final(zones)@.zones[no as int];
                &&& r is Ok
                &&& is_open(before) ==> final(zones)@ == zones@
                &&& others_same(zones@.zones, final(zones)@.zones, no as int)
                &&& same_shape(before, after)
                &&& after.write_pointer == before.write_pointer
                &&& is_open(before) ==> after.condition == before.condition
                &&& !is_open(before) ==> after.condition == ZoneCondition::ImplicitOpen
            },
{
    assert forall|zones: &mut ZoneOptions, r: Result<()>|
        #[trigger] call_ensures(ZoneOptions::begin_write, (zones, no), r) && zones.inv() && no
            < zones@.zones.len() && ready(zones@, no as int) implies {
        let before = zones@.zones[no as int];
        let after = final(zones)@.zones[no as int];
        &&& r is Ok
        &&& is_open(before) ==> final(zones)@ == zones@
        &&& others_same(zones@.zones, final(zones)@.zones, no as int)
        &&& same_shape(before, after)
        &&& after.write_pointer == before.write_pointer
        &&& is_open(before) ==> after.condition == before.condition
        &&& !is_open(before) ==> after.condition == ZoneCondition::ImplicitOpen
    } by {
        lemma_begun(zones@, no as int);
    }
}

/// A write that a sequential zone has to accept: it fits, and it is at the write pointer or an
/// append.
pub open spec fn acceptable(s: IoState, no: int) -> bool {
    let zone = s.zones.zones[no];
    &&& 0 <= no < s.zones.zones.len()
    &&& zone.kind != ZoneType::Conventional
    &&& holds(zone, s.rq.sector as int)
    &&& s.rq.sectors > 0
    &&& fits(zone, s.rq.sectors as int)
    &&& {
        ||| s.rq.command == Command::Write && s.rq.sector == zone.write_pointer
        ||| s.rq.command == Command::ZoneAppend && s.zones.append_max_sectors != 0
    }
}

/// There is memory for all that a request can store.
pub open spec fn memory_suffices(s: IoState, memory_backed: bool) -> bool {
    memory_backed ==> s.grants >= 2 * bytes_from(s.rq.segs, 0)
}

/// What a write to zone number `no` that is accepted does.
pub open spec fn zone_advanced(before: IoState, no: int, after: IoState, r: Result<()>) -> bool {
    &&& r is Ok
    &&& others_same(before.zones.zones, after.zones.zones, no)
    &&& advanced(before.zones.zones[no], after.zones.zones[no], before.rq.sectors as int)
    &&& after.rq.sector == before.zones.zones[no].write_pointer
    &&& after.rq.error == before.rq.error
}

/// The bytes of a write that is accepted are stored from the write pointer on, one after the other,
/// where data is kept.
pub open spec fn data_stored(before: IoState, config: IoConfig, no: int, after: IoState) -> bool {
    let pointer = before.zones.zones[no].write_pointer as int;
    &&& config.memory_backed && request_traceable(
        config,
        before,
        0,
        pointer,
        pointer + before.rq.sectors,
    ) ==> holds_segments(after.store, pointer, before.rq.segs, 0)
    &&& !config.memory_backed ==> after.store == before.store
}

proof fn lemma_accepted(s: IoState, config: IoConfig, v: Verdict, no: int)
    requires
        s.inv(),
        acceptable(s, no),
        ready(s.zones, no),
        memory_suffices(s, config.memory_backed),
        0 < config.block_size <= 4096,
        v == (Verdict { error: false, sectors: s.rq.sectors, result: Ok(()) }),
    ensures
        zone_advanced(s, no, s.zone_written(config, v).0, s.zone_written(config, v).1),
        data_stored(s, config, no, s.zone_written(config, v).0),
{
    lemma_zone_of(s.zones, no, s.rq.sector);
    crate::zoned::lemma_zone_fits(s.zones, no);
    lemma_begun(s.zones, no);
    let position = s.zones.zones[no].write_pointer;
    assert(s.position() == Ok::<u64, Errno>(position));
    let begun = s.write_begun(position, v);
    assert forall|j: int| 0 <= j < s.rq.segs.len() implies #[trigger] s.rq.segs[j].inv() by {}
    if config.memory_backed {
        crate::laws::frames::lemma_transfer_memory(
            begun,
            config,
            Command::Write,
            0,
            begun.rq.sector as int,
            begun.rq.sector + v.sectors,
        );
        crate::device::zoned::lemma_transfer_frame(
            begun,
            config,
            Command::Write,
            0,
            begun.rq.sector as int,
            begun.rq.sector + v.sectors,
        );
        let end = position + s.rq.sectors;
        if request_traceable(config, s, 0, position as int, end) {
            assert(begun.rq.segs == s.rq.segs && begun.store == s.store);
            assert(request_traceable(config, begun, 0, position as int, end));
            crate::device::readback::lemma_segments_held(config, begun, 0, position as int, end);
        }
    }
}

/// What happens to a write to sequential zone number `no`: one that the zone has to accept is, where
/// there is room among the limits, memory and no bad block, whether a write or a command opened the
/// zone; one that does not fit or is elsewhere than at the write pointer is refused and changes
/// nothing.
pub open spec fn written_rightly(
    before: IoState,
    config: IoConfig,
    no: int,
    after: IoState,
    r: Result<()>,
) -> bool {
    let zone = before.zones.zones[no];
    &&& acceptable(before, no) && ready(before.zones, no) && !config.bad_blocks && memory_suffices(
        before,
        config.memory_backed,
    ) ==> zone_advanced(before, no, after, r) && data_stored(before, config, no, after)
    &&& !fits(zone, before.rq.sectors as int) || before.rq.command == Command::Write
        && before.rq.sector != zone.write_pointer ==> {
        &&& r == Err::<(), Errno>(Errno(EINVAL))
        &&& after == before
    }
}

pub proof fn lemma_written_rightly(s: IoState, config: IoConfig, v: Verdict, no: int)
    requires
        s.inv(),
        0 <= no < s.zones.zones.len(),
        s.zones.zones[no].kind != ZoneType::Conventional,
        holds(s.zones.zones[no], s.rq.sector as int),
        0 < config.block_size <= 4096,
        !config.bad_blocks && s.write_checked_from() is Some ==> v == (Verdict {
            error: false,
            sectors: s.rq.sectors,
            result: Ok(()),
        }),
    ensures
        written_rightly(s, config, no, s.zone_written(config, v).0, s.zone_written(config, v).1),
{
    lemma_zone_of(s.zones, no, s.rq.sector);
    if acceptable(s, no) && ready(s.zones, no) && !config.bad_blocks && memory_suffices(
        s,
        config.memory_backed,
    ) {
        lemma_begun(s.zones, no);
        assert(s.position() is Ok);
        lemma_accepted(s, config, v, no);
    }
}

/// A write to a sequential zone succeeds at the write pointer of a zone that is open, or can be
/// opened, and advances the write pointer by its sectors; elsewhere it is refused.
pub proof fn lemma_zoned_write<
    L: FnOnce(u64, u64) -> (i32, u64, u64),
    G: FnOnce(u64, u64) -> bool,
>(no: int, lookup: L, clear: G)
    ensures
        forall|
            device: &mut NullBlkDevice,
            spare: &mut Option<NullBlockPage>,
            memory: &mut Memory,
            rq: &mut Request,
            r: Result<()>,
        |
            #[trigger] call_ensures(
                NullBlkDevice::zoned_write::<L, G>,
                (device, spare, memory, rq, lookup, clear),
                r,
            ) && device.inv() && io_state(*device, *spare, *memory, *rq).inv() && 0 <= no
                < device.zoned@.zones.len() && device.zoned@.zones[no].kind
                != ZoneType::Conventional && holds(device.zoned@.zones[no], rq.sector as int)
                ==> written_rightly(
                io_state(*device, *spare, *memory, *rq),
                device.config(),
                no,
                io_state(*final(device), *final(spare), *final(memory), *final(rq)),
                r,
            ),
{
    assert forall|
        device: &mut NullBlkDevice,
        spare: &mut Option<NullBlockPage>,
        memory: &mut Memory,
        rq: &mut Request,
        r: Result<()>,
    |
        #[trigger] call_ensures(
            NullBlkDevice::zoned_write::<L, G>,
            (device, spare, memory, rq, lookup, clear),
            r,
        ) && device.inv() && io_state(*device, *spare, *memory, *rq).inv() && 0 <= no
            < device.zoned@.zones.len() && device.zoned@.zones[no].kind != ZoneType::Conventional
            && holds(device.zoned@.zones[no], rq.sector as int) implies written_rightly(
        io_state(*device, *spare, *memory, *rq),
        device.config(),
        no,
        io_state(*final(device), *final(spare), *final(memory), *final(rq)),
        r,
    ) by {
        let s = io_state(*device, *spare, *memory, *rq);
        let config = device.config();
        let t = io_state(*final(device), *final(spare), *final(memory), *final(rq));
        let v = choose|v: Verdict|
            {
                &&& s.write_checked_from() matches Some(start) ==> crate::device::io::judged(
                    config,
                    start,
                    rq.sectors,
                    lookup,
                    clear,
                    v,
                )
                &&& (t, r) == #[trigger] s.zone_written(config, v)
            };
        lemma_written_rightly(s, config, v, no);
    }
}

/// The same holds of a write that comes as a request for a zoned device.
pub proof fn lemma_zoned_command<
    L: FnOnce(u64, u64) -> (i32, u64, u64),
    G: FnOnce(u64, u64) -> bool,
>(no: int, lookup: L, clear: G)
    ensures
        forall|
            device: &mut NullBlkDevice,
            spare: &mut Option<NullBlockPage>,
            memory: &mut Memory,
            rq: &mut Request,
            r: Result<()>,
        |
            #[trigger] call_ensures(
                NullBlkDevice::handle_zoned_command::<L, G>,
                (device, spare, memory, rq, lookup, clear),
                r,
            ) && device.inv() && io_state(*device, *spare, *memory, *rq).inv() && 0 <= no
                < device.zoned@.zones.len() && device.zoned@.zones[no].kind
                != ZoneType::Conventional && holds(device.zoned@.zones[no], rq.sector as int) && (
            rq.command == Command::Write || rq.command == Command::ZoneAppend) ==> written_rightly(
                io_state(*device, *spare, *memory, *rq),
                device.config(),
                no,
                io_state(*final(device), *final(spare), *final(memory), *final(rq)),
                r,
            ),
{
    assert forall|
        device: &mut NullBlkDevice,
        spare: &mut Option<NullBlockPage>,
        memory: &mut Memory,
        rq: &mut Request,
        r: Result<()>,
    |
        #[trigger] call_ensures(
            NullBlkDevice::handle_zoned_command::<L, G>,
            (device, spare, memory, rq, lookup, clear),
            r,
        ) && device.inv() && io_state(*device, *spare, *memory, *rq).inv() && 0 <= no
            < device.zoned@.zones.len() && device.zoned@.zones[no].kind != ZoneType::Conventional
            && holds(device.zoned@.zones[no], rq.sector as int) && (rq.command == Command::Write
            || rq.command == Command::ZoneAppend) implies written_rightly(
        io_state(*device, *spare, *memory, *rq),
        device.config(),
        no,
        io_state(*final(device), *final(spare), *final(memory), *final(rq)),
        r,
    ) by {
        let s = io_state(*device, *spare, *memory, *rq);
        let config = device.config();
        let t = io_state(*final(device), *final(spare), *final(memory), *final(rq));
        let v = choose|v: Verdict|
            {
                &&& s.zoned_checked_from() matches Some(start) ==> crate::device::io::judged(
                    config,
                    start,
                    rq.sectors,
                    lookup,
                    clear,
                    v,
                )
                &&& (t, r) == #[trigger] s.zoned(config, v)
            };
        lemma_written_rightly(s, config, v, no);
    }
}

/// What is reported of a zone.
pub open spec fn reports(report: ZoneReport, zone: ZoneDescriptor) -> bool {
    &&& report.start == zone.start_sector
    &&& report.len == zone.size_sectors
    &&& report.capacity == zone.capacity_sectors
    &&& report.wp == zone.write_pointer
    &&& report.kind == (match zone.kind {
        ZoneType::Conventional => 1int,
        ZoneType::SequentialWriteRequired => 2,
        ZoneType::SequentialWritePreferred => 3,
    })
    &&& report.cond == (match zone.condition {
        ZoneCondition::NoWritePointer => 0int,
        ZoneCondition::Empty => 1,
        ZoneCondition::ImplicitOpen => 2,
        ZoneCondition::ExplicitOpen => 3,
        ZoneCondition::Closed => 4,
        ZoneCondition::ReadOnly => 13,
        ZoneCondition::Full => 14,
        ZoneCondition::Offline => 15,
    })
}

/// The write pointer of a report is the sector at which the next write to zone number `no` is
/// accepted: a write of any number of sectors is placed if it is there and fits, and refused
/// anywhere else.
pub open spec fn points_at_next_write(zones: ZoneOptions, no: usize, report: ZoneReport) -> bool {
    forall|sector: u64, sectors: u32, r: Result<u64>| #[trigger]
        call_ensures(ZoneOptions::write_position, (&zones, no, sector, sectors, false), r) ==> (r
            is Ok) == (sector == report.wp && report.wp + sectors <= report.start + report.capacity)
}

/// Zone number `i` of a report, which begins with zone number `first`, was reported as it is, and the
/// callback answered `answer`.
pub open spec fn reported_rightly<F: Fn(&ZoneReport, u32) -> Result<()>>(
    callback: F,
    zones: ZoneOptions,
    first: int,
    i: int,
    answer: Result<()>,
) -> bool {
    exists|report: &ZoneReport|
        {
            &&& #[trigger] call_ensures(callback, (report, i as u32), answer)
            &&& reports(*report, zones.zones@[first + i])
            &&& zones.zones@[first + i].kind != ZoneType::Conventional ==> points_at_next_write(
                zones,
                (first + i) as usize,
                *report,
            )
        }
}

/// A report begins with the zone that holds the sector and goes on in order, as far as there are
/// zones and as many are asked for, unless the callback ends it; each zone is reported as it is, and
/// the reported write pointer of a sequential zone is the sector at which its next write is
/// accepted.
pub proof fn lemma_report<F: Fn(&ZoneReport, u32) -> Result<()>>(
    device: NullBlkDevice,
    sector: u64,
    nr_zones: u32,
    callback: F,
    first: int,
    r: Result<u32>,
)
    requires
        device.zoned.inv(),
        0 <= first < device.zoned@.zones.len(),
        holds(device.zoned@.zones[first], sector as int),
        call_ensures(
            NullBlkDevice::report_zones_internal::<F>,
            (&device, sector, nr_zones, callback),
            r,
        ),
    ensures
        r matches Ok(n) ==> {
            &&& n <= nr_zones
            &&& n <= device.zoned@.zones.len() - first
            &&& n == nr_zones || n == device.zoned@.zones.len() - first
            &&& forall|i: int|
                0 <= i < n ==> #[trigger] reported_rightly(
                    callback,
                    device.zoned,
                    first,
                    i,
                    Ok(()),
                )
        },
        r matches Err(e) ==> exists|k: int|
            {
                &&& 0 <= k < nr_zones
                &&& k < device.zoned@.zones.len() - first
                &&& #[trigger] reported_rightly(callback, device.zoned, first, k, Err(e))
                &&& forall|i: int|
                    0 <= i < k ==> #[trigger] reported_rightly(
                        callback,
                        device.zoned,
                        first,
                        i,
                        Ok(()),
                    )
            },
{
    let zones = device.zoned;
    lemma_zone_of(zones@, first, sector);
    assert forall|i: int, error: Option<Errno>|
        0 <= i < zones@.zones.len() - first && #[trigger] crate::device::zoned::reported(
            callback,
            zones@.zones,
            first,
            i,
            error,
        ) implies reported_rightly(
        callback,
        zones,
        first,
        i,
        match error {
            Some(e) => Err(e),
            None => Ok(()),
        },
    ) by {
        let zone = zones@.zones[first + i];
        let report = crate::device::zoned::report_of(zone);
        let answer = choose|answer: Result<()>|
            {
                &&& #[trigger] call_ensures(callback, (&report, i as u32), answer)
                &&& match error {
                    Some(e) => answer is Err && answer->Err_0 == e,
                    None => answer is Ok,
                }
            };
        assert(call_ensures(callback, (&report, i as u32), answer));
        if error is None {
            assert(answer->Ok_0 == ());
        }
        assert(reports(report, zone));
        assert(points_at_next_write(zones, (first + i) as usize, report)) by {
            assert forall|sector: u64, sectors: u32, r: Result<u64>| #[trigger]
                call_ensures(
                    ZoneOptions::write_position,
                    (&zones, (first + i) as usize, sector, sectors, false),
                    r,
                ) implies (r is Ok) == (sector == report.wp && report.wp + sectors <= report.start
                + report.capacity) by {
                lemma_position(zones, (first + i) as usize, sector, sectors, false, r);
            }
        }
    }
    if let Ok(n) = r {
        assert forall|i: int| 0 <= i < n implies #[trigger] reported_rightly(
            callback,
            zones,
            first,
            i,
            Ok(()),
        ) by {
            assert(crate::device::zoned::reported(callback, zones@.zones, first, i, None));
        }
    }
    if let Err(e) = r {
        let k = choose|k: int|
            {
                &&& 0 <= k < crate::device::zoned::report_count(zones@, sector, nr_zones)
                &&& #[trigger] crate::device::zoned::all_reported(callback, zones@, sector, k)
                &&& crate::device::zoned::reported(callback, zones@.zones, first, k, Some(e))
            };
        assert(reported_rightly(callback, zones, first, k, Err(e)));
        assert forall|i: int| 0 <= i < k implies #[trigger] reported_rightly(
            callback,
            zones,
            first,
            i,
            Ok(()),
        ) by {
            assert(crate::device::zoned::reported(callback, zones@.zones, first, i, None));
        }
    }
}

/// A zone that was opened by a write may be closed to make room for another one: it is closed, or
/// empty where nothing was written to it.
pub open spec fn same_or_closed(before: ZoneDescriptor, after: ZoneDescriptor) -> bool {
    ||| after == before
    ||| {
        &&& before.condition == ZoneCondition::ImplicitOpen
        &&& same_shape(before, after)
        &&& after.write_pointer == before.write_pointer
        &&& after.condition == (if before.write_pointer == before.start_sector {
            ZoneCondition::Empty
        } else {
            ZoneCondition::Closed
        })
    }
}

/// All zones but number `no` are as they were, except that one that a write opened may be closed.
pub open spec fn others_kept(
    before: Seq<ZoneDescriptor>,
    after: Seq<ZoneDescriptor>,
    no: int,
) -> bool {
    &&& after.len() == before.len()
    &&& forall|i: int|
        #![trigger after[i]]
        0 <= i < before.len() && i != no ==> same_or_closed(before[i], after[i])
    &&& forall|i: int, j: int|
        #![trigger after[i], after[j]]
        0 <= i < j < before.len() && i != no && j != no ==> after[i] == before[i] || after[j]
            == before[j]
}

/// The limits leave no room for zone number `no`, which is empty or closed, and no zone can be closed
/// to make some.
pub open spec fn busy(s: ZonesState, no: int) -> bool {
    ||| {
        &&& s.max_active != 0
        &&& active_count(s.zones) >= s.max_active
        &&& s.zones[no].condition == ZoneCondition::Empty
    }
    ||| {
        &&& s.max_open != 0
        &&& open_count(s.zones) >= s.max_open
        &&& {
            ||| count_in(s.zones, ZoneCondition::ImplicitOpen) == 0
            ||| s.max_active != 0 && active_count(s.zones) >= s.max_active
        }
    }
}

/// There is room for zone number `no`, or a zone that a write opened can be closed to make some.
pub open spec fn openable(s: ZonesState, no: int) -> bool {
    ||| has_room(s, no)
    ||| {
        &&& s.max_active != 0 ==> active_count(s.zones) < s.max_active
        &&& exists|i: int|
            {
                &&& s.conventional_count <= i < s.zones.len()
                &&& i != no
                &&& #[trigger] s.zones[i].condition == ZoneCondition::ImplicitOpen
            }
    }
}

/// What the limits decide on opening zone number `no`, which is empty or closed.
proof fn lemma_room(s: ZonesState, no: int)
    requires
        s.inv(),
        exact(s),
        0 <= no < s.zones.len(),
        s.zones[no].condition == ZoneCondition::Empty || s.zones[no].condition
            == ZoneCondition::Closed,
    ensures
        busy(s, no) ==> s.room_for(no) == Err::<ZonesState, Errno>(Errno(EBUSY)),
        openable(s, no) ==> s.room_for(no) is Ok,
        has_room(s, no) ==> s.room_for(no) == Ok::<ZonesState, Errno>(s),
{
    crate::zoned::lemma_zone_fits(s, no);
    let start = s.accounting.start_zone as int;
    let skip = (s.zone_no(s.zones[no].start_sector) as u32) as int;
    assert(skip == no);
    crate::zoned::lemma_first_implicit(s.zones, start, s.zones.len() as int, skip);
    crate::zoned::lemma_first_implicit(s.zones, s.conventional_count as int, start, skip);
    if openable(s, no) && !has_room(s, no) {
        let i = choose|i: int|
            {
                &&& s.conventional_count <= i < s.zones.len()
                &&& i != no
                &&& #[trigger] s.zones[i].condition == ZoneCondition::ImplicitOpen
            };
        assert(s.zones[i].condition == ZoneCondition::ImplicitOpen);
        crate::zoned::lemma_counted(s, i);
    }
}

/// Room for a zone is made by closing another zone at most.
proof fn lemma_room_keeps(s: ZonesState, no: int)
    requires
        s.inv(),
        0 <= no < s.zones.len(),
        s.room_for(no) is Ok,
    ensures
        others_kept(s.zones, s.room_for(no)->Ok_0.zones, no),
        s.room_for(no)->Ok_0.zones[no] == s.zones[no],
{
    crate::zoned::lemma_zone_fits(s, no);
    let start = s.accounting.start_zone as int;
    let skip = (s.zone_no(s.zones[no].start_sector) as u32) as int;
    assert(skip == no);
    crate::zoned::lemma_first_implicit(s.zones, start, s.zones.len() as int, skip);
    crate::zoned::lemma_first_implicit(s.zones, s.conventional_count as int, start, skip);
}

/// What the limits decide: a zone that is empty or closed cannot be opened where they leave no room,
/// and can be where there is some or a zone that a write opened can be closed.
pub open spec fn limits_decide(before: ZonesState, no: int, r: Result<()>) -> bool {
    let zone = before.zones[no];
    exact(before) && (zone.condition == ZoneCondition::Empty || zone.condition
        == ZoneCondition::Closed) ==> {
        &&& busy(before, no) ==> r == Err::<(), Errno>(Errno(EBUSY))
        &&& openable(before, no) ==> r is Ok
        &&& has_room(before, no) ==> r is Ok
    }
}

/// An operation that fails changes nothing, and one that succeeds leaves the shape of the zones alone
/// and changes no zone but number `no` and one that it may close.
pub open spec fn changes_only(before: ZonesState, no: int, after: ZonesState, r: Result<()>) -> bool {
    &&& r is Err ==> after == before
    &&& others_kept(before.zones, after.zones, no)
    &&& same_shape(before.zones[no], after.zones[no])
    &&& after.conventional_count == before.conventional_count
    &&& after.size_sectors == before.size_sectors
    &&& after.append_max_sectors == before.append_max_sectors
    &&& after.max_open == before.max_open
    &&& after.max_active == before.max_active
    &&& within_limits(after)
}

/// What opening a zone by a command does.
pub open spec fn opened_rightly(before: ZonesState, no: int, after: ZonesState, r: Result<()>) -> bool {
    let zone = before.zones[no];
    &&& changes_only(before, no, after, r)
    &&& r is Ok ==> after.zones[no].condition == ZoneCondition::ExplicitOpen
    &&& after.zones[no].write_pointer == zone.write_pointer
    &&& zone.kind == ZoneType::Conventional ==> r == Err::<(), Errno>(Errno(EINVAL))
    &&& zone.kind != ZoneType::Conventional ==> match zone.condition {
        ZoneCondition::ImplicitOpen | ZoneCondition::ExplicitOpen => r is Ok && others_same(
            before.zones,
            after.zones,
            no,
        ),
        ZoneCondition::Empty | ZoneCondition::Closed => limits_decide(before, no, r),
        _ => r == Err::<(), Errno>(Errno(EIO)),
    }
}

/// What closing a zone by a command does.
pub open spec fn closed_rightly(before: ZonesState, no: int, after: ZonesState, r: Result<()>) -> bool {
    let zone = before.zones[no];
    &&& changes_only(before, no, after, r)
    &&& others_same(before.zones, after.zones, no)
    &&& after.zones[no].write_pointer == zone.write_pointer
    &&& zone.kind == ZoneType::Conventional ==> r == Err::<(), Errno>(Errno(EINVAL))
    &&& zone.kind != ZoneType::Conventional ==> match zone.condition {
        ZoneCondition::ImplicitOpen | ZoneCondition::ExplicitOpen => {
            &&& r is Ok
            &&& after.zones[no].condition == (if zone.write_pointer == zone.start_sector {
                ZoneCondition::Empty
            } else {
                ZoneCondition::Closed
            })
        },
        ZoneCondition::Closed => r is Ok && after == before,
        _ => r == Err::<(), Errno>(Errno(EIO)),
    }
}

/// What finishing a zone does: nothing more can be written to it.
pub open spec fn finished_rightly(before: ZonesState, no: int, after: ZonesState, r: Result<()>) -> bool {
    let zone = before.zones[no];
    &&& changes_only(before, no, after, r)
    &&& r is Ok ==> after.zones[no].condition == ZoneCondition::Full && !fits(after.zones[no], 1)
    &&& r is Ok && zone.condition != ZoneCondition::Full ==> after.zones[no].write_pointer
        == zone.start_sector + zone.size_sectors
    &&& zone.kind == ZoneType::Conventional ==> r == Err::<(), Errno>(Errno(EINVAL))
    &&& zone.kind != ZoneType::Conventional ==> match zone.condition {
        ZoneCondition::ImplicitOpen | ZoneCondition::ExplicitOpen | ZoneCondition::Full => r is Ok
            && others_same(before.zones, after.zones, no),
        ZoneCondition::Empty | ZoneCondition::Closed => limits_decide(before, no, r),
        _ => true,
    }
}

/// What resetting a zone does: it is empty.
pub open spec fn reset_rightly(before: ZonesState, no: int, after: ZonesState, r: Result<()>) -> bool {
    let zone = before.zones[no];
    &&& changes_only(before, no, after, r)
    &&& others_same(before.zones, after.zones, no)
    &&& r is Ok ==> after.zones[no].condition == ZoneCondition::Empty
        && after.zones[no].write_pointer == zone.start_sector
    &&& zone.kind == ZoneType::Conventional ==> r == Err::<(), Errno>(Errno(EINVAL))
    &&& zone.kind != ZoneType::Conventional && zone.condition != ZoneCondition::ReadOnly
        && zone.condition != ZoneCondition::Offline ==> r is Ok
}

/// In every state of zones the limits on open and active zones are kept.
pub proof fn lemma_limits_kept(zones: ZoneOptions)
    requires
        zones.inv(),
    ensures
        within_limits(zones@),
{
}

/// What making room for a zone means for the other zones and the limits.
proof fn lemma_room_facts(s: ZonesState, no: int)
    requires
        s.inv(),
        0 <= no < s.zones.len(),
    ensures
        s.zone_placed(no),
        s.zones[no].limit() <= u64::MAX,
        s.zones[no].start_sector + s.zones[no].size_sectors <= u64::MAX,
        s.room_for(no) is Ok ==> others_kept(s.zones, s.room_for(no)->Ok_0.zones, no)
            && s.room_for(no)->Ok_0.zones[no] == s.zones[no],
        exact(s) && (s.zones[no].condition == ZoneCondition::Empty || s.zones[no].condition
            == ZoneCondition::Closed) ==> {
            &&& busy(s, no) ==> s.room_for(no) == Err::<ZonesState, Errno>(Errno(EBUSY))
            &&& openable(s, no) ==> s.room_for(no) is Ok
            &&& has_room(s, no) ==> s.room_for(no) is Ok
        },
{
    crate::zoned::lemma_zone_fits(s, no);
    if s.room_for(no) is Ok {
        lemma_room_keeps(s, no);
    }
    if exact(s) && (s.zones[no].condition == ZoneCondition::Empty || s.zones[no].condition
        == ZoneCondition::Closed) {
        lemma_room(s, no);
    }
}

/// The outcome of opening a zone is right.
#[verifier::rlimit(40)]
#[verifier::spinoff_prover]
proof fn lemma_outcome_opened(s: ZonesState, no: int)
    requires
        s.inv(),
        s.can_count_closed(),
        0 <= no < s.zones.len(),
    ensures
        match s.opened(no) {
            Ok(t) => opened_rightly(s, no, t, Ok(())),
            Err(e) => opened_rightly(s, no, s, Err(e)),
        },
{
    lemma_room_facts(s, no);
    if s.opened(no) is Ok {
        crate::zoned::lemma_open_keeps(s, no);
    }
}

/// The outcome of closing a zone is right.
#[verifier::rlimit(40)]
#[verifier::spinoff_prover]
proof fn lemma_outcome_closed(s: ZonesState, no: int)
    requires
        s.inv(),
        s.can_count_closed(),
        0 <= no < s.zones.len(),
    ensures
        match s.closed(no) {
            Ok(t) => closed_rightly(s, no, t, Ok(())),
            Err(e) => closed_rightly(s, no, s, Err(e)),
        },
{
    lemma_room_facts(s, no);
    if s.closed(no) is Ok {
        crate::zoned::lemma_close_keeps(s, no);
    }
}

/// The outcome of finishing a zone is right.
#[verifier::rlimit(40)]
#[verifier::spinoff_prover]
proof fn lemma_outcome_finished(s: ZonesState, no: int)
    requires
        s.inv(),
        s.can_count_closed(),
        0 <= no < s.zones.len(),
    ensures
        match s.finished(no) {
            Ok(t) => finished_rightly(s, no, t, Ok(())),
            Err(e) => finished_rightly(s, no, s, Err(e)),
        },
{
    lemma_room_facts(s, no);
    if s.finished(no) is Ok {
        crate::zoned::lemma_finish_keeps(s, no);
    }
}

/// The outcome of resetting a zone is right.
#[verifier::rlimit(40)]
#[verifier::spinoff_prover]
proof fn lemma_outcome_was_reset(s: ZonesState, no: int)
    requires
        s.inv(),
        s.can_count_closed(),
        0 <= no < s.zones.len(),
    ensures
        match s.was_reset(no) {
            Ok(t) => reset_rightly(s, no, t, Ok(())),
            Err(e) => reset_rightly(s, no, s, Err(e)),
        },
{
    lemma_room_facts(s, no);
    if s.was_reset(no) is Ok {
        crate::zoned::lemma_reset_keeps(s, no);
    }
}

/// The outcomes of zone commands are right.
pub proof fn lemma_outcomes(s: ZonesState, no: int)
    requires
        s.inv(),
        s.can_count_closed(),
        0 <= no < s.zones.len(),
    ensures
        match s.opened(no) {
            Ok(t) => opened_rightly(s, no, t, Ok(())),
            Err(e) => opened_rightly(s, no, s, Err(e)),
        },
        match s.closed(no) {
            Ok(t) => closed_rightly(s, no, t, Ok(())),
            Err(e) => closed_rightly(s, no, s, Err(e)),
        },
        match s.finished(no) {
            Ok(t) => finished_rightly(s, no, t, Ok(())),
            Err(e) => finished_rightly(s, no, s, Err(e)),
        },
        match s.was_reset(no) {
            Ok(t) => reset_rightly(s, no, t, Ok(())),
            Err(e) => reset_rightly(s, no, s, Err(e)),
        },
{
    lemma_outcome_opened(s, no);
    lemma_outcome_closed(s, no);
    lemma_outcome_finished(s, no);
    lemma_outcome_was_reset(s, no);
}

/// Opening a zone by a command leaves its write pointer alone; a zone that is open already needs no
/// room among the limits, any other one that is empty or closed is opened as far as they allow.
pub proof fn lemma_open(no: usize)
    ensures
        forall|zones: &mut ZoneOptions, r: Result<()>|
            #[trigger] call_ensures(ZoneOptions::open_zone, (zones, no), r) && zones.inv()
                && no < zones@.zones.len() ==> opened_rightly(
                zones@,
                no as int,
                final(zones)@,
                r,
            ),
{
    assert forall|zones: &mut ZoneOptions, r: Result<()>|
        #[trigger] call_ensures(ZoneOptions::open_zone, (zones, no), r) && zones.inv()
            && no < zones@.zones.len() implies opened_rightly(
                zones@,
                no as int,
                final(zones)@,
                r,
            ) by {
        let s = zones@;
        crate::zoned::lemma_zone_fits(s, no as int);
        if s.room_for(no as int) is Ok {
            lemma_room_keeps(s, no as int);
        }
        if exact(s) && (s.zones[no as int].condition == ZoneCondition::Empty
            || s.zones[no as int].condition == ZoneCondition::Closed) {
            lemma_room(s, no as int);
        }
        lemma_limits_kept(*final(zones));
    }
}

/// Closing a zone leaves its write pointer alone: it is closed, or empty where nothing was written.
pub proof fn lemma_close(no: usize)
    ensures
        forall|zones: &mut ZoneOptions, r: Result<()>|
            #[trigger] call_ensures(ZoneOptions::close_zone, (zones, no), r) && zones.inv()
                && no < zones@.zones.len() ==> closed_rightly(
                zones@,
                no as int,
                final(zones)@,
                r,
            ),
{
    assert forall|zones: &mut ZoneOptions, r: Result<()>|
        #[trigger] call_ensures(ZoneOptions::close_zone, (zones, no), r) && zones.inv()
            && no < zones@.zones.len() implies closed_rightly(
                zones@,
                no as int,
                final(zones)@,
                r,
            ) by {
        let s = zones@;
        crate::zoned::lemma_zone_fits(s, no as int);
        if s.room_for(no as int) is Ok {
            lemma_room_keeps(s, no as int);
        }
        if exact(s) && (s.zones[no as int].condition == ZoneCondition::Empty
            || s.zones[no as int].condition == ZoneCondition::Closed) {
            lemma_room(s, no as int);
        }
        lemma_limits_kept(*final(zones));
    }
}

/// After a zone was finished nothing more can be written to it.
pub proof fn lemma_finish(no: usize)
    ensures
        forall|zones: &mut ZoneOptions, r: Result<()>|
            #[trigger] call_ensures(ZoneOptions::finish_zone, (zones, no), r) && zones.inv()
                && no < zones@.zones.len() ==> finished_rightly(
                zones@,
                no as int,
                final(zones)@,
                r,
            ),
{
    assert forall|zones: &mut ZoneOptions, r: Result<()>|
        #[trigger] call_ensures(ZoneOptions::finish_zone, (zones, no), r) && zones.inv()
            && no < zones@.zones.len() implies finished_rightly(
                zones@,
                no as int,
                final(zones)@,
                r,
            ) by {
        let s = zones@;
        crate::zoned::lemma_zone_fits(s, no as int);
        if s.room_for(no as int) is Ok {
            lemma_room_keeps(s, no as int);
        }
        if exact(s) && (s.zones[no as int].condition == ZoneCondition::Empty
            || s.zones[no as int].condition == ZoneCondition::Closed) {
            lemma_room(s, no as int);
        }
        lemma_limits_kept(*final(zones));
    }
}

/// After a zone was reset it is empty, its write pointer is at its start, and its sectors are free.
pub proof fn lemma_reset(no: usize)
    ensures
        forall|zones: &mut ZoneOptions, storage: &mut DiskStorage, r: Result<()>|
            #[trigger] call_ensures(ZoneOptions::reset_zone, (zones, storage, no), r) && zones.inv()
                && no < zones@.zones.len() ==> {
                &&& reset_rightly(zones@, no as int, final(zones)@, r)
                &&& r is Err ==> final(storage)@ == storage@
                &&& r is Ok && discardable(
                    storage@,
                    zones@.zones[no as int].start_sector as int,
                    zones@.size_sectors as int,
                ) ==> sectors_freed(
                    storage@,
                    final(storage)@,
                    zones@.zones[no as int].start_sector as int,
                    zones@.size_sectors as int,
                )
            },
{
    assert forall|zones: &mut ZoneOptions, storage: &mut DiskStorage, r: Result<()>|
        #[trigger] call_ensures(ZoneOptions::reset_zone, (zones, storage, no), r) && zones.inv()
            && no < zones@.zones.len() implies {
                &&& reset_rightly(zones@, no as int, final(zones)@, r)
                &&& r is Err ==> final(storage)@ == storage@
                &&& r is Ok && discardable(
                    storage@,
                    zones@.zones[no as int].start_sector as int,
                    zones@.size_sectors as int,
                ) ==> sectors_freed(
                    storage@,
                    final(storage)@,
                    zones@.zones[no as int].start_sector as int,
                    zones@.size_sectors as int,
                )
            } by {
        let s = zones@;
        crate::zoned::lemma_zone_fits(s, no as int);
        if s.room_for(no as int) is Ok {
            lemma_room_keeps(s, no as int);
        }
        if exact(s) && (s.zones[no as int].condition == ZoneCondition::Empty
            || s.zones[no as int].condition == ZoneCondition::Closed) {
            lemma_room(s, no as int);
        }
        lemma_limits_kept(*final(zones));
        if discardable(
            storage@,
            zones@.zones[no as int].start_sector as int,
            zones@.size_sectors as int,
        ) {
            crate::laws::discard::lemma_sectors_freed(
                storage@,
                zones@.zones[no as int].start_sector,
                zones@.size_sectors,
            );
        }
    }
}

/// A write opens an empty or closed zone as far as the limits allow.
pub proof fn lemma_write_opens(no: usize)
    ensures
        forall|zones: &mut ZoneOptions, r: Result<()>|
            #[trigger] call_ensures(ZoneOptions::begin_write, (zones, no), r) && zones.inv()
                && no < zones@.zones.len() ==> {
                &&& changes_only(zones@, no as int, final(zones)@, r)
                &&& limits_decide(zones@, no as int, r)
                &&& final(zones)@.zones[no as int].write_pointer
                    == zones@.zones[no as int].write_pointer
            },
{
    assert forall|zones: &mut ZoneOptions, r: Result<()>|
        #[trigger] call_ensures(ZoneOptions::begin_write, (zones, no), r) && zones.inv()
            && no < zones@.zones.len() implies {
                &&& changes_only(zones@, no as int, final(zones)@, r)
                &&& limits_decide(zones@, no as int, r)
                &&& final(zones)@.zones[no as int].write_pointer
                    == zones@.zones[no as int].write_pointer
            } by {
        let s = zones@;
        crate::zoned::lemma_zone_fits(s, no as int);
        if s.room_for(no as int) is Ok {
            lemma_room_keeps(s, no as int);
        }
        if exact(s) && (s.zones[no as int].condition == ZoneCondition::Empty
            || s.zones[no as int].condition == ZoneCondition::Closed) {
            lemma_room(s, no as int);
        }
        lemma_limits_kept(*final(zones));
    }
}

} // verus!
