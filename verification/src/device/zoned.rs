//! Requests for zoned devices.

use crate::block::mq::command::Command;
use crate::block::mq::request::{Request, RequestState};
use crate::device::io::{IoConfig, IoState, Verdict};
use crate::device::{Memory, NullBlkDevice};
use crate::disk_storage::page::NullBlockPage;
use crate::error::{Errno, Result, EINVAL, EIO};
use crate::zoned::{ZoneCondition, ZoneDescriptor, ZoneType, ZonesState};
use vstd::prelude::*;

verus! {

/// What is reported of a zone.
#[derive(Copy, Clone, Debug, PartialEq, Eq, Structural)]
pub struct ZoneReport {
    /// First sector.
    pub start: u64,
    /// Number of sectors.
    pub len: u64,
    /// Write pointer.
    pub wp: u64,
    /// Number of sectors that can be written.
    pub capacity: u64,
    /// Number of the type.
    pub kind: u8,
    /// Number of the condition.
    pub cond: u8,
}

/// What is reported of a zone.
pub open spec fn report_of(zone: ZoneDescriptor) -> ZoneReport {
    ZoneReport {
        start: zone.start_sector,
        len: zone.size_sectors as u64,
        wp: zone.write_pointer,
        capacity: zone.capacity_sectors as u64,
        kind: zone.kind.raw() as u8,
        cond: zone.condition.raw() as u8,
    }
}

impl IoState {
    /// The number of the zone that the request is for.
    pub open spec fn zone_no(self) -> int {
        self.zones.zone_no(self.rq.sector) as int
    }

    /// The request is for a zone that exists.
    pub open spec fn has_zone(self) -> bool {
        self.zone_no() < self.zones.zones.len()
    }

    /// The request is an append.
    pub open spec fn is_append(self) -> bool {
        self.rq.command == Command::ZoneAppend
    }

    /// Zone number `no` is left alone when all zones are reset: it has no write pointer, or is empty
    /// or out of service.
    pub open spec fn reset_skips(self, no: int) -> bool {
        let zone = self.zones.zones[no];
        zone.kind == ZoneType::Conventional || zone.condition == ZoneCondition::Empty
            || zone.condition == ZoneCondition::ReadOnly || zone.condition == ZoneCondition::Offline
    }

    /// Resets the zones from number `no` on, but those that are left alone.
    pub open spec fn zones_reset(self, no: int) -> (IoState, Result<()>)
        decreases self.zones.zones.len() - no,
        when 0 <= no
    {
        if no >= self.zones.zones.len() {
            (self, Ok(()))
        } else if self.reset_skips(no) {
            self.zones_reset(no + 1)
        } else {
            match self.zone_reset(no) {
                (state, Err(e)) => (state, Err(e)),
                (state, Ok(_)) => if state.zones.zones.len() == self.zones.zones.len() {
                    state.zones_reset(no + 1)
                } else {
                    (state, Ok(()))
                },
            }
        }
    }

    /// Resets zone number `no` and discards its sectors.
    pub open spec fn zone_reset(self, no: int) -> (IoState, Result<()>) {
        match self.zones.was_reset(no) {
            Ok(zones) => (
                IoState {
                    zones,
                    store: self.store.sectors_discarded(
                        self.zones.zones[no].start_sector,
                        self.zones.size_sectors,
                    ),
                    ..self
                },
                Ok(()),
            ),
            Err(e) => (self, Err(e)),
        }
    }

    /// The state with the zones that an operation leaves.
    pub open spec fn with_zones(self, outcome: Result<ZonesState>) -> (IoState, Result<()>) {
        match outcome {
            Ok(zones) => (IoState { zones, ..self }, Ok(())),
            Err(e) => (self, Err(e)),
        }
    }

    /// The outcome of a zone management request.
    pub open spec fn zones_managed(self) -> (IoState, Result<()>) {
        let no = self.zone_no();
        if self.rq.command == Command::ZoneResetAll {
            self.zones_reset(0)
        } else if !self.has_zone() {
            (self, Err(Errno(EINVAL)))
        } else if self.zones.zones[no].condition == ZoneCondition::ReadOnly
            || self.zones.zones[no].condition == ZoneCondition::Offline {
            (self, Err(Errno(EIO)))
        } else {
            match self.rq.command {
                Command::ZoneOpen => self.with_zones(self.zones.opened(no)),
                Command::ZoneClose => self.with_zones(self.zones.closed(no)),
                Command::ZoneReset => self.zone_reset(no),
                Command::ZoneFinish => self.with_zones(self.zones.finished(no)),
                _ => (self, Err(Errno(EIO))),
            }
        }
    }

    /// The error of a read that is refused.
    pub open spec fn read_refused(self) -> Option<i32> {
        let zone = self.zones.zones[self.zone_no()];
        if !self.has_zone() {
            Some(EINVAL)
        } else if zone.condition == ZoneCondition::Offline {
            Some(EINVAL)
        } else if self.rq.sector + self.rq.sectors > zone.write_pointer {
            Some(EIO)
        } else {
            None
        }
    }

    /// The outcome of a read of a zone.
    pub open spec fn zone_read(self, config: IoConfig, v: Verdict) -> (IoState, Result<()>) {
        match self.read_refused() {
            Some(errno) => (self, Err(Errno(errno))),
            None => self.regular(config, v),
        }
    }

    /// The error of a write to a conventional zone that is refused.
    pub open spec fn conventional_refused(self) -> Option<i32> {
        if self.is_append() {
            Some(EINVAL)
        } else if self.rq.sector + self.rq.sectors > self.zones.zones[self.zone_no()].limit() {
            Some(EIO)
        } else {
            None
        }
    }

    /// The state after a write to a sequential zone was placed at `position`.
    pub open spec fn placed(self, position: u64) -> IoState {
        IoState { rq: RequestState { sector: position, ..self.rq }, ..self }
    }

    /// Where a write to a sequential zone goes.
    pub open spec fn position(self) -> Result<u64> {
        self.zones.write_position(
            self.zone_no(),
            self.rq.sector,
            self.rq.sectors,
            self.is_append(),
        )
    }

    /// The outcome of a write to a conventional zone.
    pub open spec fn conventional_written(self, config: IoConfig, v: Verdict) -> (
        IoState,
        Result<()>,
    ) {
        match self.conventional_refused() {
            Some(errno) => (self, Err(Errno(errno))),
            None => if v.result is Err {
                (self.judged(v), v.result)
            } else {
                self.judged(v).transferred(config, self.rq.command, v.sectors)
            },
        }
    }

    /// The state of a write to a sequential zone that was placed and whose zone was opened.
    pub open spec fn write_begun(self, position: u64, v: Verdict) -> IoState {
        IoState {
            zones: self.zones.write_begun(self.zone_no())->Ok_0,
            ..self.placed(position)
        }.judged(v)
    }

    /// The outcome of a write to a sequential zone that was begun.
    pub open spec fn begun_written(self, config: IoConfig, no: int, v: Verdict) -> (
        IoState,
        Result<()>,
    ) {
        let (done, r) = if config.memory_backed {
            self.transferred(config, Command::Write, v.sectors)
        } else {
            (self, Ok(()))
        };
        if r is Err {
            (done, r)
        } else {
            (IoState { zones: done.zones.write_advanced(no, v.sectors), ..done }, Ok(()))
        }
    }

    /// The outcome of a write to a sequential zone.
    pub open spec fn sequential_written(self, config: IoConfig, v: Verdict) -> (
        IoState,
        Result<()>,
    ) {
        let no = self.zone_no();
        match self.position() {
            Err(e) => (self, Err(e)),
            Ok(position) => match self.zones.write_begun(no) {
                Err(e) => (self.placed(position), Err(e)),
                Ok(_) => if v.result is Err {
                    (self.write_begun(position, v), v.result)
                } else {
                    self.write_begun(position, v).begun_written(config, no, v)
                },
            },
        }
    }

    /// The outcome of a write to a zone.
    pub open spec fn zone_written(self, config: IoConfig, v: Verdict) -> (IoState, Result<()>) {
        if !self.has_zone() {
            (self, Err(Errno(EINVAL)))
        } else if self.zones.zones[self.zone_no()].kind == ZoneType::Conventional {
            self.conventional_written(config, v)
        } else {
            self.sequential_written(config, v)
        }
    }

    /// The outcome of a request for a zoned device.
    pub open spec fn zoned(self, config: IoConfig, v: Verdict) -> (IoState, Result<()>) {
        match self.rq.command {
            Command::ZoneAppend | Command::Write => self.zone_written(config, v),
            Command::ZoneReset
            | Command::ZoneResetAll
            | Command::ZoneOpen
            | Command::ZoneClose
            | Command::ZoneFinish => self.zones_managed(),
            _ => self.zone_read(config, v),
        }
    }

    /// The sector from which on a write to a zone is checked for bad blocks, if it comes to that.
    pub open spec fn write_checked_from(self) -> Option<u64> {
        if !self.has_zone() {
            None
        } else if self.zones.zones[self.zone_no()].kind == ZoneType::Conventional {
            if self.conventional_refused() is None {
                Some(self.rq.sector)
            } else {
                None
            }
        } else {
            match self.position() {
                Err(_) => None,
                Ok(position) => if self.zones.write_begun(self.zone_no()) is Ok {
                    Some(position)
                } else {
                    None
                },
            }
        }
    }

    /// The sector from which on a read of a zone is checked for bad blocks, if it comes to that.
    pub open spec fn read_checked_from(self) -> Option<u64> {
        if self.read_refused() is None {
            Some(self.rq.sector)
        } else {
            None
        }
    }

    /// The sector from which on a request for a zoned device is checked for bad blocks, if it comes
    /// to that.
    pub open spec fn zoned_checked_from(self) -> Option<u64> {
        match self.rq.command {
            Command::ZoneAppend | Command::Write => self.write_checked_from(),
            Command::ZoneReset
            | Command::ZoneResetAll
            | Command::ZoneOpen
            | Command::ZoneClose
            | Command::ZoneFinish => None,
            _ => self.read_checked_from(),
        }
    }

    /// The sectors of zones can be discarded.
    pub open spec fn resets_ok(self) -> bool {
        forall|no: int|
            0 <= no < self.zones.zones.len() ==> self.store.can_discard(
                #[trigger] self.zones.zones[no].start_sector,
                self.zones.size_sectors,
            )
    }

    /// The write pointer of the zone leaves room for the arithmetic of a write.
    pub open spec fn pointer_in_range(self) -> bool {
        self.has_zone() && self.zones.zones[self.zone_no()].kind != ZoneType::Conventional ==> {
            let pointer = self.zones.zones[self.zone_no()].write_pointer;
            pointer + self.rq.sectors <= u64::MAX && self.in_range(pointer)
        }
    }
}

/// A transfer leaves the zones and all of the request but its segments alone.
pub proof fn lemma_transfer_frame(
    s: IoState,
    config: IoConfig,
    command: Command,
    i: int,
    sector: int,
    end: int,
)
    requires
        0 <= i,
    ensures
        ({
            let t = s.segments_transferred(config, command, i, sector, end).0;
            &&& t.zones == s.zones
            &&& t.rq == (RequestState { segs: t.rq.segs, ..s.rq })
        }),
    decreases s.rq.segs.len() - i,
{
    if i < s.rq.segs.len() {
        let (state, r) = s.segment_transferred(config, command, i, sector);
        let next = sector + crate::device::io::advance_len(s.rq.segs[i], end - sector) / 512;
        if r is Ok && !(next >= end) {
            lemma_transfer_frame(state, config, command, i + 1, next, end);
        }
    }
}

impl NullBlkDevice {
    /// Processes a zone management request.
    pub fn zone_management(&mut self, rq: &Request) -> (r: Result<()>)
        requires
            old(self).inv(),
            old(self).zoned@.can_count_closed(),
            zone_state(*old(self), *rq).resets_ok(),
        ensures
            final(self).inv(),
            final(self).same_but_io(&*old(self)),
            (zone_state(*final(self), *rq), r) == zone_state(*old(self), *rq).zones_managed(),
            crate::zoned::exact(old(self).zoned@) ==> crate::zoned::exact(final(self).zoned@),
    {
        let ghost start = zone_state(*self, *rq);
        if rq.command == Command::ZoneResetAll {
            let mut no: usize = 0;
            while no < self.zoned.zones.len()
                invariant
                    self.inv(),
                    self.same_but_io(&*old(self)),
                    rq.command == Command::ZoneResetAll,
                    no <= self.zoned@.zones.len(),
                    zone_state(*self, *rq).resets_ok(),
                    zone_state(*self, *rq).zones_reset(no as int) == zone_state(
                        *old(self),
                        *rq,
                    ).zones_reset(0),
                    crate::zoned::exact(old(self).zoned@) ==> crate::zoned::exact(self.zoned@),
                decreases self.zoned@.zones.len() - no,
            {
                let ghost before = zone_state(*self, *rq);
                let conventional: bool = self.zoned.zones[no].kind == ZoneType::Conventional;
                match self.zoned.zones[no].condition {
                    ZoneCondition::Empty | ZoneCondition::ReadOnly | ZoneCondition::Offline => {},
                    _ => if !conventional {
                        assert(before.store.can_discard(
                            before.zones.zones[no as int].start_sector,
                            before.zones.size_sectors,
                        ));
                        let r = self.zoned.reset_zone(&mut self.storage, no);
                        assert(zone_state(*self, *rq) =~= before.zone_reset(no as int).0);
                        match r {
                            Ok(()) => {},
                            Err(e) => {
                                return Err(e);
                            },
                        }
                        assert forall|i: int|
                            0 <= i < self.zoned@.zones.len() implies self.storage@.can_discard(
                            #[trigger] self.zoned@.zones[i].start_sector,
                            self.zoned@.size_sectors,
                        ) by {
                            assert(before.store.can_discard(
                                before.zones.zones[i].start_sector,
                                before.zones.size_sectors,
                            ));
                        }
                    },
                }
                no += 1;
            }
            return Ok(());
        }
        let no: usize = match self.zoned.zone(rq.sector) {
            Ok(no) => no,
            Err(e) => {
                return Err(e);
            },
        };
        let condition = self.zoned.zones[no].condition;
        if condition == ZoneCondition::ReadOnly || condition == ZoneCondition::Offline {
            return Err(Errno(EIO));
        }
        let r = match rq.command {
            Command::ZoneOpen => self.zoned.open_zone(no),
            Command::ZoneClose => self.zoned.close_zone(no),
            Command::ZoneReset => {
                assert(start.store.can_discard(
                    start.zones.zones[no as int].start_sector,
                    start.zones.size_sectors,
                ));
                self.zoned.reset_zone(&mut self.storage, no)
            },
            Command::ZoneFinish => self.zoned.finish_zone(no),
            _ => Err(Errno(EIO)),
        };
        assert(zone_state(*self, *rq) =~= start.zones_managed().0);
        r
    }
}

impl NullBlkDevice {
    /// Processes a read of a zone.
    pub fn zoned_read<L: FnOnce(u64, u64) -> (i32, u64, u64), G: FnOnce(u64, u64) -> bool>(
        &mut self,
        spare: &mut Option<NullBlockPage>,
        memory: &mut Memory,
        rq: &mut Request,
        lookup: L,
        clear: G,
    ) -> (r: Result<()>)
        requires
            old(self).inv(),
            crate::device::io::io_state(*old(self), *old(spare), *old(memory), *old(rq)).inv(),
            crate::device::io::io_state(*old(self), *old(spare), *old(memory), *old(rq)).in_range(old(rq).sector),
            crate::device::io::io_state(*old(self), *old(spare), *old(memory), *old(rq)).discards_ok(
                old(self).config(),
            ),
            crate::device::io::io_state(
                *old(self),
                *old(spare),
                *old(memory),
                *old(rq),
            ).read_checked_from() matches Some(start) ==> crate::device::io::answerable(
                old(self).config(),
                start,
                old(rq).sectors,
                lookup,
                clear,
            ),
        ensures
            final(self).inv(),
            final(self).same_but_io(&*old(self)),
            crate::device::io::io_state(*final(self), *final(spare), *final(memory), *final(rq)).inv(),
            exists|v: Verdict|
                {
                    &&& crate::device::io::io_state(
                        *old(self),
                        *old(spare),
                        *old(memory),
                        *old(rq),
                    ).read_checked_from() matches Some(start) ==> crate::device::io::judged(
                        old(self).config(),
                        start,
                        old(rq).sectors,
                        lookup,
                        clear,
                        v,
                    )
                    &&& (crate::device::io::io_state(*final(self), *final(spare), *final(memory), *final(rq)), r)
                        == #[trigger] crate::device::io::io_state(
                        *old(self),
                        *old(spare),
                        *old(memory),
                        *old(rq),
                    ).zone_read(old(self).config(), v)
                },
    {
        let ghost start = crate::device::io::io_state(*self, *spare, *memory, *rq);
        let no: usize = match self.zoned.zone(rq.sector) {
            Ok(no) => no,
            Err(e) => {
                proof {
                    let v = Verdict { error: false, sectors: 0, result: Ok(()) };
                    assert(start.zone_read(old(self).config(), v) == (start, Err::<(), Errno>(e)));
                }
                return Err(e);
            },
        };
        let zone: ZoneDescriptor = self.zoned.zones[no];
        if zone.condition == ZoneCondition::Offline {
            proof {
                let v = Verdict { error: false, sectors: 0, result: Ok(()) };
                assert(start.zone_read(old(self).config(), v) == (
                    start,
                    Err::<(), Errno>(Errno(EINVAL)),
                ));
            }
            return Err(Errno(EINVAL));
        }
        match zone.check_bounds_read(rq.sector, rq.sectors) {
            Ok(()) => {},
            Err(e) => {
                proof {
                    let v = Verdict { error: false, sectors: 0, result: Ok(()) };
                    assert(start.zone_read(old(self).config(), v) == (start, Err::<(), Errno>(e)));
                }
                return Err(e);
            },
        }
        let r = self.handle_regular_command(spare, memory, rq, lookup, clear);
        proof {
            let v = choose|v: Verdict|
                {
                    &&& #[trigger] crate::device::io::judged(
                        old(self).config(),
                        old(rq).sector,
                        old(rq).sectors,
                        lookup,
                        clear,
                        v,
                    )
                    &&& (crate::device::io::io_state(*self, *spare, *memory, *rq), r) == start.regular(
                        old(self).config(),
                        v,
                    )
                };
            assert((crate::device::io::io_state(*self, *spare, *memory, *rq), r) == start.zone_read(
                old(self).config(),
                v,
            ));
        }
        r
    }

    /// Processes a write to a zone.
    pub fn zoned_write<L: FnOnce(u64, u64) -> (i32, u64, u64), G: FnOnce(u64, u64) -> bool>(
        &mut self,
        spare: &mut Option<NullBlockPage>,
        memory: &mut Memory,
        rq: &mut Request,
        lookup: L,
        clear: G,
    ) -> (r: Result<()>)
        requires
            old(self).inv(),
            old(self).zoned@.can_count_closed(),
            crate::device::io::io_state(*old(self), *old(spare), *old(memory), *old(rq)).inv(),
            crate::device::io::io_state(*old(self), *old(spare), *old(memory), *old(rq)).in_range(old(rq).sector),
            crate::device::io::io_state(*old(self), *old(spare), *old(memory), *old(rq)).pointer_in_range(),
            crate::device::io::io_state(
                *old(self),
                *old(spare),
                *old(memory),
                *old(rq),
            ).write_checked_from() matches Some(start) ==> crate::device::io::answerable(
                old(self).config(),
                start,
                old(rq).sectors,
                lookup,
                clear,
            ),
        ensures
            final(self).inv(),
            final(self).same_but_io(&*old(self)),
            crate::device::io::io_state(*final(self), *final(spare), *final(memory), *final(rq)).inv(),
            exists|v: Verdict|
                {
                    &&& crate::device::io::io_state(
                        *old(self),
                        *old(spare),
                        *old(memory),
                        *old(rq),
                    ).write_checked_from() matches Some(start) ==> crate::device::io::judged(
                        old(self).config(),
                        start,
                        old(rq).sectors,
                        lookup,
                        clear,
                        v,
                    )
                    &&& (crate::device::io::io_state(*final(self), *final(spare), *final(memory), *final(rq)), r)
                        == #[trigger] crate::device::io::io_state(
                        *old(self),
                        *old(spare),
                        *old(memory),
                        *old(rq),
                    ).zone_written(old(self).config(), v)
                },
            crate::zoned::exact(old(self).zoned@) ==> crate::zoned::exact(final(self).zoned@),
    {
        let ghost start = crate::device::io::io_state(*self, *spare, *memory, *rq);
        let no: usize = match self.zoned.zone(rq.sector) {
            Ok(no) => no,
            Err(e) => {
                proof {
                    let none = Verdict { error: false, sectors: 0, result: Ok(()) };
                    assert(start.zone_written(old(self).config(), none) == (
                        start,
                        Err::<(), Errno>(e),
                    ));
                }
                return Err(e);
            },
        };
        if self.zoned.zones[no].kind == ZoneType::Conventional {
            let r = self.write_conventional(spare, memory, rq, no, lookup, clear);
            proof {
                let v = choose|v: Verdict|
                    {
                        &&& start.write_checked_from() matches Some(from)
                            ==> crate::device::io::judged(
                            old(self).config(),
                            from,
                            old(rq).sectors,
                            lookup,
                            clear,
                            v,
                        )
                        &&& (crate::device::io::io_state(*self, *spare, *memory, *rq), r)
                            == #[trigger] start.conventional_written(old(self).config(), v)
                    };
                assert((crate::device::io::io_state(*self, *spare, *memory, *rq), r)
                    == start.zone_written(old(self).config(), v));
            }
            r
        } else {
            let r = self.write_sequential(spare, memory, rq, no, lookup, clear);
            proof {
                let v = choose|v: Verdict|
                    {
                        &&& start.write_checked_from() matches Some(from)
                            ==> crate::device::io::judged(
                            old(self).config(),
                            from,
                            old(rq).sectors,
                            lookup,
                            clear,
                            v,
                        )
                        &&& (crate::device::io::io_state(*self, *spare, *memory, *rq), r)
                            == #[trigger] start.sequential_written(old(self).config(), v)
                    };
                assert((crate::device::io::io_state(*self, *spare, *memory, *rq), r)
                    == start.zone_written(old(self).config(), v));
            }
            r
        }
    }

    /// Processes a write to conventional zone number `no`.
    fn write_conventional<L: FnOnce(u64, u64) -> (i32, u64, u64), G: FnOnce(u64, u64) -> bool>(
        &mut self,
        spare: &mut Option<NullBlockPage>,
        memory: &mut Memory,
        rq: &mut Request,
        no: usize,
        lookup: L,
        clear: G,
    ) -> (r: Result<()>)
        requires
            old(self).inv(),
            old(self).zoned@.can_count_closed(),
            crate::device::io::io_state(*old(self), *old(spare), *old(memory), *old(rq)).inv(),
            crate::device::io::io_state(
                *old(self),
                *old(spare),
                *old(memory),
                *old(rq),
            ).in_range(old(rq).sector),
            crate::device::io::io_state(
                *old(self),
                *old(spare),
                *old(memory),
                *old(rq),
            ).pointer_in_range(),
            crate::device::io::io_state(
                *old(self),
                *old(spare),
                *old(memory),
                *old(rq),
            ).write_checked_from() matches Some(start) ==> crate::device::io::answerable(
                old(self).config(),
                start,
                old(rq).sectors,
                lookup,
                clear,
            ),
            no == old(self).zoned@.zone_no(old(rq).sector),
            no < old(self).zoned@.zones.len(),
            old(self).zoned@.zones[no as int].kind == ZoneType::Conventional,
        ensures
            final(self).inv(),
            final(self).same_but_io(&*old(self)),
            crate::device::io::io_state(
                *final(self),
                *final(spare),
                *final(memory),
                *final(rq),
            ).inv(),
            exists|v: Verdict|
                {
                    &&& crate::device::io::io_state(
                        *old(self),
                        *old(spare),
                        *old(memory),
                        *old(rq),
                    ).write_checked_from() matches Some(start) ==> crate::device::io::judged(
                        old(self).config(),
                        start,
                        old(rq).sectors,
                        lookup,
                        clear,
                        v,
                    )
                    &&& (
                        crate::device::io::io_state(
                            *final(self),
                            *final(spare),
                            *final(memory),
                            *final(rq),
                        ),
                        r,
                    ) == #[trigger] crate::device::io::io_state(
                        *old(self),
                        *old(spare),
                        *old(memory),
                        *old(rq),
                    ).conventional_written(old(self).config(), v)
                },
            crate::zoned::exact(old(self).zoned@) ==> crate::zoned::exact(final(self).zoned@),
    {
        let ghost start = crate::device::io::io_state(*self, *spare, *memory, *rq);
        let ghost none = Verdict { error: false, sectors: 0, result: Ok(()) };
        let zone: ZoneDescriptor = self.zoned.zones[no];
        proof {
            crate::zoned::lemma_zone_fits(self.zoned@, no as int);
        }
        if rq.command == Command::ZoneAppend {
            assert(start.conventional_written(old(self).config(), none) == (
                start,
                Err::<(), Errno>(Errno(EINVAL)),
            ));
            return Err(Errno(EINVAL));
        }
        match zone.check_bounds_write(rq.sector, rq.sectors) {
            Ok(()) => {},
            Err(e) => {
                assert(start.conventional_written(old(self).config(), none) == (
                    start,
                    Err::<(), Errno>(e),
                ));
                return Err(e);
            },
        }
        let mut sectors: u32 = rq.sectors;
        let checked = self.handle_bad_blocks(rq, &mut sectors, lookup, clear);
        let ghost v = choose|v: Verdict|
            {
                &&& #[trigger] crate::device::io::judged(
                    old(self).config(),
                    old(rq).sector,
                    old(rq).sectors,
                    lookup,
                    clear,
                    v,
                )
                &&& checked == v.result
                &&& sectors == v.sectors
                &&& v.sectors <= old(rq).sectors
                &&& rq@ == old(rq)@.judged(v)
            };
        assert(crate::device::io::io_state(*self, *spare, *memory, *rq) =~= start.judged(v));
        match checked {
            Ok(()) => {},
            Err(e) => {
                assert(start.conventional_written(old(self).config(), v) == (
                    start.judged(v),
                    Err::<(), Errno>(e),
                ));
                return Err(e);
            },
        }
        let command = rq.command;
        let r = self.transfer(spare, memory, rq, command, sectors);
        proof {
            lemma_transfer_frame(
                start.judged(v),
                old(self).config(),
                command,
                0,
                start.rq.sector as int,
                start.rq.sector + sectors,
            );
            assert((crate::device::io::io_state(*self, *spare, *memory, *rq), r)
                == start.conventional_written(old(self).config(), v));
        }
        r
    }

    /// Processes a write to sequential zone number `no`.
    fn write_sequential<L: FnOnce(u64, u64) -> (i32, u64, u64), G: FnOnce(u64, u64) -> bool>(
        &mut self,
        spare: &mut Option<NullBlockPage>,
        memory: &mut Memory,
        rq: &mut Request,
        no: usize,
        lookup: L,
        clear: G,
    ) -> (r: Result<()>)
        requires
            old(self).inv(),
            old(self).zoned@.can_count_closed(),
            crate::device::io::io_state(*old(self), *old(spare), *old(memory), *old(rq)).inv(),
            crate::device::io::io_state(
                *old(self),
                *old(spare),
                *old(memory),
                *old(rq),
            ).in_range(old(rq).sector),
            crate::device::io::io_state(
                *old(self),
                *old(spare),
                *old(memory),
                *old(rq),
            ).pointer_in_range(),
            crate::device::io::io_state(
                *old(self),
                *old(spare),
                *old(memory),
                *old(rq),
            ).write_checked_from() matches Some(start) ==> crate::device::io::answerable(
                old(self).config(),
                start,
                old(rq).sectors,
                lookup,
                clear,
            ),
            no == old(self).zoned@.zone_no(old(rq).sector),
            no < old(self).zoned@.zones.len(),
            old(self).zoned@.zones[no as int].kind != ZoneType::Conventional,
        ensures
            final(self).inv(),
            final(self).same_but_io(&*old(self)),
            crate::device::io::io_state(
                *final(self),
                *final(spare),
                *final(memory),
                *final(rq),
            ).inv(),
            exists|v: Verdict|
                {
                    &&& crate::device::io::io_state(
                        *old(self),
                        *old(spare),
                        *old(memory),
                        *old(rq),
                    ).write_checked_from() matches Some(start) ==> crate::device::io::judged(
                        old(self).config(),
                        start,
                        old(rq).sectors,
                        lookup,
                        clear,
                        v,
                    )
                    &&& (
                        crate::device::io::io_state(
                            *final(self),
                            *final(spare),
                            *final(memory),
                            *final(rq),
                        ),
                        r,
                    ) == #[trigger] crate::device::io::io_state(
                        *old(self),
                        *old(spare),
                        *old(memory),
                        *old(rq),
                    ).sequential_written(old(self).config(), v)
                },
            crate::zoned::exact(old(self).zoned@) ==> crate::zoned::exact(final(self).zoned@),
    {
        let ghost start = crate::device::io::io_state(*self, *spare, *memory, *rq);
        let ghost none = Verdict { error: false, sectors: 0, result: Ok(()) };
        let append: bool = rq.command == Command::ZoneAppend;
        proof {
            crate::zoned::lemma_zone_fits(self.zoned@, no as int);
            if self.zoned@.write_begun(no as int) is Ok {
                crate::zoned::lemma_begin_keeps(self.zoned@, no as int);
            }
        }
        let position: u64 = match self.zoned.write_position(no, rq.sector, rq.sectors, append) {
            Ok(position) => position,
            Err(e) => {
                assert(start.sequential_written(old(self).config(), none) == (
                    start,
                    Err::<(), Errno>(e),
                ));
                return Err(e);
            },
        };
        if append {
            rq.sector = position;
        }
        assert(crate::device::io::io_state(*self, *spare, *memory, *rq) =~= start.placed(position));
        match self.zoned.begin_write(no) {
            Ok(()) => {},
            Err(e) => {
                assert(crate::device::io::io_state(*self, *spare, *memory, *rq) =~= start.placed(position));
                assert(start.sequential_written(old(self).config(), none) == (
                    start.placed(position),
                    Err::<(), Errno>(e),
                ));
                return Err(e);
            },
        }
        let ghost moved = *rq;
        let mut sectors: u32 = rq.sectors;
        let checked = self.handle_bad_blocks(rq, &mut sectors, lookup, clear);
        let ghost v = choose|v: Verdict|
            {
                &&& #[trigger] crate::device::io::judged(
                    old(self).config(),
                    position,
                    old(rq).sectors,
                    lookup,
                    clear,
                    v,
                )
                &&& checked == v.result
                &&& sectors == v.sectors
                &&& v.sectors <= old(rq).sectors
                &&& rq@ == moved@.judged(v)
            };
        let ghost begun = start.write_begun(position, v);
        assert(crate::device::io::io_state(*self, *spare, *memory, *rq) =~= begun);
        match checked {
            Ok(()) => {},
            Err(e) => {
                assert(start.sequential_written(old(self).config(), v) == (
                    begun,
                    Err::<(), Errno>(e),
                ));
                return Err(e);
            },
        }
        let r = self.write_begun(spare, memory, rq, no, sectors, Ghost(v));
        assert((crate::device::io::io_state(*self, *spare, *memory, *rq), r)
            == start.sequential_written(old(self).config(), v));
        r
    }

    /// Transfers the data of a write to sequential zone number `no` and advances its write pointer.
    fn write_begun(
        &mut self,
        spare: &mut Option<NullBlockPage>,
        memory: &mut Memory,
        rq: &mut Request,
        no: usize,
        sectors: u32,
        Ghost(v): Ghost<Verdict>,
    ) -> (r: Result<()>)
        requires
            old(self).inv(),
            v.sectors == sectors,
            crate::device::io::io_state(*old(self), *old(spare), *old(memory), *old(rq)).inv(),
            crate::device::io::io_state(
                *old(self),
                *old(spare),
                *old(memory),
                *old(rq),
            ).in_range(old(rq).sector),
            sectors <= old(rq).sectors,
            no < old(self).zoned@.zones.len(),
            old(self).zoned@.zones[no as int].kind != ZoneType::Conventional,
            old(self).zoned@.zones[no as int].condition != ZoneCondition::Empty,
            old(self).zoned@.zones[no as int].condition != ZoneCondition::Closed,
            old(self).zoned@.zones[no as int].write_pointer + sectors <= old(
                self,
            ).zoned@.zones[no as int].limit(),
        ensures
            final(self).inv(),
            final(self).same_but_io(&*old(self)),
            crate::device::io::io_state(
                *final(self),
                *final(spare),
                *final(memory),
                *final(rq),
            ).inv(),
            (
                crate::device::io::io_state(
                    *final(self),
                    *final(spare),
                    *final(memory),
                    *final(rq),
                ),
                r,
            ) == crate::device::io::io_state(
                *old(self),
                *old(spare),
                *old(memory),
                *old(rq),
            ).begun_written(old(self).config(), no as int, v),
            crate::zoned::exact(old(self).zoned@) ==> crate::zoned::exact(final(self).zoned@),
    {
        let ghost begun = crate::device::io::io_state(*self, *spare, *memory, *rq);
        proof {
            crate::zoned::lemma_zone_fits(self.zoned@, no as int);
        }
        if self.memory_backed {
            proof {
                lemma_transfer_frame(
                    begun,
                    old(self).config(),
                    Command::Write,
                    0,
                    rq.sector as int,
                    rq.sector + sectors,
                );
            }
            match self.transfer(spare, memory, rq, Command::Write, sectors) {
                Ok(()) => {},
                Err(e) => {
                    return Err(e);
                },
            }
        }
        let ghost done = crate::device::io::io_state(*self, *spare, *memory, *rq);
        self.zoned.advance_write(no, sectors);
        assert(crate::device::io::io_state(*self, *spare, *memory, *rq) =~= (IoState {
            zones: done.zones.write_advanced(no as int, sectors),
            ..done
        }));
        Ok(())
    }
}

/// The state of a device that manages zones.
pub open spec fn zone_state(device: NullBlkDevice, rq: Request) -> IoState {
    IoState {
        store: device.storage@,
        zones: device.zoned@,
        spare: None,
        grants: 0,
        rq: rq@,
    }
}

impl IoState {
    /// A request for a zoned device can be processed: its sectors, and those of the zones that it
    /// affects, have numbers.
    pub open spec fn zoned_ok(self, config: IoConfig) -> bool {
        &&& self.zones.can_count_closed()
        &&& match self.rq.command {
            Command::ZoneAppend | Command::Write => {
                &&& self.in_range(self.rq.sector)
                &&& self.pointer_in_range()
            },
            Command::ZoneReset
            | Command::ZoneResetAll
            | Command::ZoneOpen
            | Command::ZoneClose
            | Command::ZoneFinish => self.resets_ok(),
            _ => self.in_range(self.rq.sector) && self.discards_ok(config),
        }
    }
}

/// Resetting all zones succeeds: afterwards every sequential zone that is in service is empty, with
/// its write pointer at its start, and all other zones are as they were.
pub proof fn lemma_reset_all(s: IoState, no: int, i: int)
    requires
        s.zones.inv(),
        0 <= no,
        0 <= i < s.zones.zones.len(),
    ensures
        s.zones_reset(no).1 == Ok::<(), Errno>(()),
        s.zones_reset(no).0.zones.inv(),
        s.zones_reset(no).0.zones.zones.len() == s.zones.zones.len(),
        i < no || s.reset_skips(i) ==> s.zones_reset(no).0.zones.zones[i] == s.zones.zones[i],
        i >= no && s.zones.zones[i].kind != ZoneType::Conventional && s.zones.zones[i].condition
            != ZoneCondition::ReadOnly && s.zones.zones[i].condition != ZoneCondition::Offline ==> {
            &&& s.zones_reset(no).0.zones.zones[i].condition == ZoneCondition::Empty
            &&& s.zones_reset(no).0.zones.zones[i].write_pointer == s.zones.zones[i].start_sector
        },
    decreases s.zones.zones.len() - no,
{
    if no < s.zones.zones.len() {
        assert(s.zones.zone_placed(no));
        assert(s.zones.zone_placed(i));
        if s.reset_skips(no) {
            lemma_reset_all(s, no + 1, i);
        } else {
            crate::zoned::lemma_reset_keeps(s.zones, no);
            let next = s.zone_reset(no).0;
            lemma_reset_all(next, no + 1, i);
        }
    }
}

/// Zone management does not depend on what is needed for transfers.
proof fn lemma_managed_frame(s: IoState, t: IoState, no: int)
    requires
        0 <= no,
        t == (IoState { store: s.store, zones: s.zones, rq: s.rq, ..t }),
    ensures
        t.zones_reset(no).0 =~= (IoState {
            store: s.zones_reset(no).0.store,
            zones: s.zones_reset(no).0.zones,
            rq: s.rq,
            ..t
        }),
        t.zones_reset(no).1 == s.zones_reset(no).1,
    decreases s.zones.zones.len() - no,
{
    if no < s.zones.zones.len() {
        if s.reset_skips(no) {
            lemma_managed_frame(s, t, no + 1);
        } else if s.zones.was_reset(no) is Ok {
            lemma_managed_frame(s.zone_reset(no).0, t.zone_reset(no).0, no + 1);
        }
    }
}

impl NullBlkDevice {
    /// Processes a request for a zoned device.
    pub fn handle_zoned_command<
        L: FnOnce(u64, u64) -> (i32, u64, u64),
        G: FnOnce(u64, u64) -> bool,
    >(
        &mut self,
        spare: &mut Option<NullBlockPage>,
        memory: &mut Memory,
        rq: &mut Request,
        lookup: L,
        clear: G,
    ) -> (r: Result<()>)
        requires
            old(self).inv(),
            crate::device::io::io_state(*old(self), *old(spare), *old(memory), *old(rq)).inv(),
            crate::device::io::io_state(*old(self), *old(spare), *old(memory), *old(rq)).zoned_ok(
                old(self).config(),
            ),
            crate::device::io::io_state(
                *old(self),
                *old(spare),
                *old(memory),
                *old(rq),
            ).zoned_checked_from() matches Some(start) ==> crate::device::io::answerable(
                old(self).config(),
                start,
                old(rq).sectors,
                lookup,
                clear,
            ),
        ensures
            final(self).inv(),
            final(self).same_but_io(&*old(self)),
            crate::device::io::io_state(
                *final(self),
                *final(spare),
                *final(memory),
                *final(rq),
            ).inv(),
            exists|v: Verdict|
                {
                    &&& crate::device::io::io_state(*old(self), *old(spare), *old(memory), *old(rq)).zoned_checked_from() matches Some(start) ==> crate::device::io::judged(
                        old(self).config(),
                        start,
                        old(rq).sectors,
                        lookup,
                        clear,
                        v,
                    )
                    &&& (
                        crate::device::io::io_state(
                            *final(self),
                            *final(spare),
                            *final(memory),
                            *final(rq),
                        ),
                        r,
                    ) == #[trigger] crate::device::io::io_state(*old(self), *old(spare), *old(memory), *old(rq)).zoned(old(self).config(), v)
                },
    {
        let ghost start = crate::device::io::io_state(*self, *spare, *memory, *rq);
        match rq.command {
            Command::ZoneAppend | Command::Write => {
                let r = self.zoned_write(spare, memory, rq, lookup, clear);
                proof {
                    let v = choose|v: Verdict|
                        {
                            &&& start.write_checked_from() matches Some(from)
                                ==> crate::device::io::judged(
                                old(self).config(),
                                from,
                                old(rq).sectors,
                                lookup,
                                clear,
                                v,
                            )
                            &&& (crate::device::io::io_state(*self, *spare, *memory, *rq), r)
                                == #[trigger] start.zone_written(old(self).config(), v)
                        };
                    assert((crate::device::io::io_state(*self, *spare, *memory, *rq), r)
                        == start.zoned(old(self).config(), v));
                }
                r
            },
            Command::ZoneReset
            | Command::ZoneResetAll
            | Command::ZoneOpen
            | Command::ZoneClose
            | Command::ZoneFinish => {
                let r = self.zone_management(&*rq);
                proof {
                    let v = Verdict { error: false, sectors: 0, result: Ok(()) };
                    lemma_managed_frame(zone_state(*old(self), *old(rq)), start, 0);
                    assert(crate::device::io::io_state(*self, *spare, *memory, *rq)
                        =~= start.zones_managed().0);
                    assert((crate::device::io::io_state(*self, *spare, *memory, *rq), r)
                        == start.zoned(old(self).config(), v));
                }
                r
            },
            _ => {
                let r = self.zoned_read(spare, memory, rq, lookup, clear);
                proof {
                    let v = choose|v: Verdict|
                        {
                            &&& start.read_checked_from() matches Some(from)
                                ==> crate::device::io::judged(
                                old(self).config(),
                                from,
                                old(rq).sectors,
                                lookup,
                                clear,
                                v,
                            )
                            &&& (crate::device::io::io_state(*self, *spare, *memory, *rq), r)
                                == #[trigger] start.zone_read(old(self).config(), v)
                        };
                    assert((crate::device::io::io_state(*self, *spare, *memory, *rq), r)
                        == start.zoned(old(self).config(), v));
                }
                r
            },
        }
    }

    /// Reports zones, beginning with the zone that holds `sector`, to `callback`, which can end it
    /// with an error. Returns the number of zones that were reported.
    pub fn report_zones_internal<F: Fn(&ZoneReport, u32) -> Result<()>>(
        &self,
        sector: u64,
        nr_zones: u32,
        callback: F,
    ) -> (r: Result<u32>)
        requires
            self.zoned.inv(),
            self.zoned@.zone_no(sector) <= self.zoned@.zones.len(),
            reportable(callback, self.zoned@, sector, nr_zones),
        ensures
            r matches Ok(n) ==> n == report_count(self.zoned@, sector, nr_zones) && all_reported(
                callback,
                self.zoned@,
                sector,
                n as int,
            ),
            r matches Err(e) ==> exists|k: int|
                {
                    &&& 0 <= k < report_count(self.zoned@, sector, nr_zones)
                    &&& #[trigger] all_reported(callback, self.zoned@, sector, k)
                    &&& reported(
                        callback,
                        self.zoned@.zones,
                        self.zoned@.zone_no(sector) as int,
                        k,
                        Some(e),
                    )
                },
    {
        let first: usize = self.zoned.zone_no(sector);
        let mut count: u32 = 0;
        while count < nr_zones && (count as usize) < self.zoned.zones.len() - first
            invariant
                self.zoned.inv(),
                first == self.zoned@.zone_no(sector),
                first <= self.zoned@.zones.len(),
                count <= nr_zones,
                count <= self.zoned@.zones.len() - first,
                reportable(callback, self.zoned@, sector, nr_zones),
                forall|i: int|
                    0 <= i < count ==> #[trigger] reported(
                        callback,
                        self.zoned@.zones,
                        first as int,
                        i,
                        None,
                    ),
            decreases nr_zones - count,
        {
            let zone: ZoneDescriptor = self.zoned.zones[first + count as usize];
            let report = ZoneReport {
                start: zone.start_sector,
                len: zone.size_sectors as u64,
                wp: zone.write_pointer,
                capacity: zone.capacity_sectors as u64,
                kind: zone.kind.as_raw() as u8,
                cond: zone.condition.as_raw() as u8,
            };
            assert(report == report_of(self.zoned@.zones[first + count]));
            assert(all_reported(callback, self.zoned@, sector, count as int));
            let outcome = callback(&report, count);
            assert(call_ensures(callback, (&report, count), outcome));
            match outcome {
                Ok(()) => {
                    assert(reported(callback, self.zoned@.zones, first as int, count as int, None));
                },
                Err(e) => {
                    assert(reported(
                        callback,
                        self.zoned@.zones,
                        first as int,
                        count as int,
                        Some(e),
                    ));
                    assert(all_reported(callback, self.zoned@, sector, count as int));
                    return Err(e);
                },
            }
            count += 1;
        }
        Ok(count)
    }
}

/// Each zone can be reported, once those before it were reported without an error.
pub open spec fn reportable<F: Fn(&ZoneReport, u32) -> Result<()>>(
    callback: F,
    zones: ZonesState,
    sector: u64,
    nr_zones: u32,
) -> bool {
    forall|report: &ZoneReport, i: u32|
        i < report_count(zones, sector, nr_zones) && *report == report_of(
            zones.zones[zones.zone_no(sector) + i],
        ) && all_reported(callback, zones, sector, i as int) ==> #[trigger] call_requires(
            callback,
            (report, i),
        )
}

/// Number of zones to report.
pub open spec fn report_count(zones: ZonesState, sector: u64, nr_zones: u32) -> int {
    let rest = zones.zones.len() - zones.zone_no(sector);
    if nr_zones <= rest {
        nr_zones as int
    } else {
        rest
    }
}

/// The first `count` zones, beginning with the zone that holds `sector`, were reported without an
/// error.
pub open spec fn all_reported<F: Fn(&ZoneReport, u32) -> Result<()>>(
    callback: F,
    zones: ZonesState,
    sector: u64,
    count: int,
) -> bool {
    forall|i: int|
        0 <= i < count ==> #[trigger] reported(
            callback,
            zones.zones,
            zones.zone_no(sector) as int,
            i,
            None,
        )
}

/// Zone number `i` from `first` on was reported, and the answer was an error or none.
pub open spec fn reported<F: Fn(&ZoneReport, u32) -> Result<()>>(
    callback: F,
    zones: Seq<ZoneDescriptor>,
    first: int,
    i: int,
    error: Option<Errno>,
) -> bool {
    exists|r: Result<()>|
        {
            &&& #[trigger] call_ensures(callback, (&report_of(zones[first + i]), i as u32), r)
            &&& match error {
                Some(e) => r is Err && r->Err_0 == e,
                None => r is Ok,
            }
        }
}

} // verus!
