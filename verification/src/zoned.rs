//! Zones of a zoned block device.

use crate::disk_storage::DiskStorage;
use crate::error::{Errno, Result, EBUSY, EINVAL, EIO};
use crate::util::{align_down, align_up, bytes_to_sectors, is_power_of_two, mib_to_sectors};
use vstd::prelude::*;

verus! {

/// [`u32::ilog2`] returns the base two logarithm, rounded down; it does not return for zero.
pub assume_specification[ u32::ilog2 ](i: u32) -> (r: u32)
    requires
        i > 0,
    ensures
        vstd::arithmetic::power2::pow2(r as nat) <= i < vstd::arithmetic::power2::pow2(
            (r + 1) as nat,
        ),
;

/// What a zone accepts.
#[derive(Copy, Clone, PartialEq, Eq, Structural, Debug)]
pub enum ZoneType {
    /// Any write.
    Conventional,
    /// Writes at the write pointer only.
    SequentialWriteRequired,
    /// Any write; writes at the write pointer are preferred.
    SequentialWritePreferred,
}

impl ZoneType {
    /// The number of the type.
    pub open spec fn raw(self) -> u32 {
        match self {
            ZoneType::Conventional => 1,
            ZoneType::SequentialWriteRequired => 2,
            ZoneType::SequentialWritePreferred => 3,
        }
    }

    /// The number of the type.
    pub fn as_raw(self) -> (r: u32)
        ensures
            r == self.raw(),
    {
        match self {
            ZoneType::Conventional => 1,
            ZoneType::SequentialWriteRequired => 2,
            ZoneType::SequentialWritePreferred => 3,
        }
    }
}

/// Condition of a zone.
#[derive(Copy, Clone, PartialEq, Eq, Structural, Debug)]
pub enum ZoneCondition {
    /// The zone has no write pointer.
    NoWritePointer,
    /// Nothing was written.
    Empty,
    /// Opened by a write.
    ImplicitOpen,
    /// Opened by a command.
    ExplicitOpen,
    /// Partly written and closed.
    Closed,
    /// No more writes are possible.
    Full,
    /// The zone can only be read.
    ReadOnly,
    /// The zone is dead.
    Offline,
}

impl ZoneCondition {
    /// The number of the condition.
    pub open spec fn raw(self) -> u32 {
        match self {
            ZoneCondition::NoWritePointer => 0,
            ZoneCondition::Empty => 1,
            ZoneCondition::ImplicitOpen => 2,
            ZoneCondition::ExplicitOpen => 3,
            ZoneCondition::Closed => 4,
            ZoneCondition::ReadOnly => 0xd,
            ZoneCondition::Full => 0xe,
            ZoneCondition::Offline => 0xf,
        }
    }

    /// The number of the condition.
    pub fn as_raw(self) -> (r: u32)
        ensures
            r == self.raw(),
    {
        match self {
            ZoneCondition::NoWritePointer => 0,
            ZoneCondition::Empty => 1,
            ZoneCondition::ImplicitOpen => 2,
            ZoneCondition::ExplicitOpen => 3,
            ZoneCondition::Closed => 4,
            ZoneCondition::ReadOnly => 0xd,
            ZoneCondition::Full => 0xe,
            ZoneCondition::Offline => 0xf,
        }
    }
}

/// A zone.
#[derive(Copy, Clone, PartialEq, Eq, Structural, Debug)]
pub struct ZoneDescriptor {
    /// First sector.
    pub start_sector: u64,
    /// Number of sectors of the address range.
    pub size_sectors: u32,
    /// What the zone accepts.
    pub kind: ZoneType,
    /// Number of sectors that can be written.
    pub capacity_sectors: u32,
    /// Where the next write goes.
    pub write_pointer: u64,
    /// Condition of the zone.
    pub condition: ZoneCondition,
}

impl ZoneDescriptor {
    /// The zone with another condition.
    pub open spec fn with_condition(self, condition: ZoneCondition) -> Self {
        ZoneDescriptor { condition, ..self }
    }

    /// The zone with another condition and another write pointer.
    pub open spec fn with_pointer(self, condition: ZoneCondition, write_pointer: int) -> Self {
        ZoneDescriptor { condition, write_pointer: write_pointer as u64, ..self }
    }

    /// First sector that cannot be written.
    pub open spec fn limit(self) -> int {
        self.start_sector + self.capacity_sectors
    }

    /// The write pointer is where the condition says.
    pub open spec fn pointer_ok(self) -> bool {
        match self.condition {
            ZoneCondition::NoWritePointer => self.kind == ZoneType::Conventional,
            ZoneCondition::Empty => self.write_pointer == self.start_sector,
            ZoneCondition::ImplicitOpen | ZoneCondition::ExplicitOpen => self.start_sector
                <= self.write_pointer < self.limit(),
            ZoneCondition::Closed => self.start_sector < self.write_pointer < self.limit(),
            ZoneCondition::Full => self.write_pointer == self.limit() || self.write_pointer
                == self.start_sector + self.size_sectors,
            ZoneCondition::ReadOnly | ZoneCondition::Offline => true,
        }
    }

    /// Checks that a write stays in the part of the zone that can be written.
    pub fn check_bounds_write(&self, sector: u64, sectors: u32) -> (r: Result<()>)
        requires
            sector + sectors <= u64::MAX,
            self.limit() <= u64::MAX,
        ensures
            r == (if sector + sectors > self.limit() {
                Err::<(), Errno>(Errno(EIO))
            } else {
                Ok(())
            }),
    {
        if sector + sectors as u64 > self.start_sector + self.capacity_sectors as u64 {
            Err(Errno(EIO))
        } else {
            Ok(())
        }
    }

    /// Checks that a read stays below the write pointer.
    pub fn check_bounds_read(&self, sector: u64, sectors: u32) -> (r: Result<()>)
        requires
            sector + sectors <= u64::MAX,
        ensures
            r == (if sector + sectors > self.write_pointer {
                Err::<(), Errno>(Errno(EIO))
            } else {
                Ok(())
            }),
    {
        if sector + sectors as u64 > self.write_pointer {
            Err(Errno(EIO))
        } else {
            Ok(())
        }
    }
}

/// What a zoned device is made of.
#[derive(Copy, Clone, PartialEq, Eq, Structural, Debug)]
pub struct ZoneOptionsArgs {
    /// Whether the device is zoned.
    pub enable: bool,
    /// Capacity of the device in MiB.
    pub device_capacity_mib: u64,
    /// Size of a block in bytes.
    pub block_size_bytes: u32,
    /// Size of a zone in MiB.
    pub zone_size_mib: u32,
    /// Capacity of a zone in MiB, zero for the size of a zone.
    pub zone_capacity_mib: u32,
    /// Number of conventional zones.
    pub zone_nr_conv: u32,
    /// Maximum number of open zones, zero for no limit.
    pub zone_max_open: u32,
    /// Maximum number of active zones, zero for no limit.
    pub zone_max_active: u32,
    /// Maximum size of an append in sectors.
    pub zone_append_max_sectors: u32,
}

impl ZoneOptionsArgs {
    /// The sizes of zones are a power of two and their capacity fits.
    pub open spec fn zone_sizes_ok(self) -> bool {
        crate::util::is_power(self.zone_size_mib as int) && self.zone_capacity_mib
            <= self.zone_size_mib
    }

    /// Size of a zone in sectors.
    pub open spec fn zone_sectors(self) -> int {
        self.zone_size_mib * 2048
    }

    /// Capacity of the device in sectors, without the bits that leave the word.
    pub open spec fn device_sectors(self) -> int {
        (self.device_capacity_mib * 2048) % 0x1_0000_0000_0000_0000
    }

    /// Number of zones.
    pub open spec fn zone_count(self) -> int {
        crate::util::rounded_up(self.device_sectors(), self.zone_sectors()) / self.zone_sectors()
    }

    /// Number of conventional zones: at least one zone is sequential.
    pub open spec fn conventional_count(self) -> int {
        if self.zone_nr_conv >= self.zone_count() {
            self.zone_count() - 1
        } else {
            self.zone_nr_conv as int
        }
    }

    /// Number of sequential zones.
    pub open spec fn sequential_count(self) -> int {
        self.zone_count() - self.conventional_count()
    }

    /// Limit on active zones; one that cannot be exceeded is dropped.
    pub open spec fn max_active(self) -> u32 {
        if self.zone_max_active >= self.sequential_count() {
            0
        } else {
            self.zone_max_active
        }
    }

    /// Limit on open zones: not above the limit on active zones; one that cannot be exceeded is
    /// dropped.
    pub open spec fn max_open(self) -> u32 {
        if self.max_active() != 0 && self.zone_max_open > self.max_active() {
            self.max_active()
        } else if self.zone_max_open >= self.sequential_count() {
            0
        } else {
            self.zone_max_open
        }
    }

    /// Capacity of a zone in sectors: its size by default.
    pub open spec fn zone_capacity_sectors(self) -> int {
        if self.zone_capacity_mib == 0 {
            self.zone_sectors()
        } else {
            self.zone_capacity_mib * 2048
        }
    }

    /// Number of sectors of a block, to which the maximum size of an append is rounded.
    pub open spec fn append_unit(self) -> int {
        self.block_size_bytes as int / 512
    }

    /// Maximum size of an append in sectors: whole blocks, and not more than a zone holds.
    pub open spec fn append_max_sectors(self) -> int {
        let aligned = if self.append_unit() == 0 {
            self.zone_append_max_sectors
        } else {
            self.zone_append_max_sectors & !((self.append_unit() - 1) as u32)
        };
        if aligned <= self.zone_capacity_sectors() {
            aligned as int
        } else {
            self.zone_capacity_sectors()
        }
    }

    /// The arithmetic of a valid configuration stays in its words.
    pub open spec fn computable(self) -> bool {
        &&& self.zone_size_mib < 0x20_0000
        &&& self.device_sectors() > 0
        &&& crate::util::rounded_up(self.device_sectors(), self.zone_sectors())
            < 0x1_0000_0000_0000_0000
    }

    /// The zones of a new device.
    pub open spec fn new_zones(self) -> ZonesState {
        ZonesState {
            enabled: self.enable,
            zones: Seq::new(self.zone_count() as nat, |i: int| self.new_zone(i)),
            conventional_count: self.conventional_count() as u32,
            size_sectors: self.zone_sectors() as u32,
            append_max_sectors: self.append_max_sectors() as u32,
            max_open: self.max_open(),
            max_active: self.max_active(),
            accounting: ZoneAccounting {
                implicit_open: 0,
                explicit_open: 0,
                closed: 0,
                start_zone: self.conventional_count() as u32,
            },
        }
    }

    /// Zone number `i` of a new device.
    pub open spec fn new_zone(self, i: int) -> ZoneDescriptor {
        new_zone(
            self.zone_sectors(),
            self.zone_capacity_mib * 2048,
            self.conventional_count(),
            i,
        )
    }
}

/// Zone number `i` of a new device: a capacity of zero stands for the size, conventional zones have
/// their size as capacity and no write pointer.
pub open spec fn new_zone(size: int, capacity: int, conventional_count: int, i: int) -> ZoneDescriptor {
    if i < conventional_count {
        ZoneDescriptor {
            start_sector: (i * size) as u64,
            size_sectors: size as u32,
            kind: ZoneType::Conventional,
            capacity_sectors: size as u32,
            write_pointer: (i * size + size) as u64,
            condition: ZoneCondition::NoWritePointer,
        }
    } else {
        ZoneDescriptor {
            start_sector: (i * size) as u64,
            size_sectors: size as u32,
            kind: ZoneType::SequentialWriteRequired,
            capacity_sectors: (if capacity == 0 { size } else { capacity }) as u32,
            write_pointer: (i * size) as u64,
            condition: ZoneCondition::Empty,
        }
    }
}

/// How many zones are in which condition.
#[derive(Copy, Clone, PartialEq, Eq, Structural, Debug)]
pub struct ZoneAccounting {
    /// Zones opened by a write.
    pub implicit_open: u32,
    /// Zones opened by a command.
    pub explicit_open: u32,
    /// Closed zones.
    pub closed: u32,
    /// Where the next search for a zone to close starts.
    pub start_zone: u32,
}

/// Zones and their limits.
pub struct ZoneOptions {
    /// Whether the device is zoned.
    pub enabled: bool,
    /// The zones.
    pub zones: Vec<ZoneDescriptor>,
    /// Number of conventional zones, which come first.
    pub conventional_count: u32,
    /// Size of a zone in sectors.
    pub size_sectors: u32,
    /// Maximum size of an append in sectors, zero for no appends.
    pub append_max_sectors: u32,
    /// Maximum number of open zones, zero for no limit.
    pub max_open: u32,
    /// Maximum number of active zones, zero for no limit.
    pub max_active: u32,
    /// Number of zones in some conditions.
    pub accounting: ZoneAccounting,
}

/// The state of [`ZoneOptions`].
#[verifier::ext_equal]
pub struct ZonesState {
    /// Whether the device is zoned.
    pub enabled: bool,
    /// The zones.
    pub zones: Seq<ZoneDescriptor>,
    /// Number of conventional zones, which come first.
    pub conventional_count: u32,
    /// Size of a zone in sectors.
    pub size_sectors: u32,
    /// Maximum size of an append in sectors, zero for no appends.
    pub append_max_sectors: u32,
    /// Maximum number of open zones, zero for no limit.
    pub max_open: u32,
    /// Maximum number of active zones, zero for no limit.
    pub max_active: u32,
    /// Number of zones in some conditions.
    pub accounting: ZoneAccounting,
}

impl View for ZoneOptions {
    type V = ZonesState;

    open spec fn view(&self) -> ZonesState {
        ZonesState {
            enabled: self.enabled,
            zones: self.zones@,
            conventional_count: self.conventional_count,
            size_sectors: self.size_sectors,
            append_max_sectors: self.append_max_sectors,
            max_open: self.max_open,
            max_active: self.max_active,
            accounting: self.accounting,
        }
    }
}

/// Number of zones in a condition.
pub open spec fn count_in(zones: Seq<ZoneDescriptor>, condition: ZoneCondition) -> int
    decreases zones.len(),
{
    if zones.len() == 0 {
        0
    } else {
        count_in(zones.drop_last(), condition) + (if zones.last().condition == condition {
            1int
        } else {
            0int
        })
    }
}

/// The first zone opened by a write from zone number `from` on and below `to`, other than `skip`.
pub open spec fn first_implicit(zones: Seq<ZoneDescriptor>, from: int, to: int, skip: int) -> Option<int>
    decreases to - from,
{
    if from >= to {
        None
    } else if from != skip && zones[from].condition == ZoneCondition::ImplicitOpen {
        Some(from)
    } else {
        first_implicit(zones, from + 1, to, skip)
    }
}

/// Sets up the zones of a new device.
pub fn init_zone_descriptors(
    zone_size_sectors: u32,
    zone_capacity_sectors: u32,
    zone_count: u32,
    zone_nr_conv: u32,
) -> (r: Result<Vec<ZoneDescriptor>>)
    ensures
        r matches Ok(zones) && zones@ == Seq::new(
            zone_count as nat,
            |i: int|
                new_zone(
                    zone_size_sectors as int,
                    zone_capacity_sectors as int,
                    zone_nr_conv as int,
                    i,
                ),
        ),
{
    let capacity: u32 = if zone_capacity_sectors == 0 {
        zone_size_sectors
    } else {
        zone_capacity_sectors
    };
    let mut zones: Vec<ZoneDescriptor> = Vec::new();
    let mut i: u32 = 0;
    while i < zone_count
        invariant
            i <= zone_count,
            capacity == (if zone_capacity_sectors == 0 {
                zone_size_sectors
            } else {
                zone_capacity_sectors
            }),
            zones@ =~= Seq::new(
                i as nat,
                |j: int|
                    new_zone(
                        zone_size_sectors as int,
                        zone_capacity_sectors as int,
                        zone_nr_conv as int,
                        j,
                    ),
            ),
        decreases zone_count - i,
    {
        assert(0 <= i * zone_size_sectors <= u64::MAX - zone_size_sectors) by (nonlinear_arith)
            requires
                0 <= i < u32::MAX,
                0 <= zone_size_sectors <= u32::MAX,
        ;
        let sector: u64 = i as u64 * zone_size_sectors as u64;
        zones.push(
            if i < zone_nr_conv {
                ZoneDescriptor {
                    start_sector: sector,
                    size_sectors: zone_size_sectors,
                    capacity_sectors: zone_size_sectors,
                    kind: ZoneType::Conventional,
                    write_pointer: sector + zone_size_sectors as u64,
                    condition: ZoneCondition::NoWritePointer,
                }
            } else {
                ZoneDescriptor {
                    start_sector: sector,
                    size_sectors: zone_size_sectors,
                    capacity_sectors: capacity,
                    kind: ZoneType::SequentialWriteRequired,
                    write_pointer: sector,
                    condition: ZoneCondition::Empty,
                }
            },
        );
        i += 1;
    }
    Ok(zones)
}

impl ZonesState {
    /// Zones are counted because there is a limit.
    pub open spec fn use_accounting(self) -> bool {
        self.max_active != 0 || self.max_open != 0
    }

    /// The number of the zone that holds a sector.
    pub open spec fn zone_no(self, sector: u64) -> usize {
        (sector as int / self.size_sectors as int) as usize
    }

    /// Zone number `no` is where it should be and as large as it should be.
    pub open spec fn zone_placed(self, no: int) -> bool {
        let zone = self.zones[no];
        &&& zone.start_sector == no * self.size_sectors
        &&& zone.size_sectors == self.size_sectors
        &&& 0 < zone.capacity_sectors <= self.size_sectors
        &&& (zone.kind == ZoneType::Conventional <==> no < self.conventional_count)
        &&& zone.pointer_ok()
    }

    /// The counters are not below the number of zones that they count.
    pub open spec fn counters_cover(self) -> bool {
        &&& self.accounting.implicit_open >= count_in(self.zones, ZoneCondition::ImplicitOpen)
        &&& self.accounting.explicit_open >= count_in(self.zones, ZoneCondition::ExplicitOpen)
        &&& self.accounting.closed >= count_in(self.zones, ZoneCondition::Closed)
    }

    /// The counters are the numbers of zones that they count.
    pub open spec fn counters_exact(self) -> bool {
        &&& self.accounting.implicit_open == count_in(self.zones, ZoneCondition::ImplicitOpen)
        &&& self.accounting.explicit_open == count_in(self.zones, ZoneCondition::ExplicitOpen)
        &&& self.accounting.closed == count_in(self.zones, ZoneCondition::Closed)
    }

    /// The counters respect the limits.
    pub open spec fn limits_kept(self) -> bool {
        let open = self.accounting.implicit_open + self.accounting.explicit_open;
        &&& self.max_open != 0 ==> open <= self.max_open
        &&& self.max_active != 0 ==> open + self.accounting.closed <= self.max_active
    }

    /// Zones are placed one after the other, conventional zones first, and the counters cover
    /// what they count and respect the limits.
    pub open spec fn inv(self) -> bool {
        &&& crate::util::is_power(self.size_sectors as int)
        &&& self.zones.len() <= u32::MAX
        &&& self.conventional_count <= self.accounting.start_zone < self.zones.len()
        &&& forall|no: int| 0 <= no < self.zones.len() ==> #[trigger] self.zone_placed(no)
        &&& self.use_accounting() ==> self.counters_cover()
        &&& self.limits_kept()
    }

    /// One more zone can be counted as closed.
    pub open spec fn can_count_closed(self) -> bool {
        self.use_accounting() && self.max_active == 0 ==> self.accounting.closed < u32::MAX
    }

    /// The state with another zone number `no`.
    pub open spec fn with_zone(self, no: int, zone: ZoneDescriptor) -> Self {
        ZonesState { zones: self.zones.update(no, zone), ..self }
    }

    /// The state with the counters changed, where zones are counted.
    pub open spec fn counted(self, implicit_open: int, explicit_open: int, closed: int) -> Self {
        if self.use_accounting() {
            ZonesState {
                accounting: ZoneAccounting {
                    implicit_open: (self.accounting.implicit_open + implicit_open) as u32,
                    explicit_open: (self.accounting.explicit_open + explicit_open) as u32,
                    closed: (self.accounting.closed + closed) as u32,
                    ..self.accounting
                },
                ..self
            }
        } else {
            self
        }
    }

    /// No further zone can become active.
    pub open spec fn active_exhausted(self) -> bool {
        self.max_active != 0 && self.max_active <= self.accounting.implicit_open
            + self.accounting.explicit_open + self.accounting.closed
    }

    /// No further zone can be opened.
    pub open spec fn open_exhausted(self) -> bool {
        self.max_open != 0 && self.max_open <= self.accounting.explicit_open
            + self.accounting.implicit_open
    }

    /// The zone opened by a write that is closed to make room: the first one in circular order,
    /// starting where the last search ended, other than the zone that holds `sector`.
    pub open spec fn victim(self, sector: u64) -> Option<int> {
        let skip = (self.zone_no(sector) as u32) as int;
        let start = self.accounting.start_zone as int;
        match first_implicit(self.zones, start, self.zones.len() as int, skip) {
            Some(no) => Some(no),
            None => first_implicit(self.zones, self.conventional_count as int, start, skip),
        }
    }

    /// The state after a zone opened by a write was closed to make room.
    pub open spec fn implicit_closed(self, no: int) -> Self {
        let zone = self.zones[no];
        let empty = zone.write_pointer == zone.start_sector;
        ZonesState {
            zones: self.zones.update(
                no,
                zone.with_condition(
                    if empty {
                        ZoneCondition::Empty
                    } else {
                        ZoneCondition::Closed
                    },
                ),
            ),
            accounting: ZoneAccounting {
                implicit_open: (self.accounting.implicit_open - 1) as u32,
                closed: (self.accounting.closed + (if empty { 0int } else { 1int })) as u32,
                start_zone: (if no + 1 == self.zones.len() {
                    self.conventional_count as int
                } else {
                    no + 1
                }) as u32,
                ..self.accounting
            },
            ..self
        }
    }

    /// Makes room for one more open zone.
    pub open spec fn open_room(self, sector: u64) -> Result<ZonesState> {
        if !self.open_exhausted() {
            Ok(self)
        } else if self.accounting.implicit_open == 0 || self.active_exhausted() {
            Err(Errno(EBUSY))
        } else {
            match self.victim(sector) {
                Some(no) => Ok(self.implicit_closed(no)),
                None => Err(Errno(EINVAL)),
            }
        }
    }

    /// Makes room to open zone number `no`.
    pub open spec fn zone_room(self, no: int) -> Result<ZonesState> {
        let zone = self.zones[no];
        match zone.condition {
            ZoneCondition::Empty => if self.active_exhausted() {
                Err(Errno(EBUSY))
            } else {
                self.open_room(zone.start_sector)
            },
            ZoneCondition::Closed => self.open_room(zone.start_sector),
            _ => Err(Errno(EIO)),
        }
    }

    /// Makes room to open zone number `no`, where zones are counted.
    pub open spec fn room_for(self, no: int) -> Result<ZonesState> {
        if self.use_accounting() {
            self.zone_room(no)
        } else {
            Ok(self)
        }
    }

    /// Opens zone number `no` by a command.
    pub open spec fn opened(self, no: int) -> Result<ZonesState> {
        let zone = self.zones[no];
        let open = zone.with_condition(ZoneCondition::ExplicitOpen);
        if zone.kind == ZoneType::Conventional {
            Err(Errno(EINVAL))
        } else {
            match zone.condition {
                ZoneCondition::ExplicitOpen => Ok(self),
                ZoneCondition::ImplicitOpen => Ok(self.counted(-1, 1, 0).with_zone(no, open)),
                ZoneCondition::Empty => match self.room_for(no) {
                    Ok(room) => Ok(room.counted(0, 1, 0).with_zone(no, open)),
                    Err(e) => Err(e),
                },
                ZoneCondition::Closed => match self.room_for(no) {
                    Ok(room) => Ok(room.counted(0, 1, -1).with_zone(no, open)),
                    Err(e) => Err(e),
                },
                _ => Err(Errno(EIO)),
            }
        }
    }

    /// Closes zone number `no` by a command.
    pub open spec fn closed(self, no: int) -> Result<ZonesState> {
        let zone = self.zones[no];
        let empty = zone.write_pointer == zone.start_sector;
        let closed = zone.with_condition(
            if empty {
                ZoneCondition::Empty
            } else {
                ZoneCondition::Closed
            },
        );
        let more = if empty {
            0int
        } else {
            1int
        };
        if zone.kind == ZoneType::Conventional {
            Err(Errno(EINVAL))
        } else {
            match zone.condition {
                ZoneCondition::Closed => Ok(self),
                ZoneCondition::ImplicitOpen => Ok(self.counted(-1, 0, more).with_zone(no, closed)),
                ZoneCondition::ExplicitOpen => Ok(self.counted(0, -1, more).with_zone(no, closed)),
                _ => Err(Errno(EIO)),
            }
        }
    }

    /// Finishes zone number `no` by a command: nothing more can be written to it.
    pub open spec fn finished(self, no: int) -> Result<ZonesState> {
        let zone = self.zones[no];
        let full = zone.with_pointer(ZoneCondition::Full, zone.start_sector + zone.size_sectors);
        if zone.kind == ZoneType::Conventional {
            Err(Errno(EINVAL))
        } else if !self.use_accounting() {
            Ok(self.with_zone(no, full))
        } else {
            match zone.condition {
                ZoneCondition::Full => Ok(self),
                ZoneCondition::Empty => match self.zone_room(no) {
                    Ok(room) => Ok(room.with_zone(no, full)),
                    Err(e) => Err(e),
                },
                ZoneCondition::ImplicitOpen => Ok(self.counted(-1, 0, 0).with_zone(no, full)),
                ZoneCondition::ExplicitOpen => Ok(self.counted(0, -1, 0).with_zone(no, full)),
                ZoneCondition::Closed => match self.zone_room(no) {
                    Ok(room) => Ok(room.counted(0, 0, -1).with_zone(no, full)),
                    Err(e) => Err(e),
                },
                _ => Err(Errno(EIO)),
            }
        }
    }

    /// Resets zone number `no` by a command: nothing is written to it.
    pub open spec fn was_reset(self, no: int) -> Result<ZonesState> {
        let zone = self.zones[no];
        let empty = zone.with_pointer(ZoneCondition::Empty, zone.start_sector as int);
        if zone.kind == ZoneType::Conventional {
            Err(Errno(EINVAL))
        } else if !self.use_accounting() {
            Ok(self.with_zone(no, empty))
        } else {
            match zone.condition {
                ZoneCondition::ImplicitOpen => Ok(self.counted(-1, 0, 0).with_zone(no, empty)),
                ZoneCondition::ExplicitOpen => Ok(self.counted(0, -1, 0).with_zone(no, empty)),
                ZoneCondition::Closed => Ok(self.counted(0, 0, -1).with_zone(no, empty)),
                ZoneCondition::Empty | ZoneCondition::Full => Ok(self.with_zone(no, empty)),
                _ => Err(Errno(EIO)),
            }
        }
    }

    /// Toggles a condition of zone number `no`: a zone that is in the condition becomes empty, any
    /// other zone dies.
    pub open spec fn condition_set(self, no: int, condition: ZoneCondition) -> Result<ZonesState> {
        let zone = self.zones[no];
        if zone.condition == condition {
            Ok(
                self.with_zone(
                    no,
                    zone.with_pointer(ZoneCondition::Empty, zone.start_sector as int),
                ),
            )
        } else {
            let dead = zone.with_pointer(ZoneCondition::Offline, u64::MAX as int);
            match zone.condition {
                ZoneCondition::ReadOnly | ZoneCondition::Offline => match self.finished(no) {
                    Ok(finished) => Ok(finished.with_zone(no, dead)),
                    Err(e) => Err(e),
                },
                _ => Ok(self.with_zone(no, dead)),
            }
        }
    }
}

/// `after` and `r` are what an operation on `before` with the outcome `outcome` leaves and returns:
/// an operation that fails changes nothing.
pub open spec fn carried_out(
    before: ZonesState,
    outcome: Result<ZonesState>,
    after: ZonesState,
    r: Result<()>,
) -> bool {
    match outcome {
        Ok(state) => r == Ok::<(), Errno>(()) && after =~= state,
        Err(e) => r == Err::<(), Errno>(e) && after =~= before,
    }
}

proof fn lemma_count_update(zones: Seq<ZoneDescriptor>, no: int, zone: ZoneDescriptor, c: ZoneCondition)
    requires
        0 <= no < zones.len(),
    ensures
        count_in(zones.update(no, zone), c) == count_in(zones, c) - (if zones[no].condition == c {
            1int
        } else {
            0int
        }) + (if zone.condition == c {
            1int
        } else {
            0int
        }),
    decreases zones.len(),
{
    let after = zones.update(no, zone);
    if no == zones.len() - 1 {
        assert(after.drop_last() =~= zones.drop_last());
    } else {
        lemma_count_update(zones.drop_last(), no, zone, c);
        assert(after.drop_last() =~= zones.drop_last().update(no, zone));
        assert(after.last() == zones.last());
    }
}

proof fn lemma_count_bounds(zones: Seq<ZoneDescriptor>, c: ZoneCondition)
    ensures
        0 <= count_in(zones, c) <= zones.len(),
        forall|no: int| 0 <= no < zones.len() && #[trigger] zones[no].condition == c ==> count_in(
            zones,
            c,
        ) >= 1,
    decreases zones.len(),
{
    if zones.len() > 0 {
        let rest = zones.drop_last();
        lemma_count_bounds(rest, c);
        assert forall|no: int|
            0 <= no < zones.len() && #[trigger] zones[no].condition == c implies count_in(zones, c)
            >= 1 by {
            if no < rest.len() {
                assert(rest[no].condition == c);
            }
        }
    }
}

/// Zones with a condition are counted.
pub proof fn lemma_counted(s: ZonesState, no: int)
    requires
        s.inv(),
        s.use_accounting(),
        0 <= no < s.zones.len(),
    ensures
        s.zones[no].condition == ZoneCondition::ImplicitOpen ==> s.accounting.implicit_open >= 1,
        s.zones[no].condition == ZoneCondition::ExplicitOpen ==> s.accounting.explicit_open >= 1,
        s.zones[no].condition == ZoneCondition::Closed ==> s.accounting.closed >= 1,
{
    lemma_count_bounds(s.zones, ZoneCondition::ImplicitOpen);
    lemma_count_bounds(s.zones, ZoneCondition::ExplicitOpen);
    lemma_count_bounds(s.zones, ZoneCondition::Closed);
}

/// Change of a counter that a change of one zone calls for.
spec fn delta(before: ZoneDescriptor, after: ZoneDescriptor, c: ZoneCondition) -> int {
    (if after.condition == c {
        1int
    } else {
        0int
    }) - (if before.condition == c {
        1int
    } else {
        0int
    })
}

/// A change of one zone keeps the invariant where the counters follow it.
proof fn lemma_zone_changed(s: ZonesState, t: ZonesState, no: int)
    requires
        s.inv(),
        0 <= no < s.zones.len(),
        t == (ZonesState { zones: t.zones, accounting: t.accounting, ..s }),
        t.zones == s.zones.update(no, t.zones[no]),
        t.zone_placed(no),
        s.conventional_count <= t.accounting.start_zone < s.zones.len(),
        t.limits_kept(),
        s.use_accounting() ==> {
            &&& t.accounting.implicit_open >= s.accounting.implicit_open + delta(
                s.zones[no],
                t.zones[no],
                ZoneCondition::ImplicitOpen,
            )
            &&& t.accounting.explicit_open >= s.accounting.explicit_open + delta(
                s.zones[no],
                t.zones[no],
                ZoneCondition::ExplicitOpen,
            )
            &&& t.accounting.closed >= s.accounting.closed + delta(
                s.zones[no],
                t.zones[no],
                ZoneCondition::Closed,
            )
        },
    ensures
        t.inv(),
{
    lemma_count_update(s.zones, no, t.zones[no], ZoneCondition::ImplicitOpen);
    lemma_count_update(s.zones, no, t.zones[no], ZoneCondition::ExplicitOpen);
    lemma_count_update(s.zones, no, t.zones[no], ZoneCondition::Closed);
    assert forall|i: int| 0 <= i < t.zones.len() implies #[trigger] t.zone_placed(i) by {
        assert(s.zone_placed(i));
    }
}

/// Zones lie in the sector space.
pub proof fn lemma_zone_fits(s: ZonesState, no: int)
    requires
        s.inv(),
        0 <= no < s.zones.len(),
    ensures
        s.zone_placed(no),
        s.size_sectors > 0,
        s.zones[no].start_sector + s.zones[no].size_sectors <= u64::MAX,
        s.zones[no].limit() <= u64::MAX,
        s.zone_no(s.zones[no].start_sector) == no,
{
    assert(s.zone_placed(no));
    let e: nat = choose|e: nat| s.size_sectors == #[trigger] vstd::arithmetic::power2::pow2(e);
    vstd::arithmetic::power2::lemma_pow2_pos(e);
    let size = s.size_sectors as int;
    assert(no * size + size <= u64::MAX) by (nonlinear_arith)
        requires
            0 <= no < u32::MAX,
            0 <= size <= u32::MAX,
    ;
    vstd::arithmetic::div_mod::lemma_div_multiples_vanish(no, size);
    assert(size * no == no * size) by (nonlinear_arith);
}

/// A search finds a zone that was opened by a write.
pub proof fn lemma_first_implicit(zones: Seq<ZoneDescriptor>, from: int, to: int, skip: int)
    requires
        0 <= from,
        to <= zones.len(),
    ensures
        first_implicit(zones, from, to, skip) matches Some(no) ==> {
            &&& from <= no < to
            &&& no != skip
            &&& zones[no].condition == ZoneCondition::ImplicitOpen
            &&& forall|i: int|
                from <= i < no && i != skip ==> #[trigger] zones[i].condition
                    != ZoneCondition::ImplicitOpen
        },
        first_implicit(zones, from, to, skip) is None ==> forall|i: int|
            from <= i < to && i != skip ==> #[trigger] zones[i].condition
                != ZoneCondition::ImplicitOpen,
    decreases to - from,
{
    if from < to {
        lemma_first_implicit(zones, from + 1, to, skip);
    }
}

/// Closing a zone to make room keeps the invariant.
proof fn lemma_implicit_closed(s: ZonesState, no: int)
    requires
        s.inv(),
        s.can_count_closed(),
        s.use_accounting() || s.accounting.implicit_open > 0 && s.accounting.closed < u32::MAX,
        s.conventional_count <= no < s.zones.len(),
        s.zones[no].condition == ZoneCondition::ImplicitOpen,
    ensures
        s.implicit_closed(no).inv(),
        s.implicit_closed(no).accounting.implicit_open == s.accounting.implicit_open - 1,
        s.implicit_closed(no).accounting.closed <= s.accounting.closed + 1,
        s.implicit_closed(no).accounting.closed >= s.accounting.closed,
        s.counters_exact() ==> s.implicit_closed(no).counters_exact(),
{
    if s.use_accounting() {
        lemma_counted(s, no);
    }
    lemma_zone_fits(s, no);
    let t = s.implicit_closed(no);
    assert(t.zones[no].pointer_ok());
    lemma_zone_changed(s, t, no);
    lemma_count_update(s.zones, no, t.zones[no], ZoneCondition::ImplicitOpen);
    lemma_count_update(s.zones, no, t.zones[no], ZoneCondition::ExplicitOpen);
    lemma_count_update(s.zones, no, t.zones[no], ZoneCondition::Closed);
}

impl ZoneOptions {
    /// The zones and their limits are well formed.
    pub open spec fn inv(&self) -> bool {
        self@.inv()
    }

    /// The number of the zone that holds a sector.
    pub fn zone_no(&self, sector: u64) -> (r: usize)
        requires
            self.inv(),
        ensures
            r == self@.zone_no(sector),
    {
        let shift: u32 = self.shift();
        proof {
            vstd::bits::lemma_u64_shr_is_div(sector, shift as u64);
        }
        (sector >> shift) as usize
    }

    /// Base two logarithm of the size of a zone.
    fn shift(&self) -> (r: u32)
        requires
            crate::util::is_power(self.size_sectors as int),
        ensures
            r < 32,
            self.size_sectors == vstd::arithmetic::power2::pow2(r as nat),
            self.size_sectors > 0,
    {
        proof {
            let e: nat = choose|e: nat|
                self.size_sectors == #[trigger] vstd::arithmetic::power2::pow2(e);
            vstd::arithmetic::power2::lemma_pow2_pos(e);
        }
        let r: u32 = self.size_sectors.ilog2();
        proof {
            lemma_log2(self.size_sectors, r);
        }
        r
    }

    /// The zone that holds a sector.
    pub fn zone(&self, sector: u64) -> (r: Result<usize>)
        requires
            self.inv(),
        ensures
            r == (if self@.zone_no(sector) < self@.zones.len() {
                Ok::<usize, Errno>(self@.zone_no(sector))
            } else {
                Err(Errno(EINVAL))
            }),
    {
        let no: usize = self.zone_no(sector);
        if no < self.zones.len() {
            Ok(no)
        } else {
            Err(Errno(EINVAL))
        }
    }

    /// Returns true if zones are counted because there is a limit.
    pub fn use_accounting(&self) -> (r: bool)
        ensures
            r == self@.use_accounting(),
    {
        self.max_active != 0 || self.max_open != 0
    }

    /// Searches for a zone opened by a write.
    fn first_implicit_open(&self, from: usize, to: usize, skip: u32) -> (r: Option<usize>)
        requires
            to <= self.zones@.len(),
        ensures
            match r {
                Some(no) => first_implicit(self.zones@, from as int, to as int, skip as int) == Some(
                    no as int,
                ),
                None => first_implicit(self.zones@, from as int, to as int, skip as int) is None,
            },
    {
        let mut i: usize = from;
        while i < to
            invariant
                to <= self.zones@.len(),
                first_implicit(self.zones@, from as int, to as int, skip as int) == first_implicit(
                    self.zones@,
                    i as int,
                    to as int,
                    skip as int,
                ),
            decreases to - i,
        {
            if i != skip as usize && self.zones[i].condition == ZoneCondition::ImplicitOpen {
                return Some(i);
            }
            i += 1;
        }
        None
    }

    /// Closes a zone that was opened by a write, other than the zone that holds `sector`.
    pub fn try_close_implicit_open_zone(&mut self, sector: u64) -> (r: Result<()>)
        requires
            old(self).inv(),
            old(self)@.can_count_closed(),
            !old(self)@.use_accounting() && old(self)@.victim(sector) is Some ==> old(
                self,
            )@.accounting.implicit_open > 0 && old(self)@.accounting.closed < u32::MAX,
        ensures
            final(self).inv(),
            carried_out(
                old(self)@,
                match old(self)@.victim(sector) {
                    Some(no) => Ok(old(self)@.implicit_closed(no)),
                    None => Err(Errno(EINVAL)),
                },
                final(self)@,
                r,
            ),
            old(self)@.counters_exact() ==> final(self)@.counters_exact(),
    {
        let skip: u32 = self.zone_no(sector) as u32;
        let start: usize = self.accounting.start_zone as usize;
        let len: usize = self.zones.len();
        let found: Option<usize> = match self.first_implicit_open(start, len, skip) {
            Some(index) => Some(index),
            None => self.first_implicit_open(self.conventional_count as usize, start, skip),
        };
        match found {
            Some(index) => {
                proof {
                    lemma_first_implicit(self.zones@, start as int, len as int, skip as int);
                    lemma_first_implicit(
                        self.zones@,
                        self.conventional_count as int,
                        start as int,
                        skip as int,
                    );
                    lemma_implicit_closed(self@, index as int);
                    if self@.use_accounting() {
                        lemma_counted(self@, index as int);
                    }
                }
                self.accounting.implicit_open = self.accounting.implicit_open - 1;
                let next_zone: u32 = index as u32 + 1;
                self.accounting.start_zone = if next_zone as usize == len {
                    self.conventional_count
                } else {
                    next_zone
                };
                let mut zone: ZoneDescriptor = self.zones[index];
                if zone.write_pointer == zone.start_sector {
                    zone.condition = ZoneCondition::Empty;
                } else {
                    zone.condition = ZoneCondition::Closed;
                    self.accounting.closed = self.accounting.closed + 1;
                }
                self.zones.set(index, zone);
                assert(self@ =~= old(self)@.implicit_closed(index as int));
                Ok(())
            },
            None => Err(Errno(EINVAL)),
        }
    }

    /// Checks that one more zone can be active.
    pub fn check_active_zones(&self) -> (r: Result<()>)
        requires
            self.inv(),
        ensures
            r == (if self@.active_exhausted() {
                Err::<(), Errno>(Errno(EBUSY))
            } else {
                Ok(())
            }),
    {
        if self.max_active == 0 {
            return Ok(());
        }
        if self.max_active > self.accounting.implicit_open + self.accounting.explicit_open
            + self.accounting.closed {
            return Ok(());
        }
        Err(Errno(EBUSY))
    }

    /// Makes room for one more open zone.
    pub fn check_open_zones(&mut self, sector: u64) -> (r: Result<()>)
        requires
            old(self).inv(),
            old(self)@.use_accounting(),
            old(self)@.can_count_closed(),
        ensures
            final(self).inv(),
            carried_out(old(self)@, old(self)@.open_room(sector), final(self)@, r),
            old(self)@.counters_exact() ==> final(self)@.counters_exact(),
    {
        if self.max_open == 0 {
            return Ok(());
        }
        if self.max_open > self.accounting.explicit_open + self.accounting.implicit_open {
            return Ok(());
        }
        if self.accounting.implicit_open > 0 {
            match self.check_active_zones() {
                Ok(()) => {},
                Err(e) => {
                    return Err(e);
                },
            }
            return self.try_close_implicit_open_zone(sector);
        }
        Err(Errno(EBUSY))
    }

    /// Makes room to open zone number `no`.
    pub fn check_zone_resources(&mut self, no: usize) -> (r: Result<()>)
        requires
            old(self).inv(),
            old(self)@.use_accounting(),
            old(self)@.can_count_closed(),
            no < old(self)@.zones.len(),
        ensures
            final(self).inv(),
            carried_out(old(self)@, old(self)@.zone_room(no as int), final(self)@, r),
            old(self)@.counters_exact() ==> final(self)@.counters_exact(),
    {
        let zone: ZoneDescriptor = self.zones[no];
        match zone.condition {
            ZoneCondition::Empty => {
                match self.check_active_zones() {
                    Ok(()) => {},
                    Err(e) => {
                        return Err(e);
                    },
                }
                self.check_open_zones(zone.start_sector)
            },
            ZoneCondition::Closed => self.check_open_zones(zone.start_sector),
            _ => Err(Errno(EIO)),
        }
    }
}

/// The logarithm of a power of two is its exponent.
proof fn lemma_log_of_power(e: nat, r: nat)
    requires
        vstd::arithmetic::power2::pow2(r) <= vstd::arithmetic::power2::pow2(e),
        vstd::arithmetic::power2::pow2(e) < vstd::arithmetic::power2::pow2((r + 1) as nat),
    ensures
        e == r,
{
    if e < r {
        vstd::arithmetic::power2::lemma_pow2_strictly_increases(e, r);
    } else if e > r {
        if e > r + 1 {
            vstd::arithmetic::power2::lemma_pow2_strictly_increases((r + 1) as nat, e);
        }
    }
}

/// Making room for a zone leaves the zone alone and one more zone can be opened.
proof fn lemma_zone_room(s: ZonesState, no: int)
    requires
        s.inv(),
        s.use_accounting(),
        s.can_count_closed(),
        0 <= no < s.zones.len(),
        s.zone_room(no) is Ok,
    ensures
        ({
            let t = s.zone_room(no)->Ok_0;
            let open = t.accounting.implicit_open + t.accounting.explicit_open;
            &&& t.inv()
            &&& t == (ZonesState { zones: t.zones, accounting: t.accounting, ..s })
            &&& t.zones.len() == s.zones.len()
            &&& t.zones[no] == s.zones[no]
            &&& t.max_open != 0 ==> open < t.max_open
            &&& t.max_active != 0 && s.zones[no].condition == ZoneCondition::Empty ==> open
                + t.accounting.closed < t.max_active
            &&& s.counters_exact() ==> t.counters_exact()
        }),
{
    lemma_zone_fits(s, no);
    let start = s.accounting.start_zone as int;
    let len = s.zones.len() as int;
    let skip = (s.zone_no(s.zones[no].start_sector) as u32) as int;
    assert(skip == no);
    lemma_first_implicit(s.zones, start, len, skip);
    lemma_first_implicit(s.zones, s.conventional_count as int, start, skip);
    if s.open_exhausted() {
        let victim = s.victim(s.zones[no].start_sector)->Some_0;
        lemma_implicit_closed(s, victim);
    }
}

/// The counters follow a change of one zone.
proof fn lemma_counters_follow(s: ZonesState, t: ZonesState, no: int)
    requires
        s.counters_exact(),
        0 <= no < s.zones.len(),
        t.zones == s.zones.update(no, t.zones[no]),
        t.accounting.implicit_open == s.accounting.implicit_open + delta(
            s.zones[no],
            t.zones[no],
            ZoneCondition::ImplicitOpen,
        ),
        t.accounting.explicit_open == s.accounting.explicit_open + delta(
            s.zones[no],
            t.zones[no],
            ZoneCondition::ExplicitOpen,
        ),
        t.accounting.closed == s.accounting.closed + delta(
            s.zones[no],
            t.zones[no],
            ZoneCondition::Closed,
        ),
    ensures
        t.counters_exact(),
{
    lemma_count_update(s.zones, no, t.zones[no], ZoneCondition::ImplicitOpen);
    lemma_count_update(s.zones, no, t.zones[no], ZoneCondition::ExplicitOpen);
    lemma_count_update(s.zones, no, t.zones[no], ZoneCondition::Closed);
}

/// Counters are exact wherever zones are counted.
pub open spec fn exact(s: ZonesState) -> bool {
    s.use_accounting() ==> s.counters_exact()
}

/// Opening a zone by a command keeps the invariant, the limits and exact counters, and ends with
/// the zone open.
pub proof fn lemma_open_keeps(s: ZonesState, no: int)
    requires
        s.inv(),
        s.can_count_closed(),
        0 <= no < s.zones.len(),
        s.opened(no) is Ok,
    ensures
        s.opened(no)->Ok_0.inv(),
        s.opened(no)->Ok_0.zones[no].condition == ZoneCondition::ExplicitOpen,
        exact(s) ==> exact(s.opened(no)->Ok_0),
{
    let t = s.opened(no)->Ok_0;
    lemma_zone_fits(s, no);
    if s.use_accounting() {
        lemma_counted(s, no);
    }
    match s.zones[no].condition {
        ZoneCondition::ExplicitOpen => {},
        ZoneCondition::ImplicitOpen => {
            lemma_zone_changed(s, t, no);
            if s.use_accounting() && s.counters_exact() {
                lemma_counters_follow(s, t, no);
            }
        },
        _ => {
            let room = s.room_for(no)->Ok_0;
            if s.use_accounting() {
                lemma_zone_room(s, no);
                lemma_counted(room, no);
            }
            lemma_zone_fits(room, no);
            lemma_zone_changed(room, t, no);
            if s.use_accounting() && s.counters_exact() {
                lemma_counters_follow(room, t, no);
            }
        },
    }
}

/// Closing a zone by a command keeps the invariant, the limits and exact counters, and ends with
/// the zone closed, or empty where nothing was written.
pub proof fn lemma_close_keeps(s: ZonesState, no: int)
    requires
        s.inv(),
        s.can_count_closed(),
        0 <= no < s.zones.len(),
        s.closed(no) is Ok,
    ensures
        s.closed(no)->Ok_0.inv(),
        s.closed(no)->Ok_0.zones[no].condition == (if s.zones[no].write_pointer
            == s.zones[no].start_sector {
            ZoneCondition::Empty
        } else {
            ZoneCondition::Closed
        }),
        exact(s) ==> exact(s.closed(no)->Ok_0),
{
    let t = s.closed(no)->Ok_0;
    lemma_zone_fits(s, no);
    if s.use_accounting() {
        lemma_counted(s, no);
    }
    if s.zones[no].condition != ZoneCondition::Closed {
        lemma_zone_changed(s, t, no);
        if s.use_accounting() && s.counters_exact() {
            lemma_counters_follow(s, t, no);
        }
    }
}

/// Finishing a zone by a command keeps the invariant, the limits and exact counters, and ends with
/// the zone full.
pub proof fn lemma_finish_keeps(s: ZonesState, no: int)
    requires
        s.inv(),
        s.can_count_closed(),
        0 <= no < s.zones.len(),
        s.finished(no) is Ok,
    ensures
        s.finished(no)->Ok_0.inv(),
        s.finished(no)->Ok_0.zones[no].condition == ZoneCondition::Full,
        s.finished(no)->Ok_0.zones.len() == s.zones.len(),
        exact(s) ==> exact(s.finished(no)->Ok_0),
{
    let t = s.finished(no)->Ok_0;
    lemma_zone_fits(s, no);
    if s.use_accounting() {
        lemma_counted(s, no);
        match s.zones[no].condition {
            ZoneCondition::Full => {},
            ZoneCondition::Empty | ZoneCondition::Closed => {
                let room = s.zone_room(no)->Ok_0;
                lemma_zone_room(s, no);
                lemma_counted(room, no);
                lemma_zone_fits(room, no);
                lemma_zone_changed(room, t, no);
                if s.counters_exact() {
                    lemma_counters_follow(room, t, no);
                }
            },
            _ => {
                lemma_zone_changed(s, t, no);
                if s.counters_exact() {
                    lemma_counters_follow(s, t, no);
                }
            },
        }
    } else {
        lemma_zone_changed(s, t, no);
    }
}

/// Resetting a zone by a command keeps the invariant, the limits and exact counters, and ends with
/// the zone empty and its write pointer at its start.
pub proof fn lemma_reset_keeps(s: ZonesState, no: int)
    requires
        s.inv(),
        0 <= no < s.zones.len(),
        s.was_reset(no) is Ok,
    ensures
        s.was_reset(no)->Ok_0.inv(),
        s.was_reset(no)->Ok_0.zones[no].condition == ZoneCondition::Empty,
        s.was_reset(no)->Ok_0.zones[no].write_pointer == s.zones[no].start_sector,
        exact(s) ==> exact(s.was_reset(no)->Ok_0),
{
    let t = s.was_reset(no)->Ok_0;
    lemma_zone_fits(s, no);
    if s.use_accounting() {
        lemma_counted(s, no);
    }
    lemma_zone_changed(s, t, no);
    if s.use_accounting() && s.counters_exact() {
        lemma_counters_follow(s, t, no);
    }
}

/// Toggling a condition keeps the invariant and the limits. It leaves the counters alone, so that
/// they can be above what they count.
pub proof fn lemma_condition_keeps(s: ZonesState, no: int, condition: ZoneCondition)
    requires
        s.inv(),
        s.can_count_closed(),
        0 <= no < s.zones.len(),
        s.condition_set(no, condition) is Ok,
    ensures
        s.condition_set(no, condition)->Ok_0.inv(),
        s.condition_set(no, condition)->Ok_0.zones[no].condition == (if s.zones[no].condition
            == condition {
            ZoneCondition::Empty
        } else {
            ZoneCondition::Offline
        }),
{
    let t = s.condition_set(no, condition)->Ok_0;
    lemma_zone_fits(s, no);
    if s.zones[no].condition != condition && (s.zones[no].condition == ZoneCondition::ReadOnly
        || s.zones[no].condition == ZoneCondition::Offline) {
        lemma_finish_keeps(s, no);
        let finished = s.finished(no)->Ok_0;
        lemma_zone_fits(finished, no);
        lemma_zone_changed(finished, t, no);
    } else {
        lemma_zone_changed(s, t, no);
    }
}

impl ZoneOptions {
    /// Sets up the zones of a new device.
    pub fn new(args: ZoneOptionsArgs) -> (r: Result<Self>)
        requires
            args.zone_sizes_ok() ==> args.computable(),
        ensures
            match r {
                Ok(zoned) => {
                    &&& args.zone_sizes_ok() && args.zone_count() <= u32::MAX
                    &&& zoned.inv()
                    &&& exact(zoned@)
                    &&& zoned@ == args.new_zones()
                },
                Err(e) => {
                    &&& !args.zone_sizes_ok() || args.zone_count() > u32::MAX
                    &&& e == Errno(EINVAL)
                },
            },
    {
        if !is_power_of_two(args.zone_size_mib) {
            return Err(Errno(EINVAL));
        }
        if args.zone_capacity_mib > args.zone_size_mib {
            return Err(Errno(EINVAL));
        }
        let zone_size_sectors: u32 = mib_to_sectors(args.zone_size_mib);
        let device_capacity_sectors: u64 = mib_to_sectors(args.device_capacity_mib);
        let zone_capacity_sectors: u32 = mib_to_sectors(args.zone_capacity_mib);
        proof {
            lemma_power_scaled(args.zone_size_mib as int);
        }
        let aligned: u64 = align_up(device_capacity_sectors, zone_size_sectors as u64);
        let shift: u32 = zone_size_sectors.ilog2();
        proof {
            lemma_log2(zone_size_sectors, shift);
            vstd::bits::lemma_u64_shr_is_div(aligned, shift as u64);
            lemma_zone_count(args.device_sectors(), args.zone_sectors());
        }
        let count: u64 = aligned >> shift;
        if count > u32::MAX as u64 {
            return Err(Errno(EINVAL));
        }
        let zone_count: u32 = count as u32;
        let zone_nr_conv: u32 = if args.zone_nr_conv >= zone_count {
            zone_count - 1
        } else {
            args.zone_nr_conv
        };
        let append_unit: u32 = bytes_to_sectors(args.block_size_bytes);
        let aligned_append: u32 = if append_unit == 0 {
            args.zone_append_max_sectors
        } else {
            align_down(args.zone_append_max_sectors, append_unit)
        };
        let append_limit: u32 = if zone_capacity_sectors == 0 {
            zone_size_sectors
        } else {
            zone_capacity_sectors
        };
        let append_max_sectors: u32 = if aligned_append <= append_limit {
            aligned_append
        } else {
            append_limit
        };
        let seq_zone_count: u32 = zone_count - zone_nr_conv;
        let max_active: u32 = if args.zone_max_active >= seq_zone_count {
            0
        } else {
            args.zone_max_active
        };
        let max_open: u32 = if max_active != 0 && args.zone_max_open > max_active {
            max_active
        } else if args.zone_max_open >= seq_zone_count {
            0
        } else {
            args.zone_max_open
        };
        let zones = match init_zone_descriptors(
            zone_size_sectors,
            zone_capacity_sectors,
            zone_count,
            zone_nr_conv,
        ) {
            Ok(zones) => zones,
            Err(e) => {
                return Err(e);
            },
        };
        let r = ZoneOptions {
            enabled: args.enable,
            zones,
            conventional_count: zone_nr_conv,
            size_sectors: zone_size_sectors,
            append_max_sectors,
            max_open,
            max_active,
            accounting: ZoneAccounting {
                implicit_open: 0,
                explicit_open: 0,
                closed: 0,
                start_zone: zone_nr_conv,
            },
        };
        proof {
            assert(r@.zones =~= Seq::new(args.zone_count() as nat, |i: int| args.new_zone(i)));
            assert forall|i: int| 0 <= i < r@.zones.len() implies #[trigger] r@.zone_placed(i) by {
                let size = zone_size_sectors as int;
                assert(0 <= i * size && i * size + size <= u64::MAX) by (nonlinear_arith)
                    requires
                        0 <= i < u32::MAX,
                        0 <= size <= u32::MAX,
                ;
            }
            lemma_count_absent(r@.zones, ZoneCondition::ImplicitOpen);
            lemma_count_absent(r@.zones, ZoneCondition::ExplicitOpen);
            lemma_count_absent(r@.zones, ZoneCondition::Closed);
        }
        Ok(r)
    }

    /// Opens zone number `no`.
    pub fn open_zone(&mut self, no: usize) -> (r: Result<()>)
        requires
            old(self).inv(),
            old(self)@.can_count_closed(),
            no < old(self)@.zones.len(),
        ensures
            final(self).inv(),
            carried_out(old(self)@, old(self)@.opened(no as int), final(self)@, r),
            exact(old(self)@) ==> exact(final(self)@),
    {
        proof {
            if self@.opened(no as int) is Ok {
                lemma_open_keeps(self@, no as int);
            }
            if self@.use_accounting() {
                lemma_counted(self@, no as int);
                if self@.zone_room(no as int) is Ok {
                    lemma_zone_room(self@, no as int);
                    lemma_counted(self@.zone_room(no as int)->Ok_0, no as int);
                }
            }
        }
        let mut zone: ZoneDescriptor = self.zones[no];
        if zone.kind == ZoneType::Conventional {
            return Err(Errno(EINVAL));
        }
        match zone.condition {
            ZoneCondition::ExplicitOpen => {
                return Ok(());
            },
            ZoneCondition::Empty | ZoneCondition::ImplicitOpen | ZoneCondition::Closed => {},
            _ => {
                return Err(Errno(EIO));
            },
        }
        if self.use_accounting() {
            match zone.condition {
                ZoneCondition::Empty => {
                    match self.check_zone_resources(no) {
                        Ok(()) => {},
                        Err(e) => {
                            return Err(e);
                        },
                    }
                },
                ZoneCondition::ImplicitOpen => {
                    self.accounting.implicit_open = self.accounting.implicit_open - 1;
                },
                ZoneCondition::Closed => {
                    match self.check_zone_resources(no) {
                        Ok(()) => {},
                        Err(e) => {
                            return Err(e);
                        },
                    }
                    self.accounting.closed = self.accounting.closed - 1;
                },
                _ => {},
            }
            self.accounting.explicit_open = self.accounting.explicit_open + 1;
        }
        zone.condition = ZoneCondition::ExplicitOpen;
        self.zones.set(no, zone);
        assert(self@ =~= old(self)@.opened(no as int)->Ok_0);
        Ok(())
    }

    /// Closes zone number `no`.
    pub fn close_zone(&mut self, no: usize) -> (r: Result<()>)
        requires
            old(self).inv(),
            old(self)@.can_count_closed(),
            no < old(self)@.zones.len(),
        ensures
            final(self).inv(),
            carried_out(old(self)@, old(self)@.closed(no as int), final(self)@, r),
            exact(old(self)@) ==> exact(final(self)@),
    {
        proof {
            if self@.closed(no as int) is Ok {
                lemma_close_keeps(self@, no as int);
            }
            lemma_zone_fits(self@, no as int);
            if self@.use_accounting() {
                lemma_counted(self@, no as int);
            }
        }
        let mut zone: ZoneDescriptor = self.zones[no];
        if zone.kind == ZoneType::Conventional {
            return Err(Errno(EINVAL));
        }
        match zone.condition {
            ZoneCondition::Closed => {
                return Ok(());
            },
            ZoneCondition::ImplicitOpen | ZoneCondition::ExplicitOpen => {},
            _ => {
                return Err(Errno(EIO));
            },
        }
        if self.use_accounting() {
            match zone.condition {
                ZoneCondition::ImplicitOpen => {
                    self.accounting.implicit_open = self.accounting.implicit_open - 1;
                },
                ZoneCondition::ExplicitOpen => {
                    self.accounting.explicit_open = self.accounting.explicit_open - 1;
                },
                _ => {},
            }
            if zone.write_pointer > zone.start_sector {
                self.accounting.closed = self.accounting.closed + 1;
            }
        }
        if zone.write_pointer == zone.start_sector {
            zone.condition = ZoneCondition::Empty;
        } else {
            zone.condition = ZoneCondition::Closed;
        }
        self.zones.set(no, zone);
        assert(self@ =~= old(self)@.closed(no as int)->Ok_0);
        Ok(())
    }

    /// Finishes zone number `no`: nothing more can be written to it.
    pub fn finish_zone(&mut self, no: usize) -> (r: Result<()>)
        requires
            old(self).inv(),
            old(self)@.can_count_closed(),
            no < old(self)@.zones.len(),
        ensures
            final(self).inv(),
            carried_out(old(self)@, old(self)@.finished(no as int), final(self)@, r),
            exact(old(self)@) ==> exact(final(self)@),
    {
        proof {
            if self@.finished(no as int) is Ok {
                lemma_finish_keeps(self@, no as int);
            }
            lemma_zone_fits(self@, no as int);
            if self@.use_accounting() {
                lemma_counted(self@, no as int);
                if self@.zone_room(no as int) is Ok {
                    lemma_zone_room(self@, no as int);
                    lemma_counted(self@.zone_room(no as int)->Ok_0, no as int);
                }
            }
        }
        let mut zone: ZoneDescriptor = self.zones[no];
        if zone.kind == ZoneType::Conventional {
            return Err(Errno(EINVAL));
        }
        if self.use_accounting() {
            match zone.condition {
                ZoneCondition::Full => {
                    return Ok(());
                },
                ZoneCondition::Empty => {
                    match self.check_zone_resources(no) {
                        Ok(()) => {},
                        Err(e) => {
                            return Err(e);
                        },
                    }
                },
                ZoneCondition::ImplicitOpen => {
                    self.accounting.implicit_open = self.accounting.implicit_open - 1;
                },
                ZoneCondition::ExplicitOpen => {
                    self.accounting.explicit_open = self.accounting.explicit_open - 1;
                },
                ZoneCondition::Closed => {
                    match self.check_zone_resources(no) {
                        Ok(()) => {},
                        Err(e) => {
                            return Err(e);
                        },
                    }
                    self.accounting.closed = self.accounting.closed - 1;
                },
                _ => {
                    return Err(Errno(EIO));
                },
            }
        }
        zone.condition = ZoneCondition::Full;
        zone.write_pointer = zone.start_sector + zone.size_sectors as u64;
        self.zones.set(no, zone);
        assert(self@ =~= old(self)@.finished(no as int)->Ok_0);
        Ok(())
    }

    /// Resets zone number `no`: nothing is written to it, and its sectors are discarded.
    pub fn reset_zone(&mut self, storage: &mut DiskStorage, no: usize) -> (r: Result<()>)
        requires
            old(self).inv(),
            old(storage).inv(),
            no < old(self)@.zones.len(),
            old(self)@.was_reset(no as int) is Ok ==> old(storage)@.can_discard(
                old(self)@.zones[no as int].start_sector,
                old(self)@.size_sectors,
            ),
        ensures
            final(self).inv(),
            final(storage).inv(),
            carried_out(old(self)@, old(self)@.was_reset(no as int), final(self)@, r),
            exact(old(self)@) ==> exact(final(self)@),
            final(storage)@ == (if r is Ok {
                old(storage)@.sectors_discarded(
                    old(self)@.zones[no as int].start_sector,
                    old(self)@.size_sectors,
                )
            } else {
                old(storage)@
            }),
    {
        proof {
            if self@.was_reset(no as int) is Ok {
                lemma_reset_keeps(self@, no as int);
            }
            lemma_zone_fits(self@, no as int);
            if self@.use_accounting() {
                lemma_counted(self@, no as int);
            }
        }
        let mut zone: ZoneDescriptor = self.zones[no];
        if zone.kind == ZoneType::Conventional {
            return Err(Errno(EINVAL));
        }
        if self.use_accounting() {
            match zone.condition {
                ZoneCondition::ImplicitOpen => {
                    self.accounting.implicit_open = self.accounting.implicit_open - 1;
                },
                ZoneCondition::ExplicitOpen => {
                    self.accounting.explicit_open = self.accounting.explicit_open - 1;
                },
                ZoneCondition::Closed => {
                    self.accounting.closed = self.accounting.closed - 1;
                },
                ZoneCondition::Empty | ZoneCondition::Full => {},
                _ => {
                    return Err(Errno(EIO));
                },
            }
        }
        zone.condition = ZoneCondition::Empty;
        zone.write_pointer = zone.start_sector;
        self.zones.set(no, zone);
        assert(self@ =~= old(self)@.was_reset(no as int)->Ok_0);
        storage.discard(zone.start_sector, zone.size_sectors);
        Ok(())
    }

    /// Toggles a condition of zone number `no`.
    fn set_zone_condition(
        &mut self,
        storage: &mut DiskStorage,
        no: usize,
        condition: ZoneCondition,
    ) -> (r: Result<()>)
        requires
            old(self).inv(),
            old(self)@.can_count_closed(),
            old(storage).inv(),
            no < old(self)@.zones.len(),
            old(self)@.zones[no as int].condition == condition ==> old(storage)@.can_discard(
                old(self)@.zones[no as int].start_sector,
                old(self)@.size_sectors,
            ),
        ensures
            final(self).inv(),
            final(storage).inv(),
            carried_out(
                old(self)@,
                old(self)@.condition_set(no as int, condition),
                final(self)@,
                r,
            ),
            final(storage)@ == (if old(self)@.zones[no as int].condition == condition {
                old(storage)@.sectors_discarded(
                    old(self)@.zones[no as int].start_sector,
                    old(self)@.size_sectors,
                )
            } else {
                old(storage)@
            }),
    {
        proof {
            if self@.condition_set(no as int, condition) is Ok {
                lemma_condition_keeps(self@, no as int, condition);
            }
            lemma_zone_fits(self@, no as int);
        }
        let mut zone: ZoneDescriptor = self.zones[no];
        if zone.condition == condition {
            zone.condition = ZoneCondition::Empty;
            zone.write_pointer = zone.start_sector;
            self.zones.set(no, zone);
            storage.discard(zone.start_sector, zone.size_sectors);
        } else {
            if matches!(zone.condition, ZoneCondition::ReadOnly | ZoneCondition::Offline) {
                proof {
                    if self@.finished(no as int) is Ok {
                        lemma_finish_keeps(self@, no as int);
                    }
                }
                match self.finish_zone(no) {
                    Ok(()) => {},
                    Err(e) => {
                        return Err(e);
                    },
                }
                zone = self.zones[no];
            }
            zone.condition = ZoneCondition::Offline;
            zone.write_pointer = u64::MAX;
            self.zones.set(no, zone);
        }
        assert(self@ =~= old(self)@.condition_set(no as int, condition)->Ok_0);
        Ok(())
    }

    /// Takes zone number `no` offline, or brings it back empty.
    pub fn offline_zone(&mut self, storage: &mut DiskStorage, no: usize) -> (r: Result<()>)
        requires
            old(self).inv(),
            old(self)@.can_count_closed(),
            old(storage).inv(),
            no < old(self)@.zones.len(),
            old(self)@.zones[no as int].condition == ZoneCondition::Offline ==> old(
                storage,
            )@.can_discard(
                old(self)@.zones[no as int].start_sector,
                old(self)@.size_sectors,
            ),
        ensures
            final(self).inv(),
            final(storage).inv(),
            carried_out(
                old(self)@,
                old(self)@.condition_set(no as int, ZoneCondition::Offline),
                final(self)@,
                r,
            ),
            final(storage)@ == (if old(self)@.zones[no as int].condition
                == ZoneCondition::Offline {
                old(storage)@.sectors_discarded(
                    old(self)@.zones[no as int].start_sector,
                    old(self)@.size_sectors,
                )
            } else {
                old(storage)@
            }),
    {
        self.set_zone_condition(storage, no, ZoneCondition::Offline)
    }

    /// Takes zone number `no` out of service, or brings it back empty where it is read-only.
    pub fn read_only_zone(&mut self, storage: &mut DiskStorage, no: usize) -> (r: Result<()>)
        requires
            old(self).inv(),
            old(self)@.can_count_closed(),
            old(storage).inv(),
            no < old(self)@.zones.len(),
            old(self)@.zones[no as int].condition == ZoneCondition::ReadOnly ==> old(
                storage,
            )@.can_discard(
                old(self)@.zones[no as int].start_sector,
                old(self)@.size_sectors,
            ),
        ensures
            final(self).inv(),
            final(storage).inv(),
            carried_out(
                old(self)@,
                old(self)@.condition_set(no as int, ZoneCondition::ReadOnly),
                final(self)@,
                r,
            ),
            final(storage)@ == (if old(self)@.zones[no as int].condition
                == ZoneCondition::ReadOnly {
                old(storage)@.sectors_discarded(
                    old(self)@.zones[no as int].start_sector,
                    old(self)@.size_sectors,
                )
            } else {
                old(storage)@
            }),
    {
        self.set_zone_condition(storage, no, ZoneCondition::ReadOnly)
    }
}

/// The size of a zone in sectors is a power of two.
proof fn lemma_power_scaled(mib: int)
    requires
        crate::util::is_power(mib),
        mib < 0x20_0000,
    ensures
        mib > 0,
        crate::util::is_power(mib * 2048),
        mib * 2048 <= 0x8000_0000,
{
    let e: nat = choose|e: nat| mib == #[trigger] vstd::arithmetic::power2::pow2(e);
    vstd::arithmetic::power2::lemma_pow2_pos(e);
    vstd::arithmetic::power2::lemma2_to64();
    vstd::arithmetic::power2::lemma_pow2_adds(e, 11);
    assert(mib * 2048 == vstd::arithmetic::power2::pow2((e + 11) as nat));
    if e > 20 {
        if e > 21 {
            vstd::arithmetic::power2::lemma_pow2_strictly_increases(21, e);
        }
        assert(false);
    } else if e < 20 {
        vstd::arithmetic::power2::lemma_pow2_strictly_increases(e, 20);
    }
}

/// The logarithm of a size that is a power of two.
proof fn lemma_log2(size: u32, shift: u32)
    requires
        crate::util::is_power(size as int),
        vstd::arithmetic::power2::pow2(shift as nat) <= size,
        size < vstd::arithmetic::power2::pow2((shift + 1) as nat),
    ensures
        shift < 32,
        size == vstd::arithmetic::power2::pow2(shift as nat),
{
    let e: nat = choose|e: nat| size == #[trigger] vstd::arithmetic::power2::pow2(e);
    lemma_log_of_power(e, shift as nat);
    vstd::arithmetic::power2::lemma2_to64();
    if shift >= 32 {
        if shift > 32 {
            vstd::arithmetic::power2::lemma_pow2_strictly_increases(32, shift as nat);
        }
    }
}

/// A device with sectors has a zone.
proof fn lemma_zone_count(sectors: int, size: int)
    requires
        sectors > 0,
        size > 0,
    ensures
        crate::util::rounded_up(sectors, size) / size >= 1,
{
    crate::util::lemma_rounding(sectors, size);
    let q = (sectors + size - 1) / size;
    assert(q >= 1) by {
        vstd::arithmetic::div_mod::lemma_div_is_ordered(size, sectors + size - 1, size);
        vstd::arithmetic::div_mod::lemma_div_by_self(size);
    }
    vstd::arithmetic::div_mod::lemma_div_multiples_vanish(q, size);
    assert(size * q == q * size) by (nonlinear_arith);
}

/// A condition in which no zone is has a count of zero.
proof fn lemma_count_absent(zones: Seq<ZoneDescriptor>, c: ZoneCondition)
    requires
        forall|i: int| 0 <= i < zones.len() ==> #[trigger] zones[i].condition != c,
    ensures
        count_in(zones, c) == 0,
    decreases zones.len(),
{
    if zones.len() > 0 {
        let rest = zones.drop_last();
        assert forall|i: int| 0 <= i < rest.len() implies #[trigger] rest[i].condition != c by {
            assert(zones[i].condition != c);
        }
        lemma_count_absent(rest, c);
    }
}

impl ZonesState {
    /// Where a write of `sectors` sectors to a sequential zone goes: it fits, and it is at the write
    /// pointer; an append goes there by itself.
    pub open spec fn write_position(self, no: int, sector: u64, sectors: u32, append: bool) -> Result<
        u64,
    > {
        let zone = self.zones[no];
        if zone.write_pointer + sectors > zone.limit() {
            Err(Errno(EINVAL))
        } else if append {
            if self.append_max_sectors == 0 {
                Err(Errno(EINVAL))
            } else {
                Ok(zone.write_pointer)
            }
        } else if sector != zone.write_pointer {
            Err(Errno(EINVAL))
        } else {
            Ok(sector)
        }
    }

    /// Opens zone number `no` for a write.
    pub open spec fn write_begun(self, no: int) -> Result<ZonesState> {
        let zone = self.zones[no];
        let open = zone.with_condition(ZoneCondition::ImplicitOpen);
        match zone.condition {
            ZoneCondition::Closed => match self.room_for(no) {
                Ok(room) => Ok(room.counted(1, 0, -1).with_zone(no, open)),
                Err(e) => Err(e),
            },
            ZoneCondition::Empty => match self.room_for(no) {
                Ok(room) => Ok(room.counted(1, 0, 0).with_zone(no, open)),
                Err(e) => Err(e),
            },
            _ => Ok(self),
        }
    }

    /// Advances the write pointer of zone number `no`; a zone without room is full.
    pub open spec fn write_advanced(self, no: int, sectors: u32) -> ZonesState {
        let zone = self.zones[no];
        let pointer = zone.write_pointer + sectors;
        if pointer != zone.limit() {
            self.with_zone(no, zone.with_pointer(zone.condition, pointer))
        } else {
            let full = zone.with_pointer(ZoneCondition::Full, pointer);
            match zone.condition {
                ZoneCondition::ExplicitOpen => self.counted(0, -1, 0).with_zone(no, full),
                ZoneCondition::ImplicitOpen => self.counted(-1, 0, 0).with_zone(no, full),
                _ => self.with_zone(no, full),
            }
        }
    }
}

/// Opening a zone for a write keeps the invariant, the limits and exact counters, leaves the write
/// pointer alone, and ends with the zone not empty and not closed.
pub proof fn lemma_begin_keeps(s: ZonesState, no: int)
    requires
        s.inv(),
        s.can_count_closed(),
        0 <= no < s.zones.len(),
        s.write_begun(no) is Ok,
    ensures
        s.write_begun(no)->Ok_0.inv(),
        s.write_begun(no)->Ok_0.zones.len() == s.zones.len(),
        s.write_begun(no)->Ok_0.zones[no] == s.zones[no].with_condition(
            s.write_begun(no)->Ok_0.zones[no].condition,
        ),
        s.write_begun(no)->Ok_0.zones[no].condition != ZoneCondition::Empty,
        s.write_begun(no)->Ok_0.zones[no].condition != ZoneCondition::Closed,
        exact(s) ==> exact(s.write_begun(no)->Ok_0),
{
    let t = s.write_begun(no)->Ok_0;
    lemma_zone_fits(s, no);
    if s.zones[no].condition == ZoneCondition::Closed || s.zones[no].condition
        == ZoneCondition::Empty {
        let room = s.room_for(no)->Ok_0;
        if s.use_accounting() {
            lemma_counted(s, no);
            lemma_zone_room(s, no);
            lemma_counted(room, no);
        }
        lemma_zone_fits(room, no);
        lemma_zone_changed(room, t, no);
        if s.use_accounting() && s.counters_exact() {
            lemma_counters_follow(room, t, no);
        }
    }
}

/// Advancing the write pointer of a zone that is open keeps the invariant, the limits and exact
/// counters.
pub proof fn lemma_advance_keeps(s: ZonesState, no: int, sectors: u32)
    requires
        s.inv(),
        0 <= no < s.zones.len(),
        s.zones[no].write_pointer + sectors <= s.zones[no].limit(),
        s.zones[no].condition != ZoneCondition::Empty,
        s.zones[no].condition != ZoneCondition::Closed,
        s.zones[no].condition != ZoneCondition::NoWritePointer,
    ensures
        s.write_advanced(no, sectors).inv(),
        s.write_advanced(no, sectors).zones[no].write_pointer == s.zones[no].write_pointer + sectors,
        exact(s) ==> exact(s.write_advanced(no, sectors)),
{
    let t = s.write_advanced(no, sectors);
    lemma_zone_fits(s, no);
    if s.use_accounting() {
        lemma_counted(s, no);
    }
    lemma_zone_changed(s, t, no);
    if s.use_accounting() && s.counters_exact() {
        lemma_counters_follow(s, t, no);
    }
}

impl ZoneOptions {
    /// Where a write to sequential zone number `no` goes.
    pub fn write_position(&self, no: usize, sector: u64, sectors: u32, append: bool) -> (r: Result<u64>)
        requires
            self.inv(),
            no < self@.zones.len(),
            self@.zones[no as int].write_pointer + sectors <= u64::MAX,
        ensures
            r == self@.write_position(no as int, sector, sectors, append),
    {
        proof {
            lemma_zone_fits(self@, no as int);
        }
        let zone: ZoneDescriptor = self.zones[no];
        if zone.write_pointer + sectors as u64 > zone.start_sector + zone.capacity_sectors as u64 {
            return Err(Errno(EINVAL));
        }
        if append {
            if self.append_max_sectors == 0 {
                return Err(Errno(EINVAL));
            }
            return Ok(zone.write_pointer);
        }
        if sector != zone.write_pointer {
            return Err(Errno(EINVAL));
        }
        Ok(sector)
    }

    /// Opens zone number `no` for a write.
    pub fn begin_write(&mut self, no: usize) -> (r: Result<()>)
        requires
            old(self).inv(),
            old(self)@.can_count_closed(),
            no < old(self)@.zones.len(),
        ensures
            final(self).inv(),
            carried_out(old(self)@, old(self)@.write_begun(no as int), final(self)@, r),
            exact(old(self)@) ==> exact(final(self)@),
    {
        proof {
            if self@.write_begun(no as int) is Ok {
                lemma_begin_keeps(self@, no as int);
            }
            if self@.use_accounting() {
                lemma_counted(self@, no as int);
                if self@.zone_room(no as int) is Ok {
                    lemma_zone_room(self@, no as int);
                    lemma_counted(self@.zone_room(no as int)->Ok_0, no as int);
                }
            }
        }
        let mut zone: ZoneDescriptor = self.zones[no];
        if zone.condition == ZoneCondition::Closed || zone.condition == ZoneCondition::Empty {
            if self.use_accounting() {
                match self.check_zone_resources(no) {
                    Ok(()) => {},
                    Err(e) => {
                        return Err(e);
                    },
                }
                if zone.condition == ZoneCondition::Closed {
                    self.accounting.closed = self.accounting.closed - 1;
                    self.accounting.implicit_open = self.accounting.implicit_open + 1;
                } else if zone.condition == ZoneCondition::Empty {
                    self.accounting.implicit_open = self.accounting.implicit_open + 1;
                }
            }
            zone.condition = ZoneCondition::ImplicitOpen;
            self.zones.set(no, zone);
        }
        assert(self@ =~= old(self)@.write_begun(no as int)->Ok_0);
        Ok(())
    }

    /// Advances the write pointer of zone number `no` after a write.
    pub fn advance_write(&mut self, no: usize, sectors: u32)
        requires
            old(self).inv(),
            no < old(self)@.zones.len(),
            old(self)@.zones[no as int].write_pointer + sectors <= old(
                self,
            )@.zones[no as int].limit(),
            old(self)@.zones[no as int].condition != ZoneCondition::Empty,
            old(self)@.zones[no as int].condition != ZoneCondition::Closed,
            old(self)@.zones[no as int].condition != ZoneCondition::NoWritePointer,
        ensures
            final(self).inv(),
            final(self)@ == old(self)@.write_advanced(no as int, sectors),
            exact(old(self)@) ==> exact(final(self)@),
    {
        proof {
            lemma_advance_keeps(self@, no as int, sectors);
            lemma_zone_fits(self@, no as int);
            if self@.use_accounting() {
                lemma_counted(self@, no as int);
            }
        }
        let mut zone: ZoneDescriptor = self.zones[no];
        zone.write_pointer = zone.write_pointer + sectors as u64;
        if zone.write_pointer == zone.start_sector + zone.capacity_sectors as u64 {
            if self.use_accounting() {
                if zone.condition == ZoneCondition::ExplicitOpen {
                    self.accounting.explicit_open = self.accounting.explicit_open - 1;
                } else if zone.condition == ZoneCondition::ImplicitOpen {
                    self.accounting.implicit_open = self.accounting.implicit_open - 1;
                }
            }
            zone.condition = ZoneCondition::Full;
        }
        self.zones.set(no, zone);
        assert(self@ =~= old(self)@.write_advanced(no as int, sectors));
    }
}

} // verus!
