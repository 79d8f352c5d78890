//! Block device feature flags.

use vstd::prelude::*;

verus! {

/// A block device feature flag.
#[derive(Debug, Clone, Copy, PartialEq, Eq, Structural)]
pub enum Feature {
    /// Supports a volatile write cache.
    WriteCache,
    /// Supports passing on the FUA bit.
    ForcedUnitAccess,
    /// Rotational device (hard drive or floppy).
    Rotational,
    /// Contributes to the random number pool.
    AddRandom,
    /// Enables disk/partitions I/O accounting.
    IoStat,
    /// Don't modify data until writeback is done.
    StableWrites,
    /// Always completes in submit context.
    Synchronous,
    /// Supports REQ_NOWAIT.
    Nowait,
    /// Supports DAX.
    Dax,
    /// Supports I/O polling.
    Poll,
    /// Is a zoned device.
    Zoned,
    /// Supports PCI(e) p2p requests.
    PciP2Pdma,
    /// Skips this queue in `blk_mq_(un)quiesce_tagset`.
    SkipTagsetQuiesce,
    /// Undocumented magic for bcache.
    RaidPartialStripesExpensive,
    /// Atomic writes enabled.
    AtomicWrites,
}

impl Feature {
    /// The bit that stands for the flag.
    pub open spec fn bit(self) -> u32 {
        match self {
            Feature::WriteCache => 0x1,
            Feature::ForcedUnitAccess => 0x2,
            Feature::Rotational => 0x4,
            Feature::AddRandom => 0x8,
            Feature::IoStat => 0x10,
            Feature::StableWrites => 0x20,
            Feature::Synchronous => 0x40,
            Feature::Nowait => 0x80,
            Feature::Dax => 0x100,
            Feature::Poll => 0x200,
            Feature::Zoned => 0x400,
            Feature::PciP2Pdma => 0x1000,
            Feature::SkipTagsetQuiesce => 0x2000,
            Feature::RaidPartialStripesExpensive => 0x8000,
            Feature::AtomicWrites => 0x10000,
        }
    }

    /// The bit that stands for the flag.
    pub fn as_raw(self) -> (r: u32)
        ensures
            r == self.bit(),
    {
        match self {
            Feature::WriteCache => 0x1,
            Feature::ForcedUnitAccess => 0x2,
            Feature::Rotational => 0x4,
            Feature::AddRandom => 0x8,
            Feature::IoStat => 0x10,
            Feature::StableWrites => 0x20,
            Feature::Synchronous => 0x40,
            Feature::Nowait => 0x80,
            Feature::Dax => 0x100,
            Feature::Poll => 0x200,
            Feature::Zoned => 0x400,
            Feature::PciP2Pdma => 0x1000,
            Feature::SkipTagsetQuiesce => 0x2000,
            Feature::RaidPartialStripesExpensive => 0x8000,
            Feature::AtomicWrites => 0x10000,
        }
    }
}

/// A set of block device feature flags.
#[derive(Debug, Clone, Copy, PartialEq, Eq, Structural)]
pub struct Features(u32);

impl Features {
    /// The bits of the set.
    pub closed spec fn bits(self) -> u32 {
        self.0
    }

    /// The flag is in the set.
    pub open spec fn has(self, flag: Feature) -> bool {
        self.bits() & flag.bit() == flag.bit()
    }

    /// Creates a set from its bits.
    pub fn from_raw(bits: u32) -> (r: Self)
        ensures
            r.bits() == bits,
    {
        Features(bits)
    }

    /// The bits of the set.
    pub fn into_inner(self) -> (r: u32)
        ensures
            r == self.bits(),
    {
        self.0
    }

    /// Returns true if the flag is in the set.
    pub fn contains(self, flag: Feature) -> (r: bool)
        ensures
            r == self.has(flag),
    {
        self.0 & flag.as_raw() == flag.as_raw()
    }

    /// Adds a flag.
    pub fn insert(&mut self, flag: Feature)
        ensures
            final(self).bits() == old(self).bits() | flag.bit(),
    {
        self.0 = self.0 | flag.as_raw();
    }
}

impl Default for Features {
    /// The empty set.
    fn default() -> (r: Self)
        ensures
            r.bits() == 0,
    {
        Features(0)
    }
}

/// Adding a flag adds that flag and no other.
pub proof fn lemma_insert(bits: u32, flag: Feature, other: Feature)
    ensures
        (bits | flag.bit()) & flag.bit() == flag.bit(),
        flag != other ==> (bits | flag.bit()) & other.bit() == bits & other.bit(),
        0u32 & flag.bit() != flag.bit(),
{
    lemma_shift(flag);
    lemma_shift(other);
    crate::util::lemma_single_bits(bits, shift_of(flag), shift_of(other));
}

spec fn shift_of(flag: Feature) -> u32 {
    match flag {
        Feature::WriteCache => 0,
        Feature::ForcedUnitAccess => 1,
        Feature::Rotational => 2,
        Feature::AddRandom => 3,
        Feature::IoStat => 4,
        Feature::StableWrites => 5,
        Feature::Synchronous => 6,
        Feature::Nowait => 7,
        Feature::Dax => 8,
        Feature::Poll => 9,
        Feature::Zoned => 10,
        Feature::PciP2Pdma => 12,
        Feature::SkipTagsetQuiesce => 13,
        Feature::RaidPartialStripesExpensive => 15,
        Feature::AtomicWrites => 16,
    }
}

proof fn lemma_shift(flag: Feature)
    ensures
        shift_of(flag) < 32,
        flag.bit() == 1u32 << shift_of(flag),
{
    assert(
        1u32 << 0u32 == 0x1u32
        && 1u32 << 1u32 == 0x2u32
        && 1u32 << 2u32 == 0x4u32
        && 1u32 << 3u32 == 0x8u32
        && 1u32 << 4u32 == 0x10u32
        && 1u32 << 5u32 == 0x20u32
        && 1u32 << 6u32 == 0x40u32
        && 1u32 << 7u32 == 0x80u32
        && 1u32 << 8u32 == 0x100u32
        && 1u32 << 9u32 == 0x200u32
        && 1u32 << 10u32 == 0x400u32
        && 1u32 << 12u32 == 0x1000u32
        && 1u32 << 13u32 == 0x2000u32
        && 1u32 << 15u32 == 0x8000u32
        && 1u32 << 16u32 == 0x10000u32
    ) by (bit_vector);
}

} // verus!
