//! Request flags.

use vstd::prelude::*;

verus! {

/// Individual request flags for block I/O operations.
#[derive(Debug, Clone, Copy, PartialEq, Eq, Structural)]
pub enum Flag {
    /// No driver retries on device errors.
    FailfastDev,
    /// No driver retries on transport errors.
    FailfastTransport,
    /// No driver retries on driver errors.
    FailfastDriver,
    /// Request is synchronous (sync write or read).
    Sync,
    /// Metadata I/O request.
    Meta,
    /// Boost priority in CFQ scheduler.
    Priority,
    /// Don't merge this request with others.
    NoMerge,
    /// Anticipate more I/O after this one.
    Idle,
    /// I/O has block integrity payload.
    Integrity,
    /// Forced unit access - data must be written to persistent storage before command completion is
    /// signaled.
    ForcedUnitAccess,
    /// Request a cache flush before this operation.
    Preflush,
    /// Read ahead request, can fail anytime.
    ReadAhead,
    /// Background I/O operation.
    Background,
    /// Don't wait if the request would block.
    NoWait,
    /// Caller polls for completion using `bio_poll`.
    Polled,
    /// Allocate I/O from cache if available.
    AllocCache,
    /// Swap I/O operation.
    Swap,
    /// Reserved for driver use.
    Driver,
    /// Reserved for file system (submitter) use.
    FsPrivate,
    /// Atomic write operation.
    Atomic,
    /// Do not free blocks when zeroing (for write zeroes operations).
    NoUnmap,
}

impl Flag {
    /// The bit that stands for the flag.
    pub open spec fn bit(self) -> u32 {
        match self {
            Flag::FailfastDev => 0x100,
            Flag::FailfastTransport => 0x200,
            Flag::FailfastDriver => 0x400,
            Flag::Sync => 0x800,
            Flag::Meta => 0x1000,
            Flag::Priority => 0x2000,
            Flag::NoMerge => 0x4000,
            Flag::Idle => 0x8000,
            Flag::Integrity => 0x10000,
            Flag::ForcedUnitAccess => 0x20000,
            Flag::Preflush => 0x40000,
            Flag::ReadAhead => 0x80000,
            Flag::Background => 0x100000,
            Flag::NoWait => 0x200000,
            Flag::Polled => 0x400000,
            Flag::AllocCache => 0x800000,
            Flag::Swap => 0x1000000,
            Flag::Driver => 0x2000000,
            Flag::FsPrivate => 0x4000000,
            Flag::Atomic => 0x8000000,
            Flag::NoUnmap => 0x10000000,
        }
    }

    /// The bit that stands for the flag.
    pub fn as_raw(self) -> (r: u32)
        ensures
            r == self.bit(),
    {
        match self {
            Flag::FailfastDev => 0x100,
            Flag::FailfastTransport => 0x200,
            Flag::FailfastDriver => 0x400,
            Flag::Sync => 0x800,
            Flag::Meta => 0x1000,
            Flag::Priority => 0x2000,
            Flag::NoMerge => 0x4000,
            Flag::Idle => 0x8000,
            Flag::Integrity => 0x10000,
            Flag::ForcedUnitAccess => 0x20000,
            Flag::Preflush => 0x40000,
            Flag::ReadAhead => 0x80000,
            Flag::Background => 0x100000,
            Flag::NoWait => 0x200000,
            Flag::Polled => 0x400000,
            Flag::AllocCache => 0x800000,
            Flag::Swap => 0x1000000,
            Flag::Driver => 0x2000000,
            Flag::FsPrivate => 0x4000000,
            Flag::Atomic => 0x8000000,
            Flag::NoUnmap => 0x10000000,
        }
    }
}

/// A set of request flags, which modify how a block I/O request is processed.
#[derive(Debug, Clone, Copy, PartialEq, Eq, Structural)]
pub struct Flags(u32);

impl Flags {
    /// The bits of the set.
    pub closed spec fn bits(self) -> u32 {
        self.0
    }

    /// The flag is in the set.
    pub open spec fn has(self, flag: Flag) -> bool {
        self.bits() & flag.bit() == flag.bit()
    }

    /// Creates a set from its bits.
    pub fn from_raw(bits: u32) -> (r: Self)
        ensures
            r.bits() == bits,
    {
        Flags(bits)
    }

    /// The bits of the set.
    pub fn into_inner(self) -> (r: u32)
        ensures
            r == self.bits(),
    {
        self.0
    }

    /// Returns true if the flag is in the set.
    pub fn contains(self, flag: Flag) -> (r: bool)
        ensures
            r == self.has(flag),
    {
        self.0 & flag.as_raw() == flag.as_raw()
    }

    /// Adds a flag.
    pub fn insert(&mut self, flag: Flag)
        ensures
            final(self).bits() == old(self).bits() | flag.bit(),
    {
        self.0 = self.0 | flag.as_raw();
    }
}

impl Default for Flags {
    /// The empty set.
    fn default() -> (r: Self)
        ensures
            r.bits() == 0,
    {
        Flags(0)
    }
}

/// Adding a flag adds that flag and no other.
pub proof fn lemma_insert(bits: u32, flag: Flag, other: Flag)
    ensures
        (bits | flag.bit()) & flag.bit() == flag.bit(),
        flag != other ==> (bits | flag.bit()) & other.bit() == bits & other.bit(),
        0u32 & flag.bit() != flag.bit(),
{
    lemma_shift(flag);
    lemma_shift(other);
    crate::util::lemma_single_bits(bits, shift_of(flag), shift_of(other));
}

spec fn shift_of(flag: Flag) -> u32 {
    match flag {
        Flag::FailfastDev => 8,
        Flag::FailfastTransport => 9,
        Flag::FailfastDriver => 10,
        Flag::Sync => 11,
        Flag::Meta => 12,
        Flag::Priority => 13,
        Flag::NoMerge => 14,
        Flag::Idle => 15,
        Flag::Integrity => 16,
        Flag::ForcedUnitAccess => 17,
        Flag::Preflush => 18,
        Flag::ReadAhead => 19,
        Flag::Background => 20,
        Flag::NoWait => 21,
        Flag::Polled => 22,
        Flag::AllocCache => 23,
        Flag::Swap => 24,
        Flag::Driver => 25,
        Flag::FsPrivate => 26,
        Flag::Atomic => 27,
        Flag::NoUnmap => 28,
    }
}

proof fn lemma_shift(flag: Flag)
    ensures
        shift_of(flag) < 32,
        flag.bit() == 1u32 << shift_of(flag),
{
    assert(
        1u32 << 8u32 == 0x100u32
        && 1u32 << 9u32 == 0x200u32
        && 1u32 << 10u32 == 0x400u32
        && 1u32 << 11u32 == 0x800u32
        && 1u32 << 12u32 == 0x1000u32
        && 1u32 << 13u32 == 0x2000u32
        && 1u32 << 14u32 == 0x4000u32
        && 1u32 << 15u32 == 0x8000u32
        && 1u32 << 16u32 == 0x10000u32
        && 1u32 << 17u32 == 0x20000u32
        && 1u32 << 18u32 == 0x40000u32
        && 1u32 << 19u32 == 0x80000u32
        && 1u32 << 20u32 == 0x100000u32
        && 1u32 << 21u32 == 0x200000u32
        && 1u32 << 22u32 == 0x400000u32
        && 1u32 << 23u32 == 0x800000u32
        && 1u32 << 24u32 == 0x1000000u32
        && 1u32 << 25u32 == 0x2000000u32
        && 1u32 << 26u32 == 0x4000000u32
        && 1u32 << 27u32 == 0x8000000u32
        && 1u32 << 28u32 == 0x10000000u32
    ) by (bit_vector);
}

} // verus!
