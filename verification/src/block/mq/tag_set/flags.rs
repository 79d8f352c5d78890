//! Flags of tag sets.

use vstd::prelude::*;
use vstd::std_specs::ops::{BitAndSpecImpl, BitOrSpecImpl, NotSpecImpl};

verus! {

/// A flag to be used when creating [`super::TagSet`] objects.
#[derive(Debug, Clone, Copy, PartialEq, Eq, Structural)]
pub enum Flag {
    /// Share one tag bitmap between all queues.
    TagHctxShared,
    /// Indicate that the queues associated with this tag set might sleep when processing IO. When
    /// this flag is not set, IO is processed in atomic context. When this flag is set, IO is
    /// processed in process context.
    Blocking,
    /// Select 'none' during queue registration in case of a single hwq or shared hwqs instead of
    /// 'mq-deadline'.
    NoDefaultScheduler,
}

impl Flag {
    /// The bit that stands for the flag.
    pub open spec fn bit(self) -> u32 {
        match self {
            Flag::TagHctxShared => 0x8,
            Flag::Blocking => 0x10,
            Flag::NoDefaultScheduler => 0x40,
        }
    }
}

/// Flags to be used when creating [`super::TagSet`] objects.
#[derive(Debug, Clone, Copy, PartialEq, Eq, Structural)]
pub struct Flags(u32);

impl Flags {
    /// The bits of the set.
    pub closed spec fn bits(self) -> u32 {
        self.0
    }

    /// The set with given bits.
    pub closed spec fn of(bits: u32) -> Flags {
        Flags(bits)
    }

    /// The flag is in the set.
    pub open spec fn has(self, flag: Flag) -> bool {
        self.bits() & flag.bit() == flag.bit()
    }

    /// The bits of the set.
    pub fn into_inner(self) -> (r: u32)
        ensures
            r == self.bits(),
    {
        self.0
    }

    /// Creates a set from its bits.
    pub fn new(value: u32) -> (r: Self)
        ensures
            r.bits() == value,
            r == Flags::of(value),
    {
        Flags(value)
    }

    /// The set of one flag.
    pub fn from_flag(flag: Flag) -> (r: Self)
        ensures
            r.bits() == flag.bit(),
    {
        match flag {
            Flag::TagHctxShared => Flags(0x8),
            Flag::Blocking => Flags(0x10),
            Flag::NoDefaultScheduler => Flags(0x40),
        }
    }

    /// Adds the flags of another set.
    pub fn insert_all(&mut self, rhs: Self)
        ensures
            final(self).bits() == old(self).bits() | rhs.bits(),
    {
        self.0 = self.0 | rhs.0;
    }

    /// Keeps the flags that are in another set too.
    pub fn retain_all(&mut self, rhs: Self)
        ensures
            final(self).bits() == old(self).bits() & rhs.bits(),
    {
        self.0 = self.0 & rhs.0;
    }
}

/// A set has the bits that it was made of.
pub broadcast proof fn lemma_of(bits: u32)
    ensures
        (#[trigger] Flags::of(bits)).bits() == bits,
{
}

impl Default for Flags {
    /// The empty set.
    fn default() -> (r: Self)
        ensures
            r.bits() == 0,
    {
        Flags(0)
    }
}

impl core::ops::BitOr for Flags {
    type Output = Flags;

    fn bitor(self, rhs: Self) -> (r: Flags) {
        Flags(self.0 | rhs.0)
    }
}

impl BitOrSpecImpl for Flags {
    open spec fn obeys_bitor_spec() -> bool {
        true
    }

    open spec fn bitor_req(self, rhs: Flags) -> bool {
        true
    }

    open spec fn bitor_spec(self, rhs: Flags) -> Flags {
        Flags::of(self.bits() | rhs.bits())
    }
}

impl core::ops::BitAnd for Flags {
    type Output = Flags;

    fn bitand(self, rhs: Self) -> (r: Flags) {
        Flags(self.0 & rhs.0)
    }
}

impl BitAndSpecImpl for Flags {
    open spec fn obeys_bitand_spec() -> bool {
        true
    }

    open spec fn bitand_req(self, rhs: Flags) -> bool {
        true
    }

    open spec fn bitand_spec(self, rhs: Flags) -> Flags {
        Flags::of(self.bits() & rhs.bits())
    }
}

impl core::ops::Not for Flags {
    type Output = Flags;

    fn not(self) -> (r: Flags) {
        Flags(!self.0)
    }
}

impl NotSpecImpl for Flags {
    open spec fn obeys_not_spec() -> bool {
        true
    }

    open spec fn not_req(self) -> bool {
        true
    }

    open spec fn not_spec(self) -> Flags {
        Flags::of(!self.bits())
    }
}

/// Adding a flag adds that flag and no other.
pub proof fn lemma_insert(bits: u32, flag: Flag, other: Flag)
    ensures
        (bits | flag.bit()) & flag.bit() == flag.bit(),
        flag != other ==> (bits | flag.bit()) & other.bit() == bits & other.bit(),
        0u32 & flag.bit() != flag.bit(),
{
    lemma_shift(flag);
    lemma_shift(other);
    crate::util::lemma_single_bits(bits, shift_of(flag), shift_of(other));
}

spec fn shift_of(flag: Flag) -> u32 {
    match flag {
        Flag::TagHctxShared => 3,
        Flag::Blocking => 4,
        Flag::NoDefaultScheduler => 6,
    }
}

proof fn lemma_shift(flag: Flag)
    ensures
        shift_of(flag) < 32,
        flag.bit() == 1u32 << shift_of(flag),
{
    assert(1u32 << 3u32 == 0x8u32 && 1u32 << 4u32 == 0x10u32 && 1u32 << 6u32 == 0x40u32)
        by (bit_vector);
}

} // verus!
