//! Bad blocks tracking for block devices.

use crate::error::{to_result, Errno, Result, EINVAL, ENOMEM};
use vstd::prelude::*;

verus! {

/// Status of a sector range after checking for bad blocks.
#[derive(Debug, Clone, Copy, PartialEq, Eq, Structural)]
pub enum BlockStatus {
    /// No bad blocks found in the checked range.
    NoBadBlocks,
    /// The range contains acknowledged bad blocks.
    ///
    /// The contained range represents the first bad block range encountered.
    Acknowledged(SectorRange),
    /// The range contains unacknowledged bad blocks that need attention.
    ///
    /// The contained range represents the boundaries of the first bad block range encountered.
    Unacknowledged(SectorRange),
}

/// Sectors from `start` on and below `end`.
#[derive(Debug, Clone, Copy, PartialEq, Eq, Structural)]
pub struct SectorRange {
    /// First sector.
    pub start: u64,
    /// First sector that is not in the range.
    pub end: u64,
}

/// One end of a range of sectors.
#[derive(Debug, Clone, Copy, PartialEq, Eq, Structural)]
pub enum SectorBound {
    /// The sector is in the range.
    Included(u64),
    /// The sector is not in the range.
    Excluded(u64),
    /// The range does not end.
    Unbounded,
}

impl SectorBound {
    /// The first sector of a range that starts at the bound.
    pub open spec fn first(self) -> int {
        match self {
            SectorBound::Included(start) => start as int,
            SectorBound::Excluded(start) => start + 1,
            SectorBound::Unbounded => 0,
        }
    }

    /// The first sector after a range that ends at the bound.
    pub open spec fn after(self) -> int {
        match self {
            SectorBound::Included(end) => end + 1,
            SectorBound::Excluded(end) => end as int,
            SectorBound::Unbounded => u64::MAX as int,
        }
    }
}

/// A condition as the host takes it.
pub open spec fn flag(condition: bool) -> i32 {
    if condition {
        1
    } else {
        0
    }
}

/// A bad blocks tracker for managing defective sectors on a block device.
///
/// The tracker keeps the switch; the table of bad sectors belongs to the host, which is reached
/// through the functions handed to the operations.
#[derive(Debug)]
pub struct BadBlocks {
    shift: i32,
}

impl BadBlocks {
    #[verifier::type_invariant]
    spec fn has_one_disabled_state(self) -> bool {
        self.shift >= -1
    }

    /// The tracker is enabled.
    pub closed spec fn is_enabled(&self) -> bool {
        self.shift >= 0
    }

    /// The tracker after it was enabled.
    pub closed spec fn with_switch_on(self) -> BadBlocks {
        BadBlocks {
            shift: if self.shift == -1 {
                0
            } else {
                self.shift
            },
        }
    }

    /// Another tracker with the same switch, for the same table of the host.
    pub fn share(&self) -> (r: Self)
        ensures
            r == *self,
    {
        proof {
            use_type_invariant(self);
        }
        BadBlocks { shift: self.shift }
    }

    /// Creates a new bad blocks tracker. `status` is the answer of the host, which allocates the
    /// table: zero, or a negative error number.
    pub fn new(enable: bool, status: i32) -> (r: Result<Self>)
        ensures
            match r {
                Ok(blocks) => status >= 0 && blocks.is_enabled() == enable,
                Err(e) => status < 0 && e.0 == (if -4095 <= status {
                    status
                } else {
                    EINVAL
                }),
            },
    {
        match to_result(status) {
            Ok(()) => Ok(
                BadBlocks {
                    shift: if enable {
                        0
                    } else {
                        -1
                    },
                },
            ),
            Err(e) => Err(e),
        }
    }

    /// Enables the bad blocks tracker if it was previously disabled.
    pub fn enable(&mut self)
        ensures
            *final(self) == old(self).with_switch_on(),
            final(self).is_enabled(),
            old(self).is_enabled() ==> *final(self) == *old(self),
    {
        proof {
            use_type_invariant(&*self);
        }
        if self.shift == -1 {
            self.shift = 0;
        }
    }

    /// Checks whether the bad blocks tracker is currently enabled.
    pub fn enabled(&self) -> (r: bool)
        ensures
            r == self.is_enabled(),
    {
        self.shift >= 0
    }

    /// Transforms bounds to a start included end excluded range.
    pub fn range(start: SectorBound, end: SectorBound) -> (r: SectorRange)
        requires
            start.first() <= u64::MAX,
            end.after() <= u64::MAX,
        ensures
            r.start == start.first(),
            r.end == end.after(),
    {
        SectorRange {
            start: match start {
                SectorBound::Included(start) => start,
                SectorBound::Excluded(start) => start + 1,
                SectorBound::Unbounded => 0,
            },
            end: match end {
                SectorBound::Included(end) => end + 1,
                SectorBound::Excluded(end) => end,
                SectorBound::Unbounded => u64::MAX,
            },
        }
    }

    /// Marks a range of sectors as bad. `set` records `(first sector, number of sectors,
    /// acknowledged)` in the table of the host and tells whether there was space.
    pub fn set_bad<F: FnOnce(u64, u64, i32) -> bool>(
        &self,
        start: SectorBound,
        end: SectorBound,
        acknowledged: bool,
        set: F,
    ) -> (r: Result<()>)
        requires
            start.first() <= end.after() <= u64::MAX,
            call_requires(
                set,
                (
                    start.first() as u64,
                    (end.after() - start.first()) as u64,
                    flag(acknowledged),
                ),
            ),
        ensures
            ({
                let first = start.first() as u64;
                let count = (end.after() - start.first()) as u64;
                match r {
                    Ok(_) => call_ensures(set, (first, count, flag(acknowledged)), true),
                    Err(e) => {
                        &&& e == Errno(ENOMEM)
                        &&& call_ensures(set, (first, count, flag(acknowledged)), false)
                    },
                }
            }),
    {
        let range = Self::range(start, end);
        let acknowledged: i32 = if acknowledged {
            1
        } else {
            0
        };
        let recorded: bool = set(range.start, range.end - range.start, acknowledged);
        if recorded {
            Ok(())
        } else {
            Err(Errno(ENOMEM))
        }
    }

    /// Marks a range of sectors as good. `clear` removes `(first sector, number of sectors)` from
    /// the table of the host and tells whether that was possible.
    pub fn set_good<F: FnOnce(u64, u64) -> bool>(
        &self,
        start: SectorBound,
        end: SectorBound,
        clear: F,
    ) -> (r: Result<()>)
        requires
            start.first() <= end.after() <= u64::MAX,
            call_requires(
                clear,
                (start.first() as u64, (end.after() - start.first()) as u64),
            ),
        ensures
            ({
                let first = start.first() as u64;
                let count = (end.after() - start.first()) as u64;
                match r {
                    Ok(_) => call_ensures(clear, (first, count), true),
                    Err(e) => e == Errno(EINVAL) && call_ensures(clear, (first, count), false),
                }
            }),
    {
        let range = Self::range(start, end);
        let cleared: bool = clear(range.start, range.end - range.start);
        if cleared {
            Ok(())
        } else {
            Err(Errno(EINVAL))
        }
    }

    /// Checks if a range of sectors contains any bad blocks. `lookup` examines `(first sector,
    /// number of sectors)` in the table of the host; its answer is read by
    /// [`BadBlocks::status_of`].
    pub fn check<F: FnOnce(u64, u64) -> (i32, u64, u64)>(
        &self,
        start: SectorBound,
        end: SectorBound,
        lookup: F,
    ) -> (r: BlockStatus)
        requires
            start.first() <= end.after() <= u64::MAX,
            call_requires(
                lookup,
                (start.first() as u64, (end.after() - start.first()) as u64),
            ),
            forall|answer: (i32, u64, u64)|
                call_ensures(
                    lookup,
                    (start.first() as u64, (end.after() - start.first()) as u64),
                    answer,
                ) && (answer.0 == 1 || answer.0 == -1) ==> answer.1 + answer.2 <= u64::MAX,
        ensures
            exists|answer: (i32, u64, u64)|
                call_ensures(
                    lookup,
                    (start.first() as u64, (end.after() - start.first()) as u64),
                    answer,
                ) && r == Self::read_status(answer.0, answer.1, answer.2),
    {
        let range = Self::range(start, end);
        let (ret, first_bad, bad_count): (i32, u64, u64) = lookup(
            range.start,
            range.end - range.start,
        );
        Self::status_of(ret, first_bad, bad_count)
    }

    /// The status that the answer of the host stands for.
    pub open spec fn read_status(ret: i32, first_bad: u64, bad_count: u64) -> BlockStatus {
        let range = SectorRange { start: first_bad, end: (first_bad + bad_count) as u64 };
        if ret == 1 {
            BlockStatus::Acknowledged(range)
        } else if ret == -1 {
            BlockStatus::Unacknowledged(range)
        } else {
            BlockStatus::NoBadBlocks
        }
    }

    /// Reads the answer of the host to a lookup: 0 for no bad blocks, 1 for acknowledged and -1
    /// for unacknowledged ones, with the first bad range.
    pub fn status_of(ret: i32, first_bad: u64, bad_count: u64) -> (r: BlockStatus)
        requires
            ret == 1 || ret == -1 ==> first_bad + bad_count <= u64::MAX,
        ensures
            r == Self::read_status(ret, first_bad, bad_count),
    {
        match ret {
            1 => BlockStatus::Acknowledged(
                SectorRange { start: first_bad, end: first_bad + bad_count },
            ),
            -1 => BlockStatus::Unacknowledged(
                SectorRange { start: first_bad, end: first_bad + bad_count },
            ),
            _ => BlockStatus::NoBadBlocks,
        }
    }

    /// Formats bad blocks information. `format` writes the table of the host, with
    /// unacknowledged blocks where its argument is one, and returns the number of bytes, or a
    /// negative error number.
    pub fn show<F: FnOnce(i32) -> isize>(&self, show_unacknowledged: bool, format: F) -> (r: isize)
        requires
            call_requires(format, (flag(show_unacknowledged),)),
        ensures
            call_ensures(format, (flag(show_unacknowledged),), r),
    {
        let unacknowledged: i32 = if show_unacknowledged {
            1
        } else {
            0
        };
        format(unacknowledged)
    }
}

/// Enabling a tracker again changes nothing.
pub proof fn lemma_enabled_once(blocks: BadBlocks)
    ensures
        blocks.with_switch_on().with_switch_on() == blocks.with_switch_on(),
{
}

} // verus!
