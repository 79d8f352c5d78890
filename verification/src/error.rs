//! Kernel error codes.

use vstd::prelude::*;

verus! {

/// Invalid argument.
pub const EINVAL: i32 = -22;

/// I/O error.
pub const EIO: i32 = -5;

/// Out of memory.
pub const ENOMEM: i32 = -12;

/// Bad address.
pub const EFAULT: i32 = -14;

/// Device or resource busy.
pub const EBUSY: i32 = -16;

/// No space left.
pub const ENOSPC: i32 = -28;

/// Operation is not supported.
pub const ENOTSUPP: i32 = -524;

/// An error, carried as a negative error number.
#[derive(Clone, Copy, Debug, PartialEq, Eq, Structural)]
pub struct Errno(pub i32);

/// The result of an operation that can fail with an [`Errno`].
pub type Result<T> = core::result::Result<T, Errno>;

impl Errno {
    /// Wraps an error number; numbers that do not denote an error (zero, positive numbers and
    /// numbers below -4095) become [`EINVAL`].
    pub fn from_errno(errno: i32) -> (r: Self)
        ensures
            r.0 == (if -4095 <= errno < 0 { errno } else { EINVAL }),
    {
        if errno < -4095 || errno >= 0 {
            Errno(EINVAL)
        } else {
            Errno(errno)
        }
    }

    /// The error number.
    pub fn to_errno(self) -> (r: i32)
        ensures
            r == self.0,
    {
        self.0
    }
}

/// Reads a C style return value: a negative value is an error, anything else is success.
pub fn to_result(err: i32) -> (r: Result<()>)
    ensures
        r is Ok <==> err >= 0,
        err < 0 ==> r == Err::<(), Errno>(Errno(if -4095 <= err { err } else { EINVAL })),
{
    if err < 0 {
        Err(Errno::from_errno(err))
    } else {
        Ok(())
    }
}

} // verus!
