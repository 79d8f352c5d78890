//! Block layer errors.

use crate::error::Errno;
use vstd::prelude::*;

verus! {

/// No error.
pub const BLK_STS_OK: u8 = 0;

/// Operation not supported.
pub const BLK_STS_NOTSUPP: u8 = 1;

/// Operation timed out.
pub const BLK_STS_TIMEOUT: u8 = 2;

/// No space left.
pub const BLK_STS_NOSPC: u8 = 3;

/// The link to the device failed, but may recover.
pub const BLK_STS_TRANSPORT: u8 = 4;

/// The device failed for good.
pub const BLK_STS_TARGET: u8 = 5;

/// A reservation is in the way.
pub const BLK_STS_RESV_CONFLICT: u8 = 6;

/// The medium failed.
pub const BLK_STS_MEDIUM: u8 = 7;

/// The protection information does not match.
pub const BLK_STS_PROTECTION: u8 = 8;

/// System resource busy. Retry later.
pub const BLK_STS_RESOURCE: u8 = 9;

/// Generic IO error.
pub const BLK_STS_IOERR: u8 = 10;

/// A device mapper has to queue the request again.
pub const BLK_STS_DM_REQUEUE: u8 = 11;

/// The request would have to wait.
pub const BLK_STS_AGAIN: u8 = 12;

/// Device resource busy. Retry later.
pub const BLK_STS_DEV_RESOURCE: u8 = 13;

/// Too many zones are open.
pub const BLK_STS_ZONE_OPEN_RESOURCE: u8 = 14;

/// Too many zones are active.
pub const BLK_STS_ZONE_ACTIVE_RESOURCE: u8 = 15;

/// The device is offline.
pub const BLK_STS_OFFLINE: u8 = 16;

/// The time limit of the request has passed.
pub const BLK_STS_DURATION_LIMIT: u8 = 17;

/// The request is invalid.
pub const BLK_STS_INVAL: u8 = 19;

/// The status is an error that the block layer knows.
pub open spec fn known(status: u8) -> bool {
    ||| status == BLK_STS_NOTSUPP
    ||| status == BLK_STS_TIMEOUT
    ||| status == BLK_STS_NOSPC
    ||| status == BLK_STS_TRANSPORT
    ||| status == BLK_STS_TARGET
    ||| status == BLK_STS_RESV_CONFLICT
    ||| status == BLK_STS_MEDIUM
    ||| status == BLK_STS_PROTECTION
    ||| status == BLK_STS_RESOURCE
    ||| status == BLK_STS_IOERR
    ||| status == BLK_STS_DM_REQUEUE
    ||| status == BLK_STS_AGAIN
    ||| status == BLK_STS_DEV_RESOURCE
    ||| status == BLK_STS_ZONE_OPEN_RESOURCE
    ||| status == BLK_STS_ZONE_ACTIVE_RESOURCE
    ||| status == BLK_STS_OFFLINE
    ||| status == BLK_STS_DURATION_LIMIT
    ||| status == BLK_STS_INVAL
}

/// A wrapper around a 1 byte block layer error code.
#[derive(Clone, Copy, Debug, PartialEq, Eq, Structural)]
pub struct BlkError(u8);

/// A result with a [`BlkError`] error type.
pub type BlkResult<T> = core::result::Result<T, BlkError>;

impl BlkError {
    #[verifier::type_invariant]
    spec fn is_error(self) -> bool {
        known(self.0)
    }

    /// The error code.
    pub closed spec fn status(self) -> u8 {
        self.0
    }

    /// Create a [`BlkError`] from a status.
    ///
    /// If the code is not known, this function returns [`BLK_STS_IOERR`].
    pub fn from_blk_status(status: u8) -> (r: Self)
        ensures
            r.status() == (if known(status) {
                status
            } else {
                BLK_STS_IOERR
            }),
    {
        if let Some(error) = Self::try_from_blk_status(status) {
            error
        } else {
            BlkError(BLK_STS_IOERR)
        }
    }

    /// Convert `Self` to the underlying type.
    pub fn to_blk_status(self) -> (r: u8)
        ensures
            r == self.status(),
            known(r),
    {
        proof {
            use_type_invariant(&self);
        }
        self.0
    }

    /// Try to create a `Self` from a status.
    ///
    /// Returns `None` if the code is not known.
    pub fn try_from_blk_status(errno: u8) -> (r: Option<Self>)
        ensures
            match r {
                Some(error) => known(errno) && error.status() == errno,
                None => !known(errno),
            },
    {
        match errno {
            BLK_STS_NOTSUPP
            | BLK_STS_TIMEOUT
            | BLK_STS_NOSPC
            | BLK_STS_TRANSPORT
            | BLK_STS_TARGET
            | BLK_STS_RESV_CONFLICT
            | BLK_STS_MEDIUM
            | BLK_STS_PROTECTION
            | BLK_STS_RESOURCE
            | BLK_STS_IOERR
            | BLK_STS_DM_REQUEUE
            | BLK_STS_AGAIN
            | BLK_STS_DEV_RESOURCE
            | BLK_STS_ZONE_OPEN_RESOURCE
            | BLK_STS_ZONE_ACTIVE_RESOURCE
            | BLK_STS_OFFLINE
            | BLK_STS_DURATION_LIMIT
            | BLK_STS_INVAL => Some(BlkError(errno)),
            _ => None,
        }
    }

    /// The error of an operation that failed with some kernel error.
    pub closed spec fn io_error() -> BlkError {
        BlkError(BLK_STS_IOERR)
    }
}

/// Names the code of [`BlkError::io_error`].
pub proof fn lemma_io_error()
    ensures
        BlkError::io_error().status() == BLK_STS_IOERR,
{
}

/// Errors with the same code are equal.
pub proof fn lemma_status_unique(a: BlkError, b: BlkError)
    requires
        a.status() == b.status(),
    ensures
        a == b,
{
}

impl From<BlkError> for u8 {
    fn from(value: BlkError) -> (r: Self) {
        value.0
    }
}

impl vstd::std_specs::convert::FromSpecImpl<BlkError> for u8 {
    open spec fn obeys_from_spec() -> bool {
        true
    }

    open spec fn from_spec(v: BlkError) -> u8 {
        v.status()
    }
}

impl From<BlkError> for u32 {
    fn from(value: BlkError) -> (r: Self) {
        value.0 as u32
    }
}

impl vstd::std_specs::convert::FromSpecImpl<BlkError> for u32 {
    open spec fn obeys_from_spec() -> bool {
        true
    }

    open spec fn from_spec(v: BlkError) -> u32 {
        v.status() as u32
    }
}

impl From<Errno> for BlkError {
    fn from(_value: Errno) -> (r: Self) {
        BlkError(BLK_STS_IOERR)
    }
}

impl vstd::std_specs::convert::FromSpecImpl<Errno> for BlkError {
    open spec fn obeys_from_spec() -> bool {
        true
    }

    open spec fn from_spec(v: Errno) -> BlkError {
        BlkError::io_error()
    }
}

/// Convert a status to a `BlkResult`. A code that is not known becomes [`BLK_STS_IOERR`].
pub fn to_result(status: u8) -> (r: BlkResult<()>)
    ensures
        match r {
            Ok(_) => status == BLK_STS_OK,
            Err(e) => status != BLK_STS_OK && e.status() == (if known(status) {
                status
            } else {
                BLK_STS_IOERR
            }),
        },
{
    if status == BLK_STS_OK {
        Ok(())
    } else {
        Err(BlkError::from_blk_status(status))
    }
}

} // verus!
