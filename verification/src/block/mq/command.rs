//! Block I/O operation codes.

use vstd::prelude::*;

verus! {

/// Block I/O operation codes.
///
/// The least significant bit of the operation number indicates the data transfer direction:
///
/// - If the least significant bit is set, transfers are TO the device.
/// - If the least significant bit is not set, transfers are FROM the device.
///
/// If an operation does not transfer data, the least significant bit has no meaning.
#[derive(Copy, Clone, Debug, PartialEq, Eq, Structural)]
pub enum Command {
    /// Read sectors from the device.
    Read,
    /// Write sectors to the device.
    Write,
    /// Flush the volatile write cache.
    Flush,
    /// Discard sectors.
    Discard,
    /// Securely erase sectors.
    SecureErase,
    /// Write data at the current zone write pointer.
    ZoneAppend,
    /// Write zeroes. This allows to implement zeroing for devices that don't use either discard
    /// with a predictable zero pattern or WRITE SAME of zeroes.
    WriteZeroes,
    /// Open a zone.
    ZoneOpen,
    /// Close a zone.
    ZoneClose,
    /// Transition a zone to full.
    ZoneFinish,
    /// Reset a zone write pointer.
    ZoneReset,
    /// Reset all the zones present on the device.
    ZoneResetAll,
    /// Driver private request for data transfer to the driver.
    DriverIn,
    /// Driver private request for data transfer from the driver.
    DriverOut,
}

impl Command {
    /// The operation code.
    pub open spec fn raw(self) -> u32 {
        match self {
            Command::Read => 0,
            Command::Write => 1,
            Command::Flush => 2,
            Command::Discard => 3,
            Command::SecureErase => 5,
            Command::ZoneAppend => 7,
            Command::WriteZeroes => 9,
            Command::ZoneOpen => 10,
            Command::ZoneClose => 11,
            Command::ZoneFinish => 12,
            Command::ZoneReset => 13,
            Command::ZoneResetAll => 15,
            Command::DriverIn => 34,
            Command::DriverOut => 35,
        }
    }

    /// `value` is the operation code of some command.
    pub open spec fn is_code(value: u32) -> bool {
        exists|command: Command| #[trigger] command.raw() == value
    }

    /// The operation code.
    pub fn as_raw(self) -> (r: u32)
        ensures
            r == self.raw(),
    {
        match self {
            Command::Read => 0,
            Command::Write => 1,
            Command::Flush => 2,
            Command::Discard => 3,
            Command::SecureErase => 5,
            Command::ZoneAppend => 7,
            Command::WriteZeroes => 9,
            Command::ZoneOpen => 10,
            Command::ZoneClose => 11,
            Command::ZoneFinish => 12,
            Command::ZoneReset => 13,
            Command::ZoneResetAll => 15,
            Command::DriverIn => 34,
            Command::DriverOut => 35,
        }
    }

    /// Creates a [`Command`] from an operation code.
    pub fn from_raw(value: u32) -> (r: Self)
        requires
            Self::is_code(value),
        ensures
            r.raw() == value,
    {
        match value {
            0 => Command::Read,
            1 => Command::Write,
            2 => Command::Flush,
            3 => Command::Discard,
            5 => Command::SecureErase,
            7 => Command::ZoneAppend,
            9 => Command::WriteZeroes,
            10 => Command::ZoneOpen,
            11 => Command::ZoneClose,
            12 => Command::ZoneFinish,
            13 => Command::ZoneReset,
            15 => Command::ZoneResetAll,
            34 => Command::DriverIn,
            _ => Command::DriverOut,
        }
    }
}

/// Operation codes tell commands apart, so that a command is the only one with its code.
pub proof fn lemma_codes_distinct(a: Command, b: Command)
    requires
        a.raw() == b.raw(),
    ensures
        a == b,
{
}

/// Commands that carry data to the device have an odd code, commands that carry data from it an
/// even one.
pub proof fn lemma_direction(command: Command)
    ensures
        command == Command::Write || command == Command::ZoneAppend || command
            == Command::WriteZeroes || command == Command::DriverOut ==> command.raw() % 2 == 1,
        command == Command::Read || command == Command::DriverIn ==> command.raw() % 2 == 0,
{
}

} // verus!
