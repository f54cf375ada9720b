//! The payload of the shared mapping, and how its creation went.

use vstd::prelude::*;

verus! {

/// Payload of the shared mapping.
///
/// `delta_ticks` is added to the real FILETIME (100-ns since 1601-01-01 UTC)
/// by every hooked time call. It may be negative to mock past times.
#[derive(Clone, Copy, Debug, PartialEq, Eq, Structural)]
pub struct MockTimeInfo {
    pub delta_ticks: i64,
}

impl MockTimeInfo {
    /// Size of the payload in bytes: one `i64`.
    pub const SIZE: usize = 8usize;

    /// The payload that leaves time unchanged.
    pub fn zero() -> (info: Self)
        ensures
            info.delta_ticks == 0,
    {
        MockTimeInfo { delta_ticks: 0 }
    }
}

impl Default for MockTimeInfo {
    fn default() -> (info: Self)
        ensures
            info.delta_ticks == 0,
    {
        MockTimeInfo::zero()
    }
}

/// Whether creating the named mapping made a fresh kernel object or attached
/// to one that already existed (typically left by a crashed earlier
/// controller session).
#[derive(Clone, Copy, Debug, PartialEq, Eq, Structural)]
pub enum CreateOutcome {
    Fresh,
    Existed,
}

/// Win32 error code reported when a named object already existed.
pub const ERROR_ALREADY_EXISTS: u32 = 183u32;

/// The outcome of a successful `CreateFileMappingW`, from the last error code
/// read right after it.
pub fn create_outcome(last_error: u32) -> (o: CreateOutcome)
    ensures
        o == (if last_error == ERROR_ALREADY_EXISTS { CreateOutcome::Existed } else { CreateOutcome::Fresh }),
{
    if last_error == ERROR_ALREADY_EXISTS {
        CreateOutcome::Existed
    } else {
        CreateOutcome::Fresh
    }
}

} // verus!
