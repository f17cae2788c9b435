//! The elevation helper. Whether the current process is elevated is a pure
//! function of the effective user on Unix-like platforms; the caller reads
//! the effective UID and hands it in. Relaunching with elevated rights is a
//! Windows-only mechanism, so on this build requesting elevation always
//! fails with guidance to restart with superuser privileges.

use vstd::prelude::*;

use crate::models::PortError;

verus! {

/// Whether a process with this effective UID runs elevated: true exactly
/// for the superuser.
pub fn is_elevated(effective_uid: u32) -> (r: bool)
    ensures
        r == (effective_uid == 0),
{
    effective_uid == 0
}

/// Requesting elevation is unsupported on this platform: the caller is
/// told to restart with superuser privileges.
pub fn request_elevation() -> (r: Result<(), PortError>)
    ensures
        r == Err::<(), PortError>(PortError::ElevationUnsupported),
{
    Err(PortError::ElevationUnsupported)
}

} // verus!
