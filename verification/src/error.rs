//! Error codes.

use vstd::prelude::*;

verus! {

/// The error codes that the driver reports.
#[derive(Clone, Copy, Debug, PartialEq, Eq, Structural)]
pub enum Error {
    /// Argument list too long.
    E2BIG,
    /// Try again.
    EAGAIN,
    /// Invalid argument.
    EINVAL,
    /// Input/output error.
    EIO,
    /// Out of memory.
    ENOMEM,
    /// No space left on device.
    ENOSPC,
    /// Result not representable.
    ERANGE,
    /// Connection timed out.
    ETIMEDOUT,
}

} // verus!
