//! The error numbers the library's functions report.

use vstd::prelude::*;

verus! {

/// Error numbers, as in POSIX.
#[derive(Clone, Copy, Debug, PartialEq, Eq)]
pub enum Errno {
    /// Input/output error.
    Io,
    /// Invalid argument.
    Inval,
    /// Function not implemented.
    Nosys,
    /// Read-only file system.
    Rofs,
}

} // verus!
