//! The error numbers that operations answer with.
use vstd::prelude::*;

verus! {

/// Why an operation was refused or failed, as the kernel is told.
#[derive(Debug, Clone, Copy, PartialEq, Eq, Structural)]
pub enum Errno {
    /// No such file or directory.
    ENOENT,
    /// Is a directory.
    EISDIR,
    /// Is not a directory.
    ENOTDIR,
    /// Read-only filesystem.
    EROFS,
    /// Invalid argument.
    EINVAL,
    /// Input/output error.
    EIO,
    /// File too large.
    EFBIG,
}

} // verus!
