//! Error handling.

use vstd::prelude::*;

verus! {

/// Rough classification of an operating-system I/O failure, carried
/// over from the underlying filesystem layer.
#[derive(Clone, Copy, Debug, PartialEq, Eq, Structural)]
pub enum IoKind {
    /// The named entry does not exist.
    NotFound,
    /// The caller lacks the permission for the operation.
    PermissionDenied,
    /// An argument was malformed (for instance a path the OS refuses).
    InvalidInput,
    /// The file ended before the expected number of bytes was read.
    UnexpectedEof,
    /// Any other I/O failure.
    Other,
}

/// An error raised by this library.
#[derive(Clone, Debug)]
pub enum Error {
    /// An I/O error of the underlying filesystem layer, propagated
    /// to the caller.
    Io(IoKind),
    /// A syscall failed; the numeric `errno` code is preserved for
    /// caller inspection.
    Sys(i32),
    /// A directory was required, but the handle or path does not
    /// refer to one.
    NotADirectory,
    /// A boolean control node held a byte other than ASCII `'0'` or
    /// `'1'`; the offending byte is preserved.
    BadFlagByte(u8),
    /// A boolean control node ended before its value byte could be
    /// read.
    TruncatedNode,
    /// The policy version node did not hold an unsigned decimal
    /// integer that fits the version type.
    BadVersionText,
    /// A caller-supplied node name holds an embedded NUL byte, which
    /// no path may carry.
    NulInName,
    /// A boolean that was just listed could not be read back; listing
    /// and per-item lookup are expected to be consistent.
    MissingBool(String),
    /// Neither detection mechanism could say whether the kernel
    /// supports the control filesystem.
    Undetectable,
}

} // verus!
