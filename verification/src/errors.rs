//! Error taxonomy exposed to callers of the decoder.

use vstd::prelude::*;

verus! {

/// The enumerator fields whose on-disk codes are drawn from a declared set.
/// An `InvalidEnum` error names the field whose code was outside that set.
#[derive(Clone, Copy, Debug, PartialEq, Eq, Structural)]
pub enum EnumField {
    LicenseType,
    FileSystemType,
    InstallerType,
    ResumeState,
    SkeletonVersion,
}

/// Every way a decode can fail.  A single error at any depth aborts the whole
/// decode; there is no partial-success model.
#[derive(Clone, Copy, Debug, PartialEq, Eq, Structural)]
pub enum StfsError {
    /// Structural corruption of the header: unknown magic, an allocated block
    /// count beyond the deepest hash-table level, a string without its
    /// terminator, a declared size beyond its region, or a block chain that
    /// ends before the file does.
    InvalidHeader,
    /// The package's filesystem is not one the decoder handles.
    InvalidPackageType,
    /// An enumerator field held a code outside its declared set.
    InvalidEnum(EnumField, u32),
    /// A block number at or beyond the allocated block count.
    BlockOutOfRange,
    /// The buffer ended before a field could be read in full.
    Truncated,
    /// A directory entry whose parent is missing, not a directory, or part of
    /// a cycle.
    CorruptDirectory,
}

} // verus!
