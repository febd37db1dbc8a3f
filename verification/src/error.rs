//! Error taxonomy: every failure of the library is a typed, recoverable
//! value returned to the caller; nothing terminates the process.

use vstd::prelude::*;

verus! {

/// Why an operation on a mapped file could not be carried out.
///
/// The variants group into four families: I/O failures reported by the
/// host (`AlreadyExists`, `NotFound`, `Io`), format failures of the stored
/// header (`BadMagic`, `TruncatedHeader`), a type-identity failure on
/// reopen (`TypeMismatch`), and capacity failures (`FileTooSmall`,
/// `FileTooLarge`, `SizeOverflow`, `RegionSizeMismatch`).
#[derive(Clone, Copy, Debug, PartialEq, Eq, Structural)]
pub enum MmapError {
    /// The file to create already exists.
    AlreadyExists,
    /// The file to open does not exist.
    NotFound,
    /// Some other I/O failure reported by the host.
    Io,
    /// The stored header does not begin with the magic tag.
    BadMagic,
    /// The stored header bytes end early or are malformed.
    TruncatedHeader,
    /// The stored type identity differs from the requested record type.
    TypeMismatch,
    /// The file is too small for the record count its header declares.
    FileTooSmall,
    /// The data region does not fit in the addressable size of the host.
    FileTooLarge,
    /// A size computation would exceed the representable range.
    SizeOverflow,
    /// A mapped region's length does not match the declared record count.
    RegionSizeMismatch,
}

} // verus!
