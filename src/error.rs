//! Errors of loading, resolving and looking up address tables.
use vstd::prelude::*;

verus! {

/// A field of the table file, named in truncation errors.
#[derive(Clone, Copy, Debug, PartialEq, Eq, Structural)]
pub enum Field {
    Format,
    Version,
    NameLength,
    Name,
    PointerSize,
    RecordCount,
    RecordKind,
    Identifier,
    Offset,
}

/// Why a table could not be loaded, resolved or queried.
#[derive(Debug, PartialEq, Eq)]
pub enum VersionlibError {
    /// The table file exists but could not be opened or read.
    Open { reason: String },
    /// The input ended inside `field`.
    Read { field: Field },
    /// The header's format tag is not the supported one.
    Format { format: u32 },
    /// The module name length is negative or too large.
    TnLenRange { tn_len: i32 },
    /// A record's low nibble names no identifier encoding.
    RecordKind { kind: u8 },
    /// A scaled record appears in a table whose pointer size is zero.
    ZeroPointerSize,
    /// No table file exists at the derived path.
    NotFound { path: String },
    /// The table has no entry for this identifier.
    UnknownIdentifier { id: u64 },
    /// The table has no entry for this offset.
    UnknownOffset { offset: u64 },
}

} // verus!
