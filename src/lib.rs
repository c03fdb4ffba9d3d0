//! Decoder and resolver for delta-encoded address tables: files that map stable
//! numeric identifiers to build-specific offsets of one release of a binary.
use vstd::prelude::*;

pub mod bytes;
pub mod error;
pub mod format;
pub mod offset_map;
pub mod plugin;
pub mod proofs;
pub mod resolver;
pub mod table;
pub mod version;

pub use error::{Field, VersionlibError};
pub use resolver::{FileRead, Resolver};
pub use table::{load, VersionlibData};
pub use version::pack_version;

verus! {

} // verus!
