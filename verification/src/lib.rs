//! Reader for WAD archive containers: packed binary asset files holding many
//! named, individually compressed records.
//!
//! The library decodes an archive's header and table of contents into record
//! descriptors, produces the decompressed content of any record on demand,
//! and derives a folder tree from the flat set of '/'-delimited record names.
use vstd::prelude::*;

pub mod archive;
pub mod codec;
pub mod cursor;
pub mod errors;
pub mod laws;
pub mod record;
pub mod text;
pub mod tree;
pub mod window;

verus! {

/// Little-endian value of the four magic bytes that open every archive.
pub const MAGIC: u32 = 0x4441_5752;

/// The one format version this reader supports.
pub const SUPPORTED_VERSION: u32 = 1;

} // verus!
