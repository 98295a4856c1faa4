//! Error taxonomy of the archive reader.
//!
//! Format errors are fatal to the operation that hit them; I/O errors are
//! surfaced distinctly so a caller can tell "invalid file" from "could not
//! open file"; `RecordNotFound` is an expected, recoverable lookup failure.
use vstd::prelude::*;

verus! {

/// Failure of a single bounds-checked read on a `Cursor`.
#[derive(Clone, Copy, Debug, PartialEq, Eq, Structural)]
pub enum CursorError {
    /// The requested span runs past the end of the buffer.
    UnexpectedEof,
    /// A seek target lies beyond the buffer length.
    OutOfBounds,
    /// Text bytes were read but are not valid UTF-8.
    InvalidUtf8,
}

/// Failure while opening an archive: reading its bytes, or decoding the
/// header and table of contents.
#[derive(Clone, Copy, Debug, PartialEq, Eq, Structural)]
pub enum OpenError {
    /// The backing file could not be read at all (missing, unreadable).
    IoError,
    /// The first bytes do not match the magic signature.
    BadMagic,
    /// The format version is outside the supported set.
    UnsupportedVersion,
    /// The table of contents ends before the declared record count is met.
    UnexpectedEof,
    /// A record's encoding tag maps to no known encoding kind.
    UnknownEncoding,
    /// A record name is not valid UTF-8.
    MalformedName,
    /// Two records in the table carry the same name (this reader rejects
    /// duplicates at parse time rather than letting the last one win).
    DuplicateRecord,
}

/// Failure while reading one record's content out of an open archive.
#[derive(Clone, Copy, Debug, PartialEq, Eq, Structural)]
pub enum ReadError {
    /// No record of the requested name exists in the table.
    RecordNotFound,
    /// The record's declared span `[offset, offset + stored_length)` runs
    /// past the end of the archive bytes: a format-integrity failure.
    OutOfBounds,
    /// Decoded output does not have the declared decoded length.
    LengthMismatch,
    /// A compressed payload could not be decoded.
    CorruptStream,
    /// A redirect record names a target that is itself a redirect.
    RedirectChainTooLong,
    /// A redirect payload is not a valid UTF-8 record name.
    MalformedName,
}

} // verus!
