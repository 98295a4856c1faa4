//! Laws of the archive reader, proved once and for all inputs: what holds of
//! every valid archive, every record read, and every parse.
use crate::archive::{
    spec_find_record, spec_parse_archive, spec_read_record, spec_slice_payload, Archive,
    ArchiveModel,
};
use crate::codec::spec_decode_payload;
use crate::cursor::u32_at;
use crate::errors::{OpenError, ReadError};
use crate::record::{names_of, EncodingKind};
use crate::MAGIC;
use vstd::prelude::*;
use vstd::utf8::{decode_utf8, valid_utf8};

verus! {

/// For every well-formed archive the declared record count equals the number
/// of records the table of contents holds.
pub proof fn lemma_record_count_matches_records(a: Archive)
    requires
        a.wf(),
    ensures
        a.header.record_count == a@.records.len(),
        a.header.record_count == a.records@.len(),
{
}

/// Reading a record is referentially transparent: any two results that meet
/// `read_record`'s contract for the same archive and the same name are
/// identical, byte for byte — so calling it twice yields the same output.
pub proof fn lemma_read_record_idempotent(
    a: ArchiveModel,
    name: Seq<char>,
    r1: Result<Seq<u8>, ReadError>,
    r2: Result<Seq<u8>, ReadError>,
)
    requires
        match r1 {
            Ok(v) => spec_read_record(a, name) == Ok::<Seq<u8>, ReadError>(v),
            Err(e) => spec_read_record(a, name) == Err::<Seq<u8>, ReadError>(e),
        },
        match r2 {
            Ok(v) => spec_read_record(a, name) == Ok::<Seq<u8>, ReadError>(v),
            Err(e) => spec_read_record(a, name) == Err::<Seq<u8>, ReadError>(e),
        },
    ensures
        r1 == r2,
{
}

/// Round trip for uncompressed records: a successful read of a record whose
/// encoding is `Stored` yields exactly `decoded_length` bytes (the stored
/// bytes themselves).
pub proof fn lemma_stored_read_length(a: ArchiveModel, name: Seq<char>, v: Seq<u8>)
    requires
        spec_find_record(a.records, name) is Some,
        spec_find_record(a.records, name)->0.encoding == EncodingKind::Stored,
        spec_read_record(a, name) == Ok::<Seq<u8>, ReadError>(v),
    ensures
        v.len() == spec_find_record(a.records, name)->0.decoded_length,
        v == spec_slice_payload(a.data, spec_find_record(a.records, name)->0)->Ok_0,
{
}

/// No decode path returns truncated or padded output silently: whatever the
/// encoding, a successful decode yields exactly the declared decoded length.
pub proof fn lemma_decode_length_exact(
    encoding: EncodingKind,
    raw: Seq<u8>,
    decoded_length: u32,
    out: Seq<u8>,
)
    requires
        spec_decode_payload(encoding, raw, decoded_length) == Ok::<Seq<u8>, ReadError>(out),
    ensures
        out.len() == decoded_length,
{
}

/// A redirect whose target is itself another redirect fails with
/// `RedirectChainTooLong` instead of chaining further.
pub proof fn lemma_redirect_to_redirect_fails(a: ArchiveModel, name: Seq<char>, raw: Seq<u8>)
    requires
        spec_find_record(a.records, name) is Some,
        spec_find_record(a.records, name)->0.encoding == EncodingKind::Redirect,
        spec_slice_payload(a.data, spec_find_record(a.records, name)->0) == Ok::<
            Seq<u8>,
            ReadError,
        >(raw),
        valid_utf8(raw),
        spec_find_record(a.records, decode_utf8(raw)) is Some,
        spec_find_record(a.records, decode_utf8(raw))->0.encoding == EncodingKind::Redirect,
    ensures
        spec_read_record(a, name) == Err::<Seq<u8>, ReadError>(ReadError::RedirectChainTooLong),
{
}

/// Bytes whose first four bytes do not hold the magic signature are rejected
/// with `BadMagic`: by definition of the parse, no record table is ever read.
pub proof fn lemma_bad_magic_rejected(d: Seq<u8>)
    requires
        d.len() >= 4,
        u32_at(d, 0) != MAGIC,
    ensures
        spec_parse_archive(d) == Err::<ArchiveModel, OpenError>(OpenError::BadMagic),
{
}

/// A name absent from the table fails with `RecordNotFound`. The failure is
/// local: `read_record` takes the archive immutably, so every other record
/// reads afterwards exactly as before.
pub proof fn lemma_record_not_found(a: ArchiveModel, name: Seq<char>)
    requires
        !names_of(a.records).contains(name),
    ensures
        spec_read_record(a, name) == Err::<Seq<u8>, ReadError>(ReadError::RecordNotFound),
{
    names_of(a.records).index_of_first_ensures(name);
}

} // verus!
