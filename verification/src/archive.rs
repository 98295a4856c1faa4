//! The archive itself: opening its bytes decodes the fixed header (magic,
//! format version, record count) and the table of contents into record
//! descriptors; afterwards any record's content can be produced on demand.
//!
//! Binary layout, little-endian: magic `u32`, version `u32`, record count
//! `u32`, then one table entry per record: name (`u16` byte count, UTF-8
//! bytes), offset `u32`, stored length `u32`, decoded length `u32`, encoding
//! tag `u8`. The data region lies wherever the table entries point; no
//! contiguity is assumed.
use crate::codec::{decode_payload, spec_decode_payload};
use crate::cursor::{spec_read_length_prefixed_string, u32_at, Cursor};
use crate::errors::{CursorError, OpenError, ReadError};
use crate::record::{
    kind_from_tag, names_of, record_models, spec_kind_from_tag, unique_names, EncodingKind,
    RecordDescriptor, RecordModel,
};
use crate::text::{bytes_to_string, str_eq};
use crate::{MAGIC, SUPPORTED_VERSION};
use vstd::prelude::*;
use vstd::slice::{slice_subrange, slice_to_vec};
use vstd::utf8::{decode_utf8, valid_utf8};

verus! {

/// Fixed header of an archive: the magic signature, the format version, and
/// the declared record count.
#[derive(Clone, Copy, Debug, PartialEq, Eq, Structural)]
pub struct ArchiveHeader {
    pub magic: u32,
    pub version: u32,
    pub record_count: u32,
}

/// Mathematical image of an open archive.
#[verifier::ext_equal]
pub ghost struct ArchiveModel {
    pub magic: u32,
    pub version: u32,
    pub record_count: u32,
    pub records: Seq<RecordModel>,
    pub data: Seq<u8>,
}

/// An open archive: the decoded header, the table of contents in table
/// order, and the archive's backing bytes.
pub struct Archive {
    pub header: ArchiveHeader,
    pub records: Vec<RecordDescriptor>,
    pub data: Vec<u8>,
}

/// The `OpenError` a failed cursor read surfaces as: running out of bytes is
/// a truncation, text that does not decode is a malformed name.
pub open spec fn cursor_error_to_open(e: CursorError) -> OpenError {
    match e {
        CursorError::UnexpectedEof => OpenError::UnexpectedEof,
        CursorError::OutOfBounds => OpenError::UnexpectedEof,
        CursorError::InvalidUtf8 => OpenError::MalformedName,
    }
}

/// What decoding one table entry at `pos` yields: the record model together
/// with the position after the entry.
pub open spec fn spec_parse_record(d: Seq<u8>, pos: int) -> Result<(RecordModel, int), OpenError> {
    match spec_read_length_prefixed_string(d, pos) {
        Err(e) => Err(cursor_error_to_open(e)),
        Ok((name, p)) => {
            if p + 13 > d.len() {
                Err(OpenError::UnexpectedEof)
            } else {
                match spec_kind_from_tag(d[p + 12]) {
                    None => Err(OpenError::UnknownEncoding),
                    Some(kind) => Ok(
                        (
                            RecordModel {
                                name,
                                offset: u32_at(d, p),
                                stored_length: u32_at(d, p + 4),
                                decoded_length: u32_at(d, p + 8),
                                encoding: kind,
                            },
                            p + 13,
                        ),
                    ),
                }
            }
        },
    }
}

/// What decoding `n` more table entries at `pos` yields, `acc` being the
/// entries already decoded: the full table and the position after it. A name
/// already present is a format violation (this reader rejects duplicates
/// rather than letting the last one win).
pub open spec fn spec_parse_table(d: Seq<u8>, pos: int, n: nat, acc: Seq<RecordModel>) -> Result<
    (Seq<RecordModel>, int),
    OpenError,
>
    decreases n,
{
    if n == 0 {
        Ok((acc, pos))
    } else {
        match spec_parse_record(d, pos) {
            Err(e) => Err(e),
            Ok((rec, p)) => {
                if names_of(acc).contains(rec.name) {
                    Err(OpenError::DuplicateRecord)
                } else {
                    spec_parse_table(d, p, (n - 1) as nat, acc.push(rec))
                }
            },
        }
    }
}

/// What opening the archive bytes `d` yields: the model of the archive, or
/// the first error the header and table-of-contents decoder hits. The magic
/// is checked before anything else is read.
pub open spec fn spec_parse_archive(d: Seq<u8>) -> Result<ArchiveModel, OpenError> {
    if d.len() < 4 {
        Err(OpenError::UnexpectedEof)
    } else if u32_at(d, 0) != MAGIC {
        Err(OpenError::BadMagic)
    } else if d.len() < 8 {
        Err(OpenError::UnexpectedEof)
    } else if u32_at(d, 4) != SUPPORTED_VERSION {
        Err(OpenError::UnsupportedVersion)
    } else if d.len() < 12 {
        Err(OpenError::UnexpectedEof)
    } else {
        match spec_parse_table(d, 12, u32_at(d, 8) as nat, Seq::<RecordModel>::empty()) {
            Err(e) => Err(e),
            Ok((records, _)) => Ok(
                ArchiveModel {
                    magic: u32_at(d, 0),
                    version: u32_at(d, 4),
                    record_count: u32_at(d, 8),
                    records,
                    data: d,
                },
            ),
        }
    }
}

/// The first record of the given name, in table order.
pub open spec fn spec_find_record(records: Seq<RecordModel>, name: Seq<char>) -> Option<
    RecordModel,
> {
    match names_of(records).index_of_first(name) {
        Some(i) => Some(records[i]),
        None => None,
    }
}

/// The record's raw stored bytes, sliced out of the archive bytes `d`; a
/// span that runs past the end of `d` is a format-integrity failure.
pub open spec fn spec_slice_payload(d: Seq<u8>, rec: RecordModel) -> Result<Seq<u8>, ReadError> {
    if rec.offset + rec.stored_length > d.len() {
        Err(ReadError::OutOfBounds)
    } else {
        Ok(d.subrange(rec.offset as int, rec.offset + rec.stored_length))
    }
}

/// What reading a non-redirect record yields: its raw bytes sliced out of
/// the archive and decoded under its declared encoding.
pub open spec fn spec_read_leaf(d: Seq<u8>, rec: RecordModel) -> Result<Seq<u8>, ReadError> {
    match spec_slice_payload(d, rec) {
        Err(e) => Err(e),
        Ok(raw) => spec_decode_payload(rec.encoding, raw, rec.decoded_length),
    }
}

/// What `read_record` yields on an archive model: the named record's decoded
/// content. A redirect's stored bytes name another record, which is decoded
/// in its place; the target must not itself be a redirect.
pub open spec fn spec_read_record(a: ArchiveModel, name: Seq<char>) -> Result<Seq<u8>, ReadError> {
    match spec_find_record(a.records, name) {
        None => Err(ReadError::RecordNotFound),
        Some(rec) => {
            if rec.encoding == EncodingKind::Redirect {
                match spec_slice_payload(a.data, rec) {
                    Err(e) => Err(e),
                    Ok(raw) => {
                        if !valid_utf8(raw) {
                            Err(ReadError::MalformedName)
                        } else {
                            match spec_find_record(a.records, decode_utf8(raw)) {
                                None => Err(ReadError::RecordNotFound),
                                Some(target) => {
                                    if target.encoding == EncodingKind::Redirect {
                                        Err(ReadError::RedirectChainTooLong)
                                    } else {
                                        spec_read_leaf(a.data, target)
                                    }
                                },
                            }
                        }
                    },
                }
            } else {
                spec_read_leaf(a.data, rec)
            }
        },
    }
}

/// Decodes one table entry at the cursor's position.
fn parse_record(cur: &mut Cursor<'_>) -> (r: Result<RecordDescriptor, OpenError>)
    requires
        old(cur).wf(),
    ensures
        final(cur).data == old(cur).data,
        final(cur).wf(),
        match r {
            Ok(rec) => spec_parse_record(old(cur).data@, old(cur).pos as int) == Ok::<
                (RecordModel, int),
                OpenError,
            >((rec@, final(cur).pos as int)),
            Err(e) => spec_parse_record(old(cur).data@, old(cur).pos as int) == Err::<
                (RecordModel, int),
                OpenError,
            >(e),
        },
{
    let name = match cur.read_length_prefixed_string() {
        Ok(s) => s,
        Err(CursorError::InvalidUtf8) => {
            return Err(OpenError::MalformedName);
        },
        Err(_) => {
            return Err(OpenError::UnexpectedEof);
        },
    };
    let offset = match cur.read_u32() {
        Ok(x) => x,
        Err(_) => {
            return Err(OpenError::UnexpectedEof);
        },
    };
    let stored_length = match cur.read_u32() {
        Ok(x) => x,
        Err(_) => {
            return Err(OpenError::UnexpectedEof);
        },
    };
    let decoded_length = match cur.read_u32() {
        Ok(x) => x,
        Err(_) => {
            return Err(OpenError::UnexpectedEof);
        },
    };
    let tag = match cur.read_u8() {
        Ok(x) => x,
        Err(_) => {
            return Err(OpenError::UnexpectedEof);
        },
    };
    let encoding = match kind_from_tag(tag) {
        Some(k) => k,
        None => {
            return Err(OpenError::UnknownEncoding);
        },
    };
    Ok(RecordDescriptor { name, offset, stored_length, decoded_length, encoding })
}

/// Whether some descriptor already carries `name`.
fn contains_name(records: &Vec<RecordDescriptor>, name: &str) -> (r: bool)
    ensures
        r == names_of(record_models(records@)).contains(name@),
{
    let ghost names = names_of(record_models(records@));
    let mut i: usize = 0;
    while i < records.len()
        invariant
            i <= records@.len(),
            names == names_of(record_models(records@)),
            names.len() == records@.len(),
            forall|j: int| 0 <= j < i ==> names[j] != name@,
        decreases records@.len() - i,
    {
        if str_eq(records[i].name.as_str(), name) {
            proof {
                assert(names[i as int] == name@);
            }
            return true;
        }
        i = i + 1;
    }
    proof {
        assert forall|j: int| 0 <= j < names.len() implies names[j] != name@ by {}
    }
    false
}

impl View for Archive {
    type V = ArchiveModel;

    open spec fn view(&self) -> ArchiveModel {
        ArchiveModel {
            magic: self.header.magic,
            version: self.header.version,
            record_count: self.header.record_count,
            records: record_models(self.records@),
            data: self.data@,
        }
    }
}

impl Archive {
    /// The construction-time invariant: the magic matched, the version is
    /// supported, the declared record count equals the number of records,
    /// and record names are unique.
    pub open spec fn wf(self) -> bool {
        &&& self.header.magic == MAGIC
        &&& self.header.version == SUPPORTED_VERSION
        &&& self.header.record_count == self.records@.len()
        &&& unique_names(self@.records)
    }

    /// Opens an archive from its fully-buffered bytes: decodes the header
    /// and the table of contents, rejecting a bad magic, an unsupported
    /// version, a truncated table, an unknown encoding tag, a malformed
    /// name, or a duplicate name.
    pub fn from_bytes(data: Vec<u8>) -> (r: Result<Archive, OpenError>)
        ensures
            match r {
                Ok(a) => {
                    &&& spec_parse_archive(data@) == Ok::<ArchiveModel, OpenError>(a@)
                    &&& a.wf()
                    &&& a@.data == data@
                },
                Err(e) => spec_parse_archive(data@) == Err::<ArchiveModel, OpenError>(e),
            },
    {
        let mut cur = Cursor::new(data.as_slice());
        let magic = match cur.read_u32() {
            Ok(x) => x,
            Err(_) => {
                return Err(OpenError::UnexpectedEof);
            },
        };
        if magic != MAGIC {
            return Err(OpenError::BadMagic);
        }
        let version = match cur.read_u32() {
            Ok(x) => x,
            Err(_) => {
                return Err(OpenError::UnexpectedEof);
            },
        };
        if version != SUPPORTED_VERSION {
            return Err(OpenError::UnsupportedVersion);
        }
        let count = match cur.read_u32() {
            Ok(x) => x,
            Err(_) => {
                return Err(OpenError::UnexpectedEof);
            },
        };
        let mut records: Vec<RecordDescriptor> = Vec::new();
        proof {
            assert(record_models(records@) =~= Seq::<RecordModel>::empty());
        }
        let mut i: u32 = 0;
        while i < count
            invariant
                cur.wf(),
                cur.data@ == data@,
                data@.len() >= 12,
                u32_at(data@, 0) == MAGIC,
                u32_at(data@, 4) == SUPPORTED_VERSION,
                count == u32_at(data@, 8),
                i <= count,
                records@.len() == i,
                unique_names(record_models(records@)),
                spec_parse_table(data@, 12, count as nat, Seq::<RecordModel>::empty())
                    == spec_parse_table(
                    data@,
                    cur.pos as int,
                    (count - i) as nat,
                    record_models(records@),
                ),
            decreases count - i,
        {
            let ghost acc = record_models(records@);
            let ghost pos0 = cur.pos as int;
            let ghost m = (count - i) as nat;
            let rec = match parse_record(&mut cur) {
                Ok(rec) => rec,
                Err(e) => {
                    proof {
                        assert(spec_parse_table(data@, pos0, m, acc) == Err::<
                            (Seq<RecordModel>, int),
                            OpenError,
                        >(e));
                        assert(data@.len() >= 12);
                        assert(spec_parse_archive(data@) == Err::<ArchiveModel, OpenError>(e));
                    }
                    return Err(e);
                },
            };
            if contains_name(&records, rec.name.as_str()) {
                proof {
                    assert(spec_parse_table(data@, pos0, m, acc) == Err::<
                        (Seq<RecordModel>, int),
                        OpenError,
                    >(OpenError::DuplicateRecord));
                    assert(spec_parse_archive(data@) == Err::<ArchiveModel, OpenError>(
                        OpenError::DuplicateRecord,
                    ));
                }
                return Err(OpenError::DuplicateRecord);
            }
            proof {
                assert forall|k: int| 0 <= k < acc.len() implies acc[k].name != rec@.name by {
                    assert(names_of(acc)[k] == acc[k].name);
                }
                assert(record_models(records@.push(rec)) =~= acc.push(rec@));
            }
            records.push(rec);
            i = i + 1;
        }
        let header = ArchiveHeader { magic, version, record_count: count };
        let ghost end_pos = cur.pos as int;
        let a = Archive { header, records, data };
        proof {
            assert(spec_parse_table(a@.data, 12, count as nat, Seq::<RecordModel>::empty()) == Ok::<
                (Seq<RecordModel>, int),
                OpenError,
            >((a@.records, end_pos)));
            let m = spec_parse_archive(a@.data)->Ok_0;
            assert(m =~= a@);
        }
        Ok(a)
    }

    /// The header's declared record count; under `wf` it equals the number
    /// of records in the table.
    pub fn record_count(&self) -> (n: u32)
        ensures
            n == self.header.record_count,
            self.wf() ==> n == self@.records.len(),
    {
        self.header.record_count
    }

    /// The record descriptors, in table order: a finite, restartable,
    /// read-only view of the table of contents.
    pub fn iter_records(&self) -> (r: &Vec<RecordDescriptor>)
        ensures
            r@ == self.records@,
            record_models(r@) == self@.records,
    {
        &self.records
    }

    /// The first descriptor of the given name, by exact, case-sensitive
    /// comparison.
    pub fn find_record(&self, name: &str) -> (r: Option<&RecordDescriptor>)
        ensures
            match r {
                Some(rec) => spec_find_record(self@.records, name@) == Some(rec@),
                None => spec_find_record(self@.records, name@) is None,
            },
    {
        let ghost names = names_of(self@.records);
        let mut i: usize = 0;
        while i < self.records.len()
            invariant
                i <= self.records@.len(),
                names == names_of(self@.records),
                names.len() == self.records@.len(),
                forall|j: int| 0 <= j < i ==> names[j] != name@,
            decreases self.records@.len() - i,
        {
            if str_eq(self.records[i].name.as_str(), name) {
                proof {
                    assert(names[i as int] == name@);
                    assert(names.contains(name@));
                    names.index_of_first_ensures(name@);
                    assert(names.index_of_first(name@) == Some(i as int));
                    assert(self@.records[i as int] == self.records@[i as int]@);
                }
                return Some(&self.records[i]);
            }
            i = i + 1;
        }
        proof {
            assert(!names.contains(name@));
            names.index_of_first_ensures(name@);
        }
        None
    }
}

impl Archive {
    /// Slices a record's raw stored bytes out of the archive bytes.
    fn slice_payload(&self, rec: &RecordDescriptor) -> (r: Result<Vec<u8>, ReadError>)
        ensures
            match r {
                Ok(v) => spec_slice_payload(self@.data, rec@) == Ok::<Seq<u8>, ReadError>(v@),
                Err(e) => spec_slice_payload(self@.data, rec@) == Err::<Seq<u8>, ReadError>(e),
            },
    {
        if (rec.offset as u64) + (rec.stored_length as u64) > (self.data.len() as u64) {
            Err(ReadError::OutOfBounds)
        } else {
            let off = rec.offset as usize;
            let end = off + rec.stored_length as usize;
            Ok(slice_to_vec(slice_subrange(self.data.as_slice(), off, end)))
        }
    }

    /// Reads a non-redirect record: slices its raw bytes and decodes them
    /// under the record's declared encoding.
    fn read_leaf(&self, rec: &RecordDescriptor) -> (r: Result<Vec<u8>, ReadError>)
        ensures
            match r {
                Ok(v) => spec_read_leaf(self@.data, rec@) == Ok::<Seq<u8>, ReadError>(v@),
                Err(e) => spec_read_leaf(self@.data, rec@) == Err::<Seq<u8>, ReadError>(e),
            },
    {
        let raw = match self.slice_payload(rec) {
            Ok(v) => v,
            Err(e) => {
                return Err(e);
            },
        };
        decode_payload(rec.encoding, raw, rec.decoded_length)
    }

    /// Produces the decoded content of the record of the given name, by
    /// exact-name lookup. Redirects are followed for one hop: a redirect
    /// whose target is itself a redirect fails rather than chaining further.
    /// The archive is not changed; repeated calls with the same name return
    /// byte-identical output.
    pub fn read_record(&self, name: &str) -> (r: Result<Vec<u8>, ReadError>)
        ensures
            match r {
                Ok(v) => spec_read_record(self@, name@) == Ok::<Seq<u8>, ReadError>(v@),
                Err(e) => spec_read_record(self@, name@) == Err::<Seq<u8>, ReadError>(e),
            },
    {
        let rec = match self.find_record(name) {
            Some(rec) => rec,
            None => {
                return Err(ReadError::RecordNotFound);
            },
        };
        if rec.encoding == EncodingKind::Redirect {
            let raw = match self.slice_payload(rec) {
                Ok(v) => v,
                Err(e) => {
                    return Err(e);
                },
            };
            let target_name = match bytes_to_string(raw) {
                Some(s) => s,
                None => {
                    return Err(ReadError::MalformedName);
                },
            };
            let target = match self.find_record(target_name.as_str()) {
                Some(t) => t,
                None => {
                    return Err(ReadError::RecordNotFound);
                },
            };
            if target.encoding == EncodingKind::Redirect {
                return Err(ReadError::RedirectChainTooLong);
            }
            self.read_leaf(target)
        } else {
            self.read_leaf(rec)
        }
    }
}

impl Default for Archive {
    /// An archive with no records and no bytes, as a freshly started
    /// presentation layer holds before any file is opened.
    fn default() -> (a: Archive)
        ensures
            a.wf(),
            a@.records.len() == 0,
            a@.data.len() == 0,
    {
        Archive {
            header: ArchiveHeader { magic: MAGIC, version: SUPPORTED_VERSION, record_count: 0 },
            records: Vec::new(),
            data: Vec::new(),
        }
    }
}

} // verus!
