//! Record descriptors: one per entry of an archive's table of contents.
use vstd::prelude::*;

verus! {

/// How a record's stored bytes encode its content.
#[derive(Clone, Copy, Debug, PartialEq, Eq, Structural)]
pub enum EncodingKind {
    /// The stored bytes are the content.
    Stored,
    /// The stored bytes are a raw DEFLATE stream.
    Deflate,
    /// The stored bytes are a Zstandard frame.
    Zstd,
    /// The stored bytes name another record whose content is substituted.
    Redirect,
}

/// The encoding kind a table tag stands for; `None` for an unknown tag.
pub open spec fn spec_kind_from_tag(tag: u8) -> Option<EncodingKind> {
    if tag == 0 {
        Some(EncodingKind::Stored)
    } else if tag == 1 {
        Some(EncodingKind::Deflate)
    } else if tag == 2 {
        Some(EncodingKind::Zstd)
    } else if tag == 3 {
        Some(EncodingKind::Redirect)
    } else {
        None
    }
}

/// Maps a table tag to its encoding kind.
pub fn kind_from_tag(tag: u8) -> (r: Option<EncodingKind>)
    ensures
        r == spec_kind_from_tag(tag),
{
    if tag == 0 {
        Some(EncodingKind::Stored)
    } else if tag == 1 {
        Some(EncodingKind::Deflate)
    } else if tag == 2 {
        Some(EncodingKind::Zstd)
    } else if tag == 3 {
        Some(EncodingKind::Redirect)
    } else {
        None
    }
}

/// Mathematical image of a record descriptor: the name as its characters,
/// everything else as the plain values of the table entry.
#[verifier::ext_equal]
pub ghost struct RecordModel {
    pub name: Seq<char>,
    pub offset: u32,
    pub stored_length: u32,
    pub decoded_length: u32,
    pub encoding: EncodingKind,
}

/// One entry of the table of contents: a record's '/'-delimited logical name,
/// the span of its stored bytes in the archive, its decoded length, and its
/// encoding kind.
///
/// For a `Redirect` record the decoded length is meaningless: the content is
/// that of the record the stored bytes name.
#[derive(Clone, Debug)]
pub struct RecordDescriptor {
    pub name: String,
    pub offset: u32,
    pub stored_length: u32,
    pub decoded_length: u32,
    pub encoding: EncodingKind,
}

impl View for RecordDescriptor {
    type V = RecordModel;

    open spec fn view(&self) -> RecordModel {
        RecordModel {
            name: self.name@,
            offset: self.offset,
            stored_length: self.stored_length,
            decoded_length: self.decoded_length,
            encoding: self.encoding,
        }
    }
}

/// The models of a sequence of descriptors, in table order.
pub open spec fn record_models(s: Seq<RecordDescriptor>) -> Seq<RecordModel> {
    s.map_values(|r: RecordDescriptor| r@)
}

/// The names of a sequence of record models, in table order.
pub open spec fn names_of(s: Seq<RecordModel>) -> Seq<Seq<char>> {
    s.map_values(|r: RecordModel| r.name)
}

/// No two records carry the same name.
pub open spec fn unique_names(s: Seq<RecordModel>) -> bool {
    forall|i: int, j: int| 0 <= i < j < s.len() ==> s[i].name != s[j].name
}

} // verus!
