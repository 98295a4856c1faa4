//! The compression codec dispatcher: turns a record's raw stored bytes into
//! its content, by its declared encoding kind. Every decode path validates
//! the output length against the declared decoded length, so truncation or
//! corruption is caught rather than surfaced as garbled content.
use crate::errors::ReadError;
use crate::record::EncodingKind;
use vstd::prelude::*;

verus! {

/// What inflating a raw DEFLATE stream yields, `None` when the stream is
/// malformed. The outcome depends on the input bytes alone.
pub uninterp spec fn spec_inflate(s: Seq<u8>) -> Option<Seq<u8>>;

/// What decompressing a Zstandard frame at the start of the bytes yields,
/// `None` when the frame is malformed. The outcome depends on the input
/// bytes alone.
pub uninterp spec fn spec_zstd_decompress(s: Seq<u8>) -> Option<Seq<u8>>;

/// Relies on `miniz_oxide::inflate::decompress_to_vec`: it inflates a raw
/// DEFLATE stream and fails on a malformed one, computing from the input
/// bytes alone.
#[verifier::external_body]
fn inflate(raw: &[u8]) -> (r: Option<Vec<u8>>)
    ensures
        r is Some <==> spec_inflate(raw@) is Some,
        r is Some ==> r->0@ == spec_inflate(raw@)->0,
{
    miniz_oxide::inflate::decompress_to_vec(raw).ok()
}

/// Relies on `ruzstd::decoding::StreamingDecoder` driven by
/// `std::io::Read::read_to_end`: it decodes the Zstandard frame at the start
/// of the bytes and fails on a malformed one, computing from the input bytes
/// alone.
#[verifier::external_body]
fn zstd_decompress(raw: &[u8]) -> (r: Option<Vec<u8>>)
    ensures
        r is Some <==> spec_zstd_decompress(raw@) is Some,
        r is Some ==> r->0@ == spec_zstd_decompress(raw@)->0,
{
    let mut decoder = match ruzstd::decoding::StreamingDecoder::new(raw) {
        Ok(d) => d,
        Err(_) => {
            return None;
        },
    };
    let mut out = Vec::new();
    match std::io::Read::read_to_end(&mut decoder, &mut out) {
        Ok(_) => Some(out),
        Err(_) => None,
    }
}

/// What decoding raw stored bytes under `encoding` yields.
///
/// `Stored` returns the bytes unchanged; `Deflate` and `Zstd` decompress
/// them, failing with `CorruptStream` on a malformed stream. Every arm fails
/// with `LengthMismatch` when the output's length is not `decoded_length`.
/// `Redirect` is no content encoding: decoding one directly means a redirect
/// pointed at another redirect, which fails with `RedirectChainTooLong`.
pub open spec fn spec_decode_payload(
    encoding: EncodingKind,
    raw: Seq<u8>,
    decoded_length: u32,
) -> Result<Seq<u8>, ReadError> {
    match encoding {
        EncodingKind::Stored => {
            if raw.len() == decoded_length {
                Ok(raw)
            } else {
                Err(ReadError::LengthMismatch)
            }
        },
        EncodingKind::Deflate => {
            match spec_inflate(raw) {
                Some(out) => {
                    if out.len() == decoded_length {
                        Ok(out)
                    } else {
                        Err(ReadError::LengthMismatch)
                    }
                },
                None => Err(ReadError::CorruptStream),
            }
        },
        EncodingKind::Zstd => {
            match spec_zstd_decompress(raw) {
                Some(out) => {
                    if out.len() == decoded_length {
                        Ok(out)
                    } else {
                        Err(ReadError::LengthMismatch)
                    }
                },
                None => Err(ReadError::CorruptStream),
            }
        },
        EncodingKind::Redirect => Err(ReadError::RedirectChainTooLong),
    }
}

/// Decodes raw stored bytes under `encoding`, validating the output length
/// against `decoded_length`.
pub fn decode_payload(encoding: EncodingKind, raw: Vec<u8>, decoded_length: u32) -> (r: Result<
    Vec<u8>,
    ReadError,
>)
    ensures
        match r {
            Ok(out) => spec_decode_payload(encoding, raw@, decoded_length) == Ok::<
                Seq<u8>,
                ReadError,
            >(out@),
            Err(e) => spec_decode_payload(encoding, raw@, decoded_length) == Err::<
                Seq<u8>,
                ReadError,
            >(e),
        },
{
    match encoding {
        EncodingKind::Stored => {
            if raw.len() == decoded_length as usize {
                Ok(raw)
            } else {
                Err(ReadError::LengthMismatch)
            }
        },
        EncodingKind::Deflate => {
            match inflate(raw.as_slice()) {
                Some(out) => {
                    if out.len() == decoded_length as usize {
                        Ok(out)
                    } else {
                        Err(ReadError::LengthMismatch)
                    }
                },
                None => Err(ReadError::CorruptStream),
            }
        },
        EncodingKind::Zstd => {
            match zstd_decompress(raw.as_slice()) {
                Some(out) => {
                    if out.len() == decoded_length as usize {
                        Ok(out)
                    } else {
                        Err(ReadError::LengthMismatch)
                    }
                },
                None => Err(ReadError::CorruptStream),
            }
        },
        EncodingKind::Redirect => Err(ReadError::RedirectChainTooLong),
    }
}

} // verus!
