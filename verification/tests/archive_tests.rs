use wadcore::archive::Archive;
use wadcore::errors::{OpenError, ReadError};
use wadcore::record::EncodingKind;

const VERSION: u32 = 1;

/// Lays out a complete archive: header, table of contents, then every
/// payload in order, with each entry's offset pointing at its payload.
/// Each record is (name, payload, encoding tag, decoded length).
fn build_archive(records: &[(&str, Vec<u8>, u8, u32)]) -> Vec<u8> {
    let table_len: usize = records.iter().map(|(n, _, _, _)| 2 + n.len() + 13).sum();
    let mut data_off = 12 + table_len;
    let mut table = Vec::new();
    let mut data = Vec::new();
    for (name, payload, tag, decoded) in records {
        table.extend_from_slice(&(name.len() as u16).to_le_bytes());
        table.extend_from_slice(name.as_bytes());
        table.extend_from_slice(&(data_off as u32).to_le_bytes());
        table.extend_from_slice(&(payload.len() as u32).to_le_bytes());
        table.extend_from_slice(&decoded.to_le_bytes());
        table.push(*tag);
        data.extend_from_slice(payload);
        data_off += payload.len();
    }
    let mut out = Vec::new();
    out.extend_from_slice(&wadcore::MAGIC.to_le_bytes());
    out.extend_from_slice(&VERSION.to_le_bytes());
    out.extend_from_slice(&(records.len() as u32).to_le_bytes());
    out.extend_from_slice(&table);
    out.extend_from_slice(&data);
    out
}

#[test]
fn open_and_read_stored_record() {
    let bytes = build_archive(&[("a/b.txt", b"hello".to_vec(), 0, 5)]);
    let wad = Archive::from_bytes(bytes).unwrap();
    assert_eq!(wad.record_count(), 1);
    let records = wad.iter_records();
    assert_eq!(records.len(), 1);
    assert_eq!(records[0].name, "a/b.txt");
    assert_eq!(records[0].decoded_length, 5);
    assert!(matches!(records[0].encoding, EncodingKind::Stored));
    assert_eq!(wad.read_record("a/b.txt").unwrap(), b"hello".to_vec());
}

#[test]
fn read_record_is_idempotent() {
    let plain = b"idempotent content".to_vec();
    let packed = miniz_oxide::deflate::compress_to_vec(&plain, 6);
    let bytes = build_archive(&[
        ("plain.txt", b"hello".to_vec(), 0, 5),
        ("packed.bin", packed, 1, plain.len() as u32),
    ]);
    let wad = Archive::from_bytes(bytes).unwrap();
    let first = wad.read_record("packed.bin").unwrap();
    let second = wad.read_record("packed.bin").unwrap();
    assert_eq!(first, second);
    assert_eq!(wad.read_record("plain.txt").unwrap(), wad.read_record("plain.txt").unwrap());
}

#[test]
fn record_count_matches_iterated_records() {
    let bytes = build_archive(&[
        ("one", b"1".to_vec(), 0, 1),
        ("two", b"22".to_vec(), 0, 2),
        ("three", b"333".to_vec(), 0, 3),
    ]);
    let wad = Archive::from_bytes(bytes).unwrap();
    assert_eq!(wad.record_count() as usize, wad.iter_records().len());
}

#[test]
fn stored_read_length_equals_decoded_length() {
    let bytes = build_archive(&[("f", b"four".to_vec(), 0, 4)]);
    let wad = Archive::from_bytes(bytes).unwrap();
    let content = wad.read_record("f").unwrap();
    assert_eq!(content.len() as u32, wad.iter_records()[0].decoded_length);
}

#[test]
fn stored_length_mismatch_is_rejected() {
    let bytes = build_archive(&[("f", b"four".to_vec(), 0, 7)]);
    let wad = Archive::from_bytes(bytes).unwrap();
    assert_eq!(wad.read_record("f"), Err(ReadError::LengthMismatch));
}

#[test]
fn deflate_record_round_trips() {
    let plain = b"the quick brown fox jumps over the lazy dog, twice over".to_vec();
    let packed = miniz_oxide::deflate::compress_to_vec(&plain, 6);
    assert_ne!(packed, plain);
    let bytes = build_archive(&[("fox.txt", packed, 1, plain.len() as u32)]);
    let wad = Archive::from_bytes(bytes).unwrap();
    assert_eq!(wad.read_record("fox.txt").unwrap(), plain);
}

#[test]
fn deflate_wrong_declared_length_is_length_mismatch() {
    let plain = b"some deflate content".to_vec();
    let packed = miniz_oxide::deflate::compress_to_vec(&plain, 6);
    let bytes = build_archive(&[("f", packed, 1, plain.len() as u32 + 1)]);
    let wad = Archive::from_bytes(bytes).unwrap();
    assert_eq!(wad.read_record("f"), Err(ReadError::LengthMismatch));
}

#[test]
fn truncated_deflate_is_corrupt_stream() {
    let plain: Vec<u8> = (0u16..600).map(|i| (i % 251) as u8).collect();
    let packed = miniz_oxide::deflate::compress_to_vec(&plain, 6);
    let truncated = packed[..packed.len() / 2].to_vec();
    let bytes = build_archive(&[("t", truncated, 1, plain.len() as u32)]);
    let wad = Archive::from_bytes(bytes).unwrap();
    assert_eq!(wad.read_record("t"), Err(ReadError::CorruptStream));
}

#[test]
fn zstd_record_round_trips() {
    let plain = b"zstandard framed content, long enough to be worth a frame".to_vec();
    let packed =
        ruzstd::encoding::compress_to_vec(plain.as_slice(), ruzstd::encoding::CompressionLevel::Fastest);
    assert_ne!(packed, plain);
    let bytes = build_archive(&[("z.bin", packed, 2, plain.len() as u32)]);
    let wad = Archive::from_bytes(bytes).unwrap();
    assert_eq!(wad.read_record("z.bin").unwrap(), plain);
}

#[test]
fn truncated_zstd_is_corrupt_stream() {
    let plain: Vec<u8> = (0u16..600).map(|i| (i % 37) as u8).collect();
    let packed =
        ruzstd::encoding::compress_to_vec(plain.as_slice(), ruzstd::encoding::CompressionLevel::Fastest);
    let truncated = packed[..packed.len() / 2].to_vec();
    let bytes = build_archive(&[("t", truncated, 2, plain.len() as u32)]);
    let wad = Archive::from_bytes(bytes).unwrap();
    assert_eq!(wad.read_record("t"), Err(ReadError::CorruptStream));
}

#[test]
fn bad_magic_is_rejected() {
    let mut bytes = build_archive(&[("f", b"x".to_vec(), 0, 1)]);
    bytes[0] = b'N';
    bytes[1] = b'O';
    assert!(matches!(Archive::from_bytes(bytes), Err(OpenError::BadMagic)));
}

#[test]
fn unsupported_version_is_rejected() {
    let mut bytes = build_archive(&[]);
    bytes[4] = 9;
    assert!(matches!(Archive::from_bytes(bytes), Err(OpenError::UnsupportedVersion)));
}

#[test]
fn truncated_header_is_rejected() {
    let bytes = build_archive(&[]);
    assert!(matches!(
        Archive::from_bytes(bytes[..7].to_vec()),
        Err(OpenError::UnexpectedEof)
    ));
}

#[test]
fn truncated_table_is_rejected() {
    let bytes = build_archive(&[("some/long/name.txt", b"x".to_vec(), 0, 1)]);
    let cut = bytes[..20].to_vec();
    assert!(matches!(Archive::from_bytes(cut), Err(OpenError::UnexpectedEof)));
}

#[test]
fn unknown_encoding_tag_is_rejected() {
    let bytes = build_archive(&[("f", b"x".to_vec(), 9, 1)]);
    assert!(matches!(Archive::from_bytes(bytes), Err(OpenError::UnknownEncoding)));
}

#[test]
fn malformed_name_is_rejected() {
    // One entry whose two name bytes are not valid UTF-8.
    let mut bytes = Vec::new();
    bytes.extend_from_slice(&wadcore::MAGIC.to_le_bytes());
    bytes.extend_from_slice(&VERSION.to_le_bytes());
    bytes.extend_from_slice(&1u32.to_le_bytes());
    bytes.extend_from_slice(&2u16.to_le_bytes());
    bytes.extend_from_slice(&[0xff, 0xfe]);
    bytes.extend_from_slice(&0u32.to_le_bytes());
    bytes.extend_from_slice(&0u32.to_le_bytes());
    bytes.extend_from_slice(&0u32.to_le_bytes());
    bytes.push(0);
    assert!(matches!(Archive::from_bytes(bytes), Err(OpenError::MalformedName)));
}

#[test]
fn duplicate_record_is_rejected() {
    let bytes = build_archive(&[
        ("same", b"a".to_vec(), 0, 1),
        ("same", b"b".to_vec(), 0, 1),
    ]);
    assert!(matches!(Archive::from_bytes(bytes), Err(OpenError::DuplicateRecord)));
}

#[test]
fn non_ascii_record_name_reads_back() {
    let bytes = build_archive(&[("dossier/r\u{e9}sum\u{e9}.txt", b"cv".to_vec(), 0, 2)]);
    let wad = Archive::from_bytes(bytes).unwrap();
    assert_eq!(wad.read_record("dossier/r\u{e9}sum\u{e9}.txt").unwrap(), b"cv".to_vec());
}

#[test]
fn missing_record_fails_locally() {
    let bytes = build_archive(&[("real", b"data".to_vec(), 0, 4)]);
    let wad = Archive::from_bytes(bytes).unwrap();
    assert_eq!(wad.read_record("no-such"), Err(ReadError::RecordNotFound));
    // The failure is local: other records are still readable afterwards.
    assert_eq!(wad.read_record("real").unwrap(), b"data".to_vec());
}

#[test]
fn empty_archive_has_no_records() {
    let bytes = build_archive(&[]);
    let wad = Archive::from_bytes(bytes).unwrap();
    assert_eq!(wad.record_count(), 0);
    assert_eq!(wad.iter_records().len(), 0);
    assert_eq!(wad.read_record("anything"), Err(ReadError::RecordNotFound));
}

#[test]
fn redirect_substitutes_target_content() {
    let bytes = build_archive(&[
        ("alias", b"real".to_vec(), 3, 0),
        ("real", b"substituted".to_vec(), 0, 11),
    ]);
    let wad = Archive::from_bytes(bytes).unwrap();
    assert_eq!(wad.read_record("alias").unwrap(), b"substituted".to_vec());
}

#[test]
fn redirect_to_redirect_fails() {
    let bytes = build_archive(&[
        ("alias", b"alias2".to_vec(), 3, 0),
        ("alias2", b"real".to_vec(), 3, 0),
        ("real", b"data".to_vec(), 0, 4),
    ]);
    let wad = Archive::from_bytes(bytes).unwrap();
    assert_eq!(wad.read_record("alias"), Err(ReadError::RedirectChainTooLong));
}

#[test]
fn redirect_with_malformed_target_name_fails() {
    let bytes = build_archive(&[("alias", vec![0xff, 0xfe], 3, 0)]);
    let wad = Archive::from_bytes(bytes).unwrap();
    assert_eq!(wad.read_record("alias"), Err(ReadError::MalformedName));
}

#[test]
fn redirect_to_missing_target_fails() {
    let bytes = build_archive(&[("alias", b"ghost".to_vec(), 3, 0)]);
    let wad = Archive::from_bytes(bytes).unwrap();
    assert_eq!(wad.read_record("alias"), Err(ReadError::RecordNotFound));
}

#[test]
fn out_of_bounds_span_fails() {
    // A record whose declared span runs past the end of the archive bytes.
    let mut bytes = Vec::new();
    bytes.extend_from_slice(&wadcore::MAGIC.to_le_bytes());
    bytes.extend_from_slice(&VERSION.to_le_bytes());
    bytes.extend_from_slice(&1u32.to_le_bytes());
    bytes.extend_from_slice(&1u16.to_le_bytes());
    bytes.push(b'f');
    bytes.extend_from_slice(&1_000_000u32.to_le_bytes());
    bytes.extend_from_slice(&10u32.to_le_bytes());
    bytes.extend_from_slice(&10u32.to_le_bytes());
    bytes.push(0);
    let wad = Archive::from_bytes(bytes).unwrap();
    assert_eq!(wad.read_record("f"), Err(ReadError::OutOfBounds));
}
