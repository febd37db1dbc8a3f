//! Header codec behaviour: sizes, round trips, conformance with the
//! fixed-width little-endian serialization the format was defined by, and
//! the decode errors.

use bincode::Options;
use mmapfile::error::MmapError;
use mmapfile::header::{header_len_from_prefix, MmapFileHdr};

fn encode(hdr: &MmapFileHdr) -> Vec<u8> {
    let mut out = Vec::new();
    hdr.serialize_into(&mut out);
    out
}

#[test]
fn mmapfilehdr_basic() {
    let hdr: MmapFileHdr = MmapFileHdr::new(b"u8".to_vec(), 12345);
    assert_eq!(22, hdr.serialized_size());
    let hdr: MmapFileHdr = MmapFileHdr::new(b"u8".to_vec(), 1);
    assert_eq!(22, hdr.serialized_size());
    let hdr: MmapFileHdr = MmapFileHdr::new(b"u8".to_vec(), 1 << 32);
    assert_eq!(22, hdr.serialized_size());
}

#[test]
fn encoding_matches_fixint_bincode() {
    // The on-disk layout is what bincode's fixed-width integer encoding
    // produces for (magic, typename, count).
    let ours = encode(&MmapFileHdr::new(b"u8".to_vec(), 12345));
    let reference: Vec<u8> = bincode::DefaultOptions::new()
        .with_fixint_encoding()
        .serialize(&(*b"MMAP", String::from("u8"), 12345u64))
        .unwrap();
    assert_eq!(ours, reference);
}

#[test]
fn encoded_size_found_by_encoding() {
    let hdr = MmapFileHdr::new(b"some::longer::type::name".to_vec(), 7);
    assert_eq!(hdr.serialized_size(), encode(&hdr).len() as u64);
    assert_eq!(hdr.serialized_size(), 20 + 24);
}

#[test]
fn decode_round_trip() {
    let hdr = MmapFileHdr::new(b"pair_of_u32".to_vec(), 99);
    let bytes = encode(&hdr);
    let back = MmapFileHdr::deserialize_from(&bytes).unwrap();
    assert_eq!(encode(&back), bytes);
    assert_eq!(back.typename, b"pair_of_u32".to_vec());
    assert_eq!(back.size, 99);
}

#[test]
fn decode_ignores_trailing_bytes() {
    let hdr = MmapFileHdr::new(b"u8".to_vec(), 3);
    let mut bytes = encode(&hdr);
    bytes.extend_from_slice(&[0xAB; 100]);
    let back = MmapFileHdr::deserialize_from(&bytes).unwrap();
    assert_eq!(back.typename, b"u8".to_vec());
    assert_eq!(back.size, 3);
}

#[test]
fn decode_bad_magic() {
    let mut bytes = encode(&MmapFileHdr::new(b"u8".to_vec(), 3));
    bytes[0] = b'X';
    assert_eq!(
        MmapFileHdr::deserialize_from(&bytes).unwrap_err(),
        MmapError::BadMagic
    );
}

#[test]
fn decode_truncated() {
    let bytes = encode(&MmapFileHdr::new(b"u8".to_vec(), 3));
    assert_eq!(
        MmapFileHdr::deserialize_from(&bytes[..bytes.len() - 1]).unwrap_err(),
        MmapError::TruncatedHeader
    );
    assert_eq!(
        MmapFileHdr::deserialize_from(&bytes[..10]).unwrap_err(),
        MmapError::TruncatedHeader
    );
    assert_eq!(
        MmapFileHdr::deserialize_from(&[]).unwrap_err(),
        MmapError::TruncatedHeader
    );
}

#[test]
fn header_len_from_short_prefix() {
    let bytes = encode(&MmapFileHdr::new(b"pair_of_u32".to_vec(), 1));
    assert_eq!(header_len_from_prefix(&bytes[..12]), Ok(20 + 11));
    assert_eq!(
        header_len_from_prefix(&bytes[..8]),
        Err(MmapError::TruncatedHeader)
    );
    let mut wrong = bytes.clone();
    wrong[1] = 0;
    assert_eq!(
        header_len_from_prefix(&wrong[..12]),
        Err(MmapError::BadMagic)
    );
}
