use pngme::chunk::Chunk;
use pngme::chunk_type::ChunkType;
use pngme::commands::{chunk_listing, decode_message, encode_message, remove_chunk};
use pngme::error::PngError;
use pngme::png::{Png, STANDARD_HEADER};

fn chunk(t: &str, data: &str) -> Chunk {
    Chunk::new(ChunkType::from_str(t).unwrap(), data.as_bytes().to_vec())
}

fn sample() -> Png {
    Png::from_chunks(vec![
        chunk("FrSt", "I am the first chunk"),
        chunk("miDl", "I am another chunk"),
        chunk("LASt", "I am the last chunk"),
    ])
}

fn types(p: &Png) -> Vec<String> {
    p.chunks().iter().map(|c| c.chunk_type().to_string()).collect()
}

#[test]
fn png_encoding_starts_with_signature() {
    let b = sample().as_bytes();
    assert_eq!(&b[..8], &STANDARD_HEADER);
    assert_eq!(sample().header(), [137, 80, 78, 71, 13, 10, 26, 10]);
    let expected_len: usize = 8 + (12 + 20) + (12 + 18) + (12 + 19);
    assert_eq!(b.len(), expected_len);
}

#[test]
fn png_round_trip() {
    let p = sample();
    let q = Png::decode(&p.as_bytes()).unwrap();
    assert_eq!(types(&q), vec!["FrSt", "miDl", "LASt"]);
    assert_eq!(q.as_bytes(), p.as_bytes());
    for (a, b) in p.chunks().iter().zip(q.chunks()) {
        assert_eq!(a.data(), b.data());
        assert_eq!(a.crc(), b.crc());
    }
}

#[test]
fn empty_png_round_trip() {
    let p = Png::from_chunks(Vec::new());
    let b = p.as_bytes();
    assert_eq!(b, STANDARD_HEADER.to_vec());
    assert!(Png::decode(&b).unwrap().chunks().is_empty());
}

#[test]
fn short_buffer_is_bad_signature() {
    assert_eq!(Png::decode(&[137, 80, 78]).unwrap_err(), PngError::BadSignature);
    assert_eq!(Png::decode(&[]).unwrap_err(), PngError::BadSignature);
}

#[test]
fn wrong_signature_is_bad_signature() {
    let mut b = sample().as_bytes();
    b[3] = 0;
    assert_eq!(Png::decode(&b).unwrap_err(), PngError::BadSignature);
}

#[test]
fn oversized_last_chunk_is_truncated() {
    let mut b = sample().as_bytes();
    let last = 8 + (12 + 20) + (12 + 18);
    b[last + 3] = 200;
    assert_eq!(Png::decode(&b).unwrap_err(), PngError::Truncated);
}

#[test]
fn trailing_garbage_is_truncated() {
    let mut b = sample().as_bytes();
    b.extend_from_slice(&[0, 0]);
    assert_eq!(Png::decode(&b).unwrap_err(), PngError::Truncated);
}

#[test]
fn corrupted_chunk_fails_whole_decode() {
    let mut b = sample().as_bytes();
    b[8 + 12] ^= 1;
    assert!(matches!(Png::decode(&b), Err(PngError::ChecksumMismatch { .. })));
}

#[test]
fn append_then_find() {
    let mut p = sample();
    p.append_chunk(chunk("TeSt", "Message"));
    assert_eq!(p.chunks().len(), 4);
    let c = p.chunk_by_type("TeSt").unwrap();
    assert_eq!(c.data_as_string().unwrap(), "Message");
    assert_eq!(types(&p)[3], "TeSt");
}

#[test]
fn find_returns_first_of_type() {
    let mut p = sample();
    p.append_chunk(chunk("FrSt", "second"));
    assert_eq!(p.chunk_by_type("FrSt").unwrap().data_as_string().unwrap(), "I am the first chunk");
    assert!(p.chunk_by_type("NoNe").is_none());
}

#[test]
fn remove_absent_type() {
    let mut p = sample();
    assert_eq!(p.remove_first_chunk("NoNe").unwrap_err(), PngError::ChunkNotFound);
    assert_eq!(p.chunks().len(), 3);
}

#[test]
fn remove_present_type() {
    let mut p = sample();
    p.append_chunk(chunk("miDl", "again"));
    let c = p.remove_first_chunk("miDl").unwrap();
    assert_eq!(c.data_as_string().unwrap(), "I am another chunk");
    assert_eq!(types(&p), vec!["FrSt", "LASt", "miDl"]);
}

#[test]
fn listing_has_one_line_per_chunk() {
    assert_eq!(sample().to_string(), "FrSt\nmiDl\nLASt\n");
}

#[test]
fn encode_then_decode_message() {
    let b = sample().as_bytes();
    let e = encode_message(&b, "ruSt", "hidden").unwrap();
    assert_eq!(decode_message(&e, "ruSt").unwrap(), "hidden");
    assert_eq!(e.len(), b.len() + 12 + 6);
    assert_eq!(&e[..b.len()], &b[..]);
}

#[test]
fn encode_message_rejects_bad_type() {
    let b = sample().as_bytes();
    assert_eq!(encode_message(&b, "Ru1t", "x").unwrap_err(), PngError::MalformedTag);
    assert_eq!(encode_message(&b[..5], "RuSt", "x").unwrap_err(), PngError::BadSignature);
}

#[test]
fn decode_message_errors() {
    let b = sample().as_bytes();
    assert_eq!(decode_message(&b, "NoNe").unwrap_err(), PngError::ChunkNotFound);
    let p = Png::from_chunks(vec![Chunk::new(ChunkType::from_str("RuSt").unwrap(), vec![0xff])]);
    assert_eq!(decode_message(&p.as_bytes(), "RuSt").unwrap_err(), PngError::InvalidText);
}

#[test]
fn remove_chunk_bytes() {
    let b = sample().as_bytes();
    let r = remove_chunk(&b, "miDl").unwrap();
    let q = Png::decode(&r).unwrap();
    assert_eq!(types(&q), vec!["FrSt", "LASt"]);
    assert_eq!(remove_chunk(&b, "NoNe").unwrap_err(), PngError::ChunkNotFound);
}

#[test]
fn listing_of_bytes() {
    let b = sample().as_bytes();
    assert_eq!(chunk_listing(&b).unwrap(), "FrSt\nmiDl\nLASt\n");
}
