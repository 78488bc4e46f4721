use pngme::chunk::Chunk;
use pngme::chunk_type::ChunkType;
use pngme::error::PngError;

fn rust_chunk() -> Chunk {
    let t = ChunkType::from_str("RuSt").unwrap();
    Chunk::new(t, "This is where your secret message will be!".as_bytes().to_vec())
}

#[test]
fn new_chunk_has_known_checksum() {
    let c = rust_chunk();
    assert_eq!(c.length(), 42);
    assert_eq!(c.crc(), 2882656334);
    assert_eq!(c.chunk_type().to_string(), "RuSt");
}

#[test]
fn empty_iend_checksum() {
    let c = Chunk::new(ChunkType::from_str("IEND").unwrap(), Vec::new());
    assert_eq!(c.crc(), 0xAE42_6082);
    assert_eq!(c.as_bytes(), vec![0, 0, 0, 0, 73, 69, 78, 68, 0xAE, 0x42, 0x60, 0x82]);
}

#[test]
fn encoding_layout() {
    let c = rust_chunk();
    let b = c.as_bytes();
    assert_eq!(b.len(), 12 + 42);
    assert_eq!(&b[0..4], &[0, 0, 0, 42]);
    assert_eq!(&b[4..8], b"RuSt");
    assert_eq!(&b[8..50], c.data());
    assert_eq!(&b[50..54], &2882656334u32.to_be_bytes());
}

#[test]
fn chunk_round_trip() {
    let c = rust_chunk();
    let d = Chunk::decode(&c.as_bytes()).unwrap();
    assert_eq!(d.chunk_type(), c.chunk_type());
    assert_eq!(d.data(), c.data());
    assert_eq!(d.crc(), c.crc());
    assert_eq!(d.length(), c.length());
}

#[test]
fn decode_ignores_trailing_bytes() {
    let c = rust_chunk();
    let mut b = c.as_bytes();
    b.extend_from_slice(&[1, 2, 3]);
    let d = Chunk::decode(&b).unwrap();
    assert_eq!(d.data(), c.data());
}

#[test]
fn flipped_checksum_bit_is_mismatch() {
    let c = rust_chunk();
    for bit in 0..32 {
        let mut b = c.as_bytes();
        let i = 50 + bit / 8;
        b[i] ^= 1 << (bit % 8);
        match Chunk::decode(&b) {
            Err(PngError::ChecksumMismatch { stored, computed }) => {
                assert_eq!(computed, 2882656334);
                assert_ne!(stored, computed);
            }
            other => panic!("unexpected {:?}", other),
        }
    }
}

#[test]
fn flipped_payload_bit_is_mismatch() {
    let c = rust_chunk();
    for i in 8..50 {
        for bit in 0..8 {
            let mut b = c.as_bytes();
            b[i] ^= 1 << bit;
            assert!(matches!(Chunk::decode(&b), Err(PngError::ChecksumMismatch { .. })));
        }
    }
}

#[test]
fn short_chunk_is_truncated() {
    let c = rust_chunk();
    let b = c.as_bytes();
    assert_eq!(Chunk::decode(&b[..3]).unwrap_err(), PngError::Truncated);
    assert_eq!(Chunk::decode(&b[..7]).unwrap_err(), PngError::Truncated);
    assert_eq!(Chunk::decode(&b[..30]).unwrap_err(), PngError::Truncated);
    assert_eq!(Chunk::decode(&b[..53]).unwrap_err(), PngError::Truncated);
    assert_eq!(Chunk::decode(&[]).unwrap_err(), PngError::Truncated);
}

#[test]
fn payload_as_text() {
    let c = rust_chunk();
    assert_eq!(c.data_as_string().unwrap(), "This is where your secret message will be!");
}

#[test]
fn invalid_utf8_payload_is_invalid_text() {
    let c = Chunk::new(ChunkType::from_str("RuSt").unwrap(), vec![0xff, 0xfe, 0x41]);
    assert_eq!(c.data_as_string(), Err(PngError::InvalidText));
}
