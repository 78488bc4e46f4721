use vstd::prelude::*;

verus! {

/// Why an operation on a chunk type, a chunk or a PNG container failed.
#[derive(Debug, Clone, Copy, PartialEq, Eq)]
pub enum PngError {
    /// A chunk type string is not four ASCII letters.
    MalformedTag,
    /// A chunk field runs past the end of the bytes.
    Truncated,
    /// The stored checksum of a chunk differs from the one computed over it.
    ChecksumMismatch { stored: u32, computed: u32 },
    /// The bytes do not begin with the PNG signature.
    BadSignature,
    /// No chunk of the requested type is present.
    ChunkNotFound,
    /// A chunk's payload is not valid UTF-8.
    InvalidText,
}

} // verus!
