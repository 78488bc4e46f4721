use vstd::prelude::*;
use vstd::string::StringSliceAdditionalSpecFns;
use vstd::utf8::{decode_utf8, valid_utf8};
use crate::chunk::{crc32_of, push_range, Chunk, ChunkModel};
use crate::chunk_type::{is_type_text, ChunkType};
use crate::error::PngError;
use crate::png::{encode_chunks, first_of_type, listing, parse_png, signature, Png};

verus! {

/// The chunk that hiding `message` under the type `tag` adds.
pub open spec fn message_chunk(tag: Seq<u8>, message: Seq<u8>) -> ChunkModel {
    ChunkModel { tag, data: message, crc: crc32_of(tag + message) }
}

/// Hides `message` in a new chunk of type `chunk_type`, added after the chunks
/// of the PNG file `png`, and returns the file's new bytes.
pub fn encode_message(png: &[u8], chunk_type: &str, message: &str) -> (r: Result<Vec<u8>, PngError>)
    requires
        message.spec_bytes().len() <= u32::MAX,
    ensures
        match parse_png(png@) {
            Err(e) => r == Err::<Vec<u8>, PngError>(e),
            Ok(ms) => if is_type_text(chunk_type.spec_bytes()) {
                r is Ok && r->Ok_0@ == signature() + encode_chunks(
                    ms.push(message_chunk(chunk_type.spec_bytes(), message.spec_bytes())),
                )
            } else {
                r == Err::<Vec<u8>, PngError>(PngError::MalformedTag)
            },
        },
{
    let mut p = match Png::decode(png) {
        Ok(p) => p,
        Err(e) => return Err(e),
    };
    let t = match ChunkType::from_str(chunk_type) {
        Ok(t) => t,
        Err(_) => return Err(PngError::MalformedTag),
    };
    let bytes = message.as_bytes();
    let mut data: Vec<u8> = Vec::new();
    push_range(&mut data, bytes, 0, bytes.len());
    assert(data@ =~= message.spec_bytes());
    let chunk = Chunk::new(t, data);
    p.append_chunk(chunk);
    Ok(p.as_bytes())
}

/// The text hidden in the first chunk of type `chunk_type` of the PNG file `png`.
pub fn decode_message(png: &[u8], chunk_type: &str) -> (r: Result<String, PngError>)
    ensures
        match parse_png(png@) {
            Err(e) => r == Err::<String, PngError>(e),
            Ok(ms) => {
                let i = first_of_type(ms, chunk_type.spec_bytes());
                if i == ms.len() {
                    r == Err::<String, PngError>(PngError::ChunkNotFound)
                } else if valid_utf8(ms[i].data) {
                    r is Ok && r->Ok_0@ == decode_utf8(ms[i].data)
                } else {
                    r == Err::<String, PngError>(PngError::InvalidText)
                }
            },
        },
{
    let p = match Png::decode(png) {
        Ok(p) => p,
        Err(e) => return Err(e),
    };
    proof {
        crate::png::lemma_first_of_type(p@, chunk_type.spec_bytes());
    }
    match p.chunk_by_type(chunk_type) {
        None => Err(PngError::ChunkNotFound),
        Some(c) => c.data_as_string(),
    }
}

/// Removes the first chunk of type `chunk_type` from the PNG file `png` and
/// returns the file's new bytes.
pub fn remove_chunk(png: &[u8], chunk_type: &str) -> (r: Result<Vec<u8>, PngError>)
    ensures
        match parse_png(png@) {
            Err(e) => r == Err::<Vec<u8>, PngError>(e),
            Ok(ms) => {
                let i = first_of_type(ms, chunk_type.spec_bytes());
                if i == ms.len() {
                    r == Err::<Vec<u8>, PngError>(PngError::ChunkNotFound)
                } else {
                    r is Ok && r->Ok_0@ == signature() + encode_chunks(ms.remove(i))
                }
            },
        },
{
    let mut p = match Png::decode(png) {
        Ok(p) => p,
        Err(e) => return Err(e),
    };
    proof {
        crate::png::lemma_first_of_type(p@, chunk_type.spec_bytes());
    }
    match p.remove_first_chunk(chunk_type) {
        Err(e) => Err(e),
        Ok(_) => Ok(p.as_bytes()),
    }
}

/// The types of the chunks of the PNG file `png`, one per line.
pub fn chunk_listing(png: &[u8]) -> (r: Result<String, PngError>)
    ensures
        match parse_png(png@) {
            Err(e) => r == Err::<String, PngError>(e),
            Ok(ms) => r is Ok && (valid_utf8(listing(ms)) ==> r->Ok_0@ == decode_utf8(listing(ms))),
        },
{
    match Png::decode(png) {
        Ok(p) => Ok(p.to_string()),
        Err(e) => Err(e),
    }
}

} // verus!
