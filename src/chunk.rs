use vstd::prelude::*;
use vstd::utf8::{decode_utf8, valid_utf8};
use crate::chunk_type::ChunkType;
use crate::error::PngError;

verus! {

/// The CRC-32 (ISO-HDLC, as in zlib) of a byte sequence.
pub uninterp spec fn crc32_of(bytes: Seq<u8>) -> u32;

/// Relies on crc::Crc::<u32>::checksum with crc::CRC_32_ISO_HDLC: the PNG
/// checksum, a function of the bytes alone.
#[verifier::external_body]
fn crc32(bytes: &[u8]) -> (r: u32)
    ensures
        r == crc32_of(bytes@),
{
    crc::Crc::<u32>::new(&crc::CRC_32_ISO_HDLC).checksum(bytes)
}

/// Relies on String::from_utf8: it succeeds exactly on valid UTF-8 and then
/// holds the decoded text.
#[verifier::external_body]
fn utf8_text(bytes: Vec<u8>) -> (r: Option<String>)
    ensures
        r is Some <==> valid_utf8(bytes@),
        r is Some ==> r->Some_0@ == decode_utf8(bytes@),
{
    String::from_utf8(bytes).ok()
}

/// The number that four bytes of `s` from `i` on spell in big-endian order.
pub open spec fn be_value(s: Seq<u8>, i: int) -> int {
    s[i] as int * 16777216 + s[i + 1] as int * 65536 + s[i + 2] as int * 256 + s[i + 3] as int
}

/// The four big-endian bytes of `v`.
pub open spec fn be_bytes(v: u32) -> Seq<u8> {
    seq![(v / 16777216) as u8, (v / 65536 % 256) as u8, (v / 256 % 256) as u8, (v % 256) as u8]
}

/// What a chunk holds: its type bytes, its payload and its stored checksum.
pub struct ChunkModel {
    pub tag: Seq<u8>,
    pub data: Seq<u8>,
    pub crc: u32,
}

/// A chunk model that a `Chunk` can hold: a four-byte type, a payload whose
/// length fits in 32 bits, and the checksum of type and payload.
pub open spec fn model_wf(m: ChunkModel) -> bool {
    &&& m.tag.len() == 4
    &&& m.data.len() <= u32::MAX
    &&& m.crc == crc32_of(m.tag + m.data)
}

/// The bytes of a chunk on the wire: length, type, payload, checksum.
pub open spec fn encode_model(m: ChunkModel) -> Seq<u8> {
    be_bytes(m.data.len() as u32) + m.tag + m.data + be_bytes(m.crc)
}

/// The payload length that the first four bytes of `s` declare.
pub open spec fn declared_len(s: Seq<u8>) -> int {
    be_value(s, 0)
}

/// `s` is too short for the chunk that it begins.
pub open spec fn is_truncated(s: Seq<u8>) -> bool {
    s.len() < 12 || s.len() < 12 + declared_len(s)
}

/// The outcome of decoding the chunk at the start of `s`.
pub open spec fn parse_chunk(s: Seq<u8>) -> Result<ChunkModel, PngError> {
    if is_truncated(s) {
        Err(PngError::Truncated)
    } else {
        let n = declared_len(s);
        let tag = s.subrange(4, 8);
        let data = s.subrange(8, 8 + n);
        let stored = be_value(s, 8 + n) as u32;
        let computed = crc32_of(tag + data);
        if stored != computed {
            Err(PngError::ChecksumMismatch { stored, computed })
        } else {
            Ok(ChunkModel { tag, data, crc: stored })
        }
    }
}

/// A chunk: a type, a payload and the checksum over both.
#[derive(Debug, Clone)]
pub struct Chunk {
    chunk_type: ChunkType,
    data: Vec<u8>,
    crc: u32,
}

impl View for Chunk {
    type V = ChunkModel;

    closed spec fn view(&self) -> ChunkModel {
        ChunkModel { tag: self.chunk_type@, data: self.data@, crc: self.crc }
    }
}

proof fn lemma_be_round_trip(v: u32)
    ensures
        be_bytes(v).len() == 4,
        be_value(be_bytes(v), 0) == v as int,
{
    let s = be_bytes(v);
    assert(s[0] as int == v as int / 16777216);
    assert(s[1] as int == v as int / 65536 % 256);
    assert(s[2] as int == v as int / 256 % 256);
    assert(s[3] as int == v as int % 256);
}

/// Decoding the bytes of a chunk model, whatever follows them, gives back the
/// model itself.
pub proof fn lemma_parse_encoding(m: ChunkModel, rest: Seq<u8>)
    requires
        model_wf(m),
    ensures
        parse_chunk(encode_model(m) + rest) == Ok::<ChunkModel, PngError>(m),
        encode_model(m).len() == 12 + m.data.len(),
{
    let n = m.data.len() as int;
    let s = encode_model(m) + rest;
    lemma_be_round_trip(n as u32);
    lemma_be_round_trip(m.crc);
    assert(s.subrange(0, 4) =~= be_bytes(n as u32));
    assert(declared_len(s) == n);
    assert(s.subrange(4, 8) =~= m.tag);
    assert(s.subrange(8, 8 + n) =~= m.data);
    assert(s.subrange(8 + n, 12 + n) =~= be_bytes(m.crc));
    assert(be_value(s, 8 + n) == m.crc as int);
}

/// Decoding what `as_bytes` gives for a chunk yields that chunk again: the
/// same type, payload and checksum.
pub proof fn lemma_chunk_round_trip(c: Chunk)
    requires
        c.wf(),
    ensures
        parse_chunk(encode_model(c@)) == Ok::<ChunkModel, PngError>(c@),
{
    lemma_parse_encoding(c@, Seq::empty());
    assert(encode_model(c@) + Seq::<u8>::empty() =~= encode_model(c@));
}

/// Flipping any one bit of the stored checksum in a chunk's bytes makes
/// decoding fail with `ChecksumMismatch`.
pub proof fn lemma_checksum_bit_flip(m: ChunkModel, k: int, bit: u8)
    requires
        model_wf(m),
        0 <= k < 4,
        bit < 8,
    ensures
        ({
            let s = encode_model(m);
            let i = 8 + m.data.len() + k;
            let t = s.update(i, s[i] ^ (1u8 << bit));
            parse_chunk(t) matches Err(PngError::ChecksumMismatch { .. })
        }),
{
    let n = m.data.len() as int;
    let s = encode_model(m);
    let i = 8 + n + k;
    let x = s[i];
    let y = x ^ (1u8 << bit);
    assert(y != x) by (bit_vector)
        requires
            y == x ^ (1u8 << bit),
            bit < 8,
    ;
    let t = s.update(i, y);
    lemma_be_round_trip(n as u32);
    lemma_be_round_trip(m.crc);
    assert(s.subrange(0, 4) =~= be_bytes(n as u32));
    assert(declared_len(t) == n);
    assert(t.subrange(4, 8) =~= m.tag);
    assert(t.subrange(8, 8 + n) =~= m.data);
    assert(s.subrange(8 + n, 12 + n) =~= be_bytes(m.crc));
    assert(be_value(s, 8 + n) == m.crc as int);
    assert(be_value(t, 8 + n) != be_value(s, 8 + n));
}

fn push_be(out: &mut Vec<u8>, v: u32)
    ensures
        final(out)@ == old(out)@ + be_bytes(v),
{
    out.push((v / 16777216) as u8);
    out.push((v / 65536 % 256) as u8);
    out.push((v / 256 % 256) as u8);
    out.push((v % 256) as u8);
    assert(final(out)@ =~= old(out)@ + be_bytes(v));
}

fn read_be(bytes: &[u8], i: usize) -> (r: u32)
    requires
        i + 4 <= bytes@.len(),
    ensures
        r as int == be_value(bytes@, i as int),
{
    (bytes[i] as u32) * 16777216 + (bytes[i + 1] as u32) * 65536 + (bytes[i + 2] as u32) * 256
        + (bytes[i + 3] as u32)
}

pub(crate) fn push_range(out: &mut Vec<u8>, bytes: &[u8], start: usize, end: usize)
    requires
        start <= end <= bytes@.len(),
    ensures
        final(out)@ == old(out)@ + bytes@.subrange(start as int, end as int),
{
    let mut i = start;
    while i < end
        invariant
            start <= i <= end,
            end <= bytes@.len(),
            out@ == old(out)@ + bytes@.subrange(start as int, i as int),
        decreases end - i,
    {
        out.push(bytes[i]);
        i += 1;
        assert(out@ =~= old(out)@ + bytes@.subrange(start as int, i as int));
    }
}

/// The bytes over which a chunk's checksum is computed: type, then payload.
fn checksum_input(tag: [u8; 4], data: &[u8]) -> (r: Vec<u8>)
    ensures
        r@ == tag@ + data@,
{
    let mut buf: Vec<u8> = Vec::new();
    push_range(&mut buf, tag.as_slice(), 0, 4);
    push_range(&mut buf, data, 0, data.len());
    assert(buf@ =~= tag@ + data@);
    buf
}

impl Chunk {
    /// A chunk that a `Chunk` value can be: see `model_wf`.
    pub open spec fn wf(&self) -> bool {
        model_wf(self@)
    }

    /// A chunk of the given type and payload, with its checksum computed.
    pub fn new(chunk_type: ChunkType, data: Vec<u8>) -> (r: Chunk)
        requires
            data@.len() <= u32::MAX,
        ensures
            r.wf(),
            r@.tag == chunk_type@,
            r@.data == data@,
    {
        proof {
            chunk_type.lemma_len();
        }
        let crc = crc32(checksum_input(chunk_type.bytes(), data.as_slice()).as_slice());
        Chunk { chunk_type, data, crc }
    }

    /// Decodes the chunk at the start of `bytes`; bytes after it are ignored.
    pub fn decode(bytes: &[u8]) -> (r: Result<Chunk, PngError>)
        ensures
            match parse_chunk(bytes@) {
                Ok(m) => r is Ok && r->Ok_0@ == m && r->Ok_0.wf(),
                Err(e) => r == Err::<Chunk, PngError>(e),
            },
    {
        assert(bytes@.subrange(0, bytes@.len() as int) =~= bytes@);
        Chunk::decode_at(bytes, 0)
    }

    /// Decodes the chunk that begins at offset `pos` of `bytes`.
    pub fn decode_at(bytes: &[u8], pos: usize) -> (r: Result<Chunk, PngError>)
        requires
            pos <= bytes@.len(),
        ensures
            match parse_chunk(bytes@.subrange(pos as int, bytes@.len() as int)) {
                Ok(m) => r is Ok && r->Ok_0@ == m && r->Ok_0.wf(),
                Err(e) => r == Err::<Chunk, PngError>(e),
            },
    {
        let ghost s = bytes@.subrange(pos as int, bytes@.len() as int);
        let avail = bytes.len() - pos;
        if avail < 12 {
            return Err(PngError::Truncated);
        }
        let n = read_be(bytes, pos);
        assert(n as int == declared_len(s));
        if avail - 12 < n as usize {
            return Err(PngError::Truncated);
        }
        let n = n as usize;
        let tag: [u8; 4] = [bytes[pos + 4], bytes[pos + 5], bytes[pos + 6], bytes[pos + 7]];
        let mut data: Vec<u8> = Vec::new();
        push_range(&mut data, bytes, pos + 8, pos + 8 + n);
        let stored = read_be(bytes, pos + 8 + n);
        let computed = crc32(checksum_input(tag, data.as_slice()).as_slice());
        assert(tag@ =~= s.subrange(4, 8));
        assert(data@ =~= s.subrange(8, 8 + n));
        assert(stored as int == be_value(s, 8 + n));
        if stored != computed {
            return Err(PngError::ChecksumMismatch { stored, computed });
        }
        let chunk_type = ChunkType::from_bytes(tag);
        Ok(Chunk { chunk_type, data, crc: stored })
    }

    /// The payload length.
    pub fn length(&self) -> (r: u32)
        requires
            self.wf(),
        ensures
            r as int == self@.data.len(),
    {
        self.data.len() as u32
    }

    pub fn chunk_type(&self) -> (r: &ChunkType)
        ensures
            r@ == self@.tag,
    {
        &self.chunk_type
    }

    pub fn data(&self) -> (r: &[u8])
        ensures
            r@ == self@.data,
    {
        self.data.as_slice()
    }

    /// The stored checksum.
    pub fn crc(&self) -> (r: u32)
        ensures
            r == self@.crc,
    {
        self.crc
    }

    /// The payload as text, or `InvalidText` where it is not valid UTF-8.
    pub fn data_as_string(&self) -> (r: Result<String, PngError>)
        ensures
            r is Ok <==> valid_utf8(self@.data),
            r is Ok ==> r->Ok_0@ == decode_utf8(self@.data),
            r is Err ==> r == Err::<String, PngError>(PngError::InvalidText),
    {
        match utf8_text(self.data.clone()) {
            Some(s) => Ok(s),
            None => Err(PngError::InvalidText),
        }
    }

    /// The chunk's bytes on the wire, twelve more than its payload.
    pub fn as_bytes(&self) -> (r: Vec<u8>)
        requires
            self.wf(),
        ensures
            r@ == encode_model(self@),
            r@.len() == 12 + self@.data.len(),
    {
        let mut out: Vec<u8> = Vec::new();
        push_be(&mut out, self.data.len() as u32);
        push_range(&mut out, self.chunk_type.bytes().as_slice(), 0, 4);
        push_range(&mut out, self.data.as_slice(), 0, self.data.len());
        push_be(&mut out, self.crc);
        proof {
            self.chunk_type.lemma_len();
            assert(out@ =~= encode_model(self@));
        }
        out
    }
}

} // verus!
