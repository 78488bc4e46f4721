use vstd::prelude::*;
use vstd::string::StringSliceAdditionalSpecFns;
use vstd::utf8::{decode_utf8, valid_utf8};
use crate::chunk::{encode_model, is_truncated, lemma_parse_encoding, model_wf, parse_chunk, Chunk, ChunkModel};
use crate::chunk_type::lossy_text;
use crate::error::PngError;

verus! {

/// The eight bytes that begin every PNG file.
pub const STANDARD_HEADER: [u8; 8] = [137, 80, 78, 71, 13, 10, 26, 10];

pub open spec fn signature() -> Seq<u8> {
    seq![137u8, 80u8, 78u8, 71u8, 13u8, 10u8, 26u8, 10u8]
}

/// `ms` with `r`'s chunks after it, or `r`'s error.
pub open spec fn prepend(ms: Seq<ChunkModel>, r: Result<Seq<ChunkModel>, PngError>) -> Result<
    Seq<ChunkModel>,
    PngError,
> {
    match r {
        Ok(rest) => Ok(ms + rest),
        Err(e) => Err(e),
    }
}

/// The outcome of decoding `s` as a run of chunks that ends exactly at its end.
pub open spec fn parse_chunks(s: Seq<u8>) -> Result<Seq<ChunkModel>, PngError>
    decreases s.len(),
{
    if s.len() == 0 {
        Ok(Seq::empty())
    } else {
        match parse_chunk(s) {
            Err(e) => Err(e),
            Ok(m) => prepend(seq![m], parse_chunks(s.subrange(12 + m.data.len() as int, s.len() as int))),
        }
    }
}

/// The outcome of decoding `s` as a PNG file: the signature, then chunks.
pub open spec fn parse_png(s: Seq<u8>) -> Result<Seq<ChunkModel>, PngError> {
    if s.len() < 8 || s.subrange(0, 8) != signature() {
        Err(PngError::BadSignature)
    } else {
        parse_chunks(s.subrange(8, s.len() as int))
    }
}

/// The bytes of a run of chunks, in order.
pub open spec fn encode_chunks(ms: Seq<ChunkModel>) -> Seq<u8>
    decreases ms.len(),
{
    if ms.len() == 0 {
        Seq::empty()
    } else {
        encode_model(ms[0]) + encode_chunks(ms.drop_first())
    }
}

/// Where the first chunk of type `t` stands in `ms`; `ms.len()` if none has it.
pub open spec fn first_of_type(ms: Seq<ChunkModel>, t: Seq<u8>) -> int
    decreases ms.len(),
{
    if ms.len() == 0 {
        0
    } else if ms[0].tag == t {
        0
    } else {
        1 + first_of_type(ms.drop_first(), t)
    }
}

/// The text listing of a run of chunks: each type on a line of its own.
pub open spec fn listing(ms: Seq<ChunkModel>) -> Seq<u8>
    decreases ms.len(),
{
    if ms.len() == 0 {
        Seq::empty()
    } else {
        listing(ms.drop_last()) + ms.last().tag + seq![10u8]
    }
}

/// `first_of_type` is the least index of a chunk of type `t`.
pub proof fn lemma_first_of_type(ms: Seq<ChunkModel>, t: Seq<u8>)
    ensures
        0 <= first_of_type(ms, t) <= ms.len(),
        forall|j: int| 0 <= j < first_of_type(ms, t) ==> (#[trigger] ms[j]).tag != t,
        first_of_type(ms, t) < ms.len() ==> ms[first_of_type(ms, t)].tag == t,
    decreases ms.len(),
{
    if ms.len() > 0 && ms[0].tag != t {
        lemma_first_of_type(ms.drop_first(), t);
        assert forall|j: int| 0 <= j < first_of_type(ms, t) implies (#[trigger] ms[j]).tag != t by {
            if j > 0 {
                assert(ms[j] == ms.drop_first()[j - 1]);
            }
        }
    }
}

proof fn lemma_first_of_type_at(ms: Seq<ChunkModel>, t: Seq<u8>, i: int)
    requires
        0 <= i <= ms.len(),
        forall|j: int| 0 <= j < i ==> (#[trigger] ms[j]).tag != t,
        i == ms.len() || ms[i].tag == t,
    ensures
        first_of_type(ms, t) == i,
{
    lemma_first_of_type(ms, t);
    let f = first_of_type(ms, t);
    if f < i {
        assert(ms[f].tag != t);
    } else if f > i {
        assert(ms[i].tag != t);
    }
}

/// Decoding the bytes of well-formed chunks followed by `rest` gives those
/// chunks followed by what `rest` decodes to.
pub proof fn lemma_parse_encoded_chunks(ms: Seq<ChunkModel>, rest: Seq<u8>)
    requires
        forall|i: int| 0 <= i < ms.len() ==> model_wf(#[trigger] ms[i]),
    ensures
        parse_chunks(encode_chunks(ms) + rest) == prepend(ms, parse_chunks(rest)),
    decreases ms.len(),
{
    if ms.len() == 0 {
        assert(encode_chunks(ms) + rest =~= rest);
        match parse_chunks(rest) {
            Ok(r) => assert(ms + r =~= r),
            Err(_) => {},
        }
    } else {
        let m = ms[0];
        let tail = ms.drop_first();
        assert forall|i: int| 0 <= i < tail.len() implies model_wf(#[trigger] tail[i]) by {
            assert(tail[i] == ms[i + 1]);
        }
        lemma_parse_encoded_chunks(tail, rest);
        let s = encode_chunks(ms) + rest;
        let after = encode_chunks(tail) + rest;
        assert(s =~= encode_model(m) + after);
        lemma_parse_encoding(m, after);
        assert(s.subrange(12 + m.data.len() as int, s.len() as int) =~= after);
        match parse_chunks(rest) {
            Ok(r) => assert(seq![m] + (tail + r) =~= ms + r),
            Err(_) => {},
        }
    }
}

proof fn lemma_encode_push(ms: Seq<ChunkModel>, m: ChunkModel)
    ensures
        encode_chunks(ms.push(m)) == encode_chunks(ms) + encode_model(m),
    decreases ms.len(),
{
    if ms.len() == 0 {
        assert(ms.push(m).drop_first() =~= Seq::<ChunkModel>::empty());
        assert(encode_chunks(ms.push(m).drop_first()) == Seq::<u8>::empty());
        assert(encode_chunks(ms) == Seq::<u8>::empty());
        assert(encode_chunks(ms.push(m)) =~= encode_chunks(ms) + encode_model(m));
    } else {
        assert(ms.push(m).drop_first() =~= ms.drop_first().push(m));
        lemma_encode_push(ms.drop_first(), m);
        assert(encode_chunks(ms.push(m)) =~= encode_chunks(ms) + encode_model(m));
    }
}

/// Decoding the bytes of a PNG file gives back its chunks, in the same order.
pub proof fn lemma_png_round_trip(p: Png)
    requires
        p.wf(),
    ensures
        parse_png(signature() + encode_chunks(p@)) == Ok::<Seq<ChunkModel>, PngError>(p@),
{
    let s = signature() + encode_chunks(p@);
    lemma_parse_encoded_chunks(p@, Seq::empty());
    assert(s.subrange(0, 8) =~= signature());
    assert(s.subrange(8, s.len() as int) =~= encode_chunks(p@) + Seq::<u8>::empty());
    assert(p@ + Seq::<ChunkModel>::empty() =~= p@);
}

/// Bytes that are shorter than eight or do not begin with the signature fail
/// to decode with `BadSignature`.
pub proof fn lemma_bad_signature(s: Seq<u8>)
    requires
        s.len() < 8 || s.subrange(0, 8) != signature(),
    ensures
        parse_png(s) == Err::<Seq<ChunkModel>, PngError>(PngError::BadSignature),
{
}

/// Well-formed chunks followed by a last chunk whose declared length runs past
/// the end of the bytes fail to decode with `Truncated`.
pub proof fn lemma_truncated_last_chunk(ms: Seq<ChunkModel>, last: Seq<u8>)
    requires
        forall|i: int| 0 <= i < ms.len() ==> model_wf(#[trigger] ms[i]),
        last.len() > 0,
        is_truncated(last),
    ensures
        parse_png(signature() + encode_chunks(ms) + last) == Err::<Seq<ChunkModel>, PngError>(
            PngError::Truncated,
        ),
{
    let s = signature() + encode_chunks(ms) + last;
    lemma_parse_encoded_chunks(ms, last);
    assert(s.subrange(0, 8) =~= signature());
    assert(s.subrange(8, s.len() as int) =~= encode_chunks(ms) + last);
}

/// After a chunk is appended to chunks of which none has its type, the first
/// chunk of that type is the appended one.
pub proof fn lemma_append_then_find(ms: Seq<ChunkModel>, m: ChunkModel)
    requires
        forall|j: int| 0 <= j < ms.len() ==> (#[trigger] ms[j]).tag != m.tag,
    ensures
        first_of_type(ms.push(m), m.tag) == ms.len(),
        ms.push(m)[ms.len() as int] == m,
{
    let ps = ms.push(m);
    assert forall|j: int| 0 <= j < ms.len() implies (#[trigger] ps[j]).tag != m.tag by {
        assert(ps[j] == ms[j]);
    }
    lemma_first_of_type_at(ps, m.tag, ms.len() as int);
}

/// A PNG file as its ordered run of chunks.
#[derive(Debug, Clone)]
pub struct Png {
    chunks: Vec<Chunk>,
}

impl View for Png {
    type V = Seq<ChunkModel>;

    closed spec fn view(&self) -> Seq<ChunkModel> {
        self.chunks@.map_values(|c: Chunk| c@)
    }
}

impl Png {
    /// Every chunk is one that a `Chunk` value can be.
    pub open spec fn wf(&self) -> bool {
        forall|i: int| 0 <= i < self@.len() ==> model_wf(#[trigger] self@[i])
    }

    /// A PNG file of the given chunks, in the given order.
    pub fn from_chunks(chunks: Vec<Chunk>) -> (r: Png)
        requires
            forall|i: int| 0 <= i < chunks@.len() ==> (#[trigger] chunks@[i]).wf(),
        ensures
            r.wf(),
            r@ == chunks@.map_values(|c: Chunk| c@),
    {
        Png { chunks }
    }

    /// Adds `chunk` after every chunk already present.
    pub fn append_chunk(&mut self, chunk: Chunk)
        requires
            old(self).wf(),
            chunk.wf(),
        ensures
            final(self).wf(),
            final(self)@ == old(self)@.push(chunk@),
    {
        self.chunks.push(chunk);
        assert(self@ =~= old(self)@.push(chunk@));
    }

    /// Where the first chunk whose type bytes are those of `chunk_type` stands.
    fn position_of(&self, chunk_type: &str) -> (r: usize)
        ensures
            r as int == first_of_type(self@, chunk_type.spec_bytes()),
    {
        let ghost t = chunk_type.spec_bytes();
        let mut i: usize = 0;
        while i < self.chunks.len()
            invariant
                0 <= i <= self.chunks@.len(),
                self@.len() == self.chunks@.len(),
                t == chunk_type.spec_bytes(),
                forall|j: int| 0 <= j < i ==> (#[trigger] self@[j]).tag != t,
            decreases self.chunks@.len() - i,
        {
            let c = &self.chunks[i];
            assert(c@ == self@[i as int]);
            if c.chunk_type().matches(chunk_type) {
                proof {
                    lemma_first_of_type_at(self@, t, i as int);
                }
                return i;
            }
            i += 1;
        }
        proof {
            lemma_first_of_type_at(self@, t, i as int);
        }
        i
    }

    /// Takes out the first chunk of the given type and returns it; with none of
    /// that type, fails with `ChunkNotFound` and changes nothing.
    pub fn remove_first_chunk(&mut self, chunk_type: &str) -> (r: Result<Chunk, PngError>)
        requires
            old(self).wf(),
        ensures
            final(self).wf(),
            ({
                let i = first_of_type(old(self)@, chunk_type.spec_bytes());
                if i < old(self)@.len() {
                    &&& r is Ok
                    &&& r->Ok_0@ == old(self)@[i]
                    &&& r->Ok_0.wf()
                    &&& final(self)@ == old(self)@.remove(i)
                    &&& final(self)@.len() == old(self)@.len() - 1
                } else {
                    &&& r == Err::<Chunk, PngError>(PngError::ChunkNotFound)
                    &&& final(self)@ == old(self)@
                }
            }),
    {
        let i = self.position_of(chunk_type);
        if i < self.chunks.len() {
            let c = self.chunks.remove(i);
            assert(self@ =~= old(self)@.remove(i as int));
            Ok(c)
        } else {
            Err(PngError::ChunkNotFound)
        }
    }

    pub fn header(&self) -> (r: [u8; 8])
        ensures
            r@ == signature(),
    {
        let h = STANDARD_HEADER;
        assert(h@ =~= signature());
        h
    }

    pub fn chunks(&self) -> (r: &[Chunk])
        ensures
            r@.map_values(|c: Chunk| c@) == self@,
    {
        self.chunks.as_slice()
    }

    /// The first chunk of the given type, if there is one.
    pub fn chunk_by_type(&self, chunk_type: &str) -> (r: Option<&Chunk>)
        requires
            self.wf(),
        ensures
            ({
                let i = first_of_type(self@, chunk_type.spec_bytes());
                if i < self@.len() {
                    r is Some && r->Some_0@ == self@[i] && r->Some_0.wf()
                } else {
                    r is None
                }
            }),
    {
        let i = self.position_of(chunk_type);
        if i < self.chunks.len() {
            Some(&self.chunks[i])
        } else {
            None
        }
    }

    /// The file's bytes: the signature, then each chunk's bytes in order.
    pub fn as_bytes(&self) -> (r: Vec<u8>)
        requires
            self.wf(),
        ensures
            r@ == signature() + encode_chunks(self@),
    {
        let mut out: Vec<u8> = Vec::new();
        let mut k: usize = 0;
        while k < 8
            invariant
                k <= 8,
                out@ == signature().subrange(0, k as int),
            decreases 8 - k,
        {
            out.push(STANDARD_HEADER[k]);
            k += 1;
            assert(out@ =~= signature().subrange(0, k as int));
        }
        let mut i: usize = 0;
        while i < self.chunks.len()
            invariant
                self.wf(),
                0 <= i <= self.chunks@.len(),
                out@ == signature() + encode_chunks(self@.subrange(0, i as int)),
            decreases self.chunks@.len() - i,
        {
            let c = &self.chunks[i];
            assert(self@ == self.chunks@.map_values(|c: Chunk| c@));
            assert(*c == self.chunks@[i as int]);
            assert(c@ == self@[i as int]);
            let bytes = c.as_bytes();
            proof {
                lemma_encode_push(self@.subrange(0, i as int), c@);
                assert(self@.subrange(0, i as int).push(c@) =~= self@.subrange(0, i + 1));
            }
            out.append(&mut bytes.clone());
            i += 1;
        }
        assert(self@.subrange(0, self@.len() as int) =~= self@);
        out
    }

    /// One line per chunk, in order, each holding the chunk's type.
    pub fn to_string(&self) -> (r: String)
        requires
            self.wf(),
        ensures
            valid_utf8(listing(self@)) ==> r@ == decode_utf8(listing(self@)),
    {
        let mut out: Vec<u8> = Vec::new();
        let mut i: usize = 0;
        while i < self.chunks.len()
            invariant
                0 <= i <= self.chunks@.len(),
                self@.len() == self.chunks@.len(),
                out@ == listing(self@.subrange(0, i as int)),
            decreases self.chunks@.len() - i,
        {
            let c = &self.chunks[i];
            assert(c@ == self@[i as int]);
            let tag = c.chunk_type().bytes();
            let mut k: usize = 0;
            while k < 4
                invariant
                    k <= 4,
                    tag@.len() == 4,
                    out@ == listing(self@.subrange(0, i as int)) + tag@.subrange(0, k as int),
                decreases 4 - k,
            {
                out.push(tag[k]);
                k += 1;
                assert(out@ =~= listing(self@.subrange(0, i as int)) + tag@.subrange(0, k as int));
            }
            out.push(10u8);
            proof {
                let next = self@.subrange(0, i + 1);
                assert(next.drop_last() =~= self@.subrange(0, i as int));
                assert(out@ =~= listing(next));
            }
            i += 1;
        }
        assert(self@.subrange(0, self@.len() as int) =~= self@);
        lossy_text(out.as_slice())
    }

    /// Decodes a PNG file: the signature, then chunks up to its very end.
    pub fn decode(bytes: &[u8]) -> (r: Result<Png, PngError>)
        ensures
            match parse_png(bytes@) {
                Ok(ms) => r is Ok && r->Ok_0@ == ms && r->Ok_0.wf(),
                Err(e) => r == Err::<Png, PngError>(e),
            },
    {
        if bytes.len() < 8 {
            return Err(PngError::BadSignature);
        }
        let mut k: usize = 0;
        while k < 8
            invariant
                k <= 8 <= bytes@.len(),
                forall|j: int| 0 <= j < k ==> bytes@[j] == signature()[j],
            decreases 8 - k,
        {
            if bytes[k] != STANDARD_HEADER[k] {
                assert(bytes@.subrange(0, 8)[k as int] != signature()[k as int]);
                return Err(PngError::BadSignature);
            }
            k += 1;
        }
        assert(bytes@.subrange(0, 8) =~= signature());
        let ghost s = bytes@;
        let mut chunks: Vec<Chunk> = Vec::new();
        let mut pos: usize = 8;
        while pos < bytes.len()
            invariant
                s == bytes@,
                8 <= pos <= s.len(),
                s.len() >= 8 && s.subrange(0, 8) == signature(),
                forall|i: int| 0 <= i < chunks@.len() ==> (#[trigger] chunks@[i]).wf(),
                parse_png(s) == prepend(
                    chunks@.map_values(|c: Chunk| c@),
                    parse_chunks(s.subrange(pos as int, s.len() as int)),
                ),
            decreases s.len() - pos,
        {
            let ghost tail = s.subrange(pos as int, s.len() as int);
            let ghost before = chunks@.map_values(|c: Chunk| c@);
            match Chunk::decode_at(bytes, pos) {
                Err(e) => {
                    return Err(e);
                },
                Ok(c) => {
                    let ghost m = c@;
                    let step = 12 + c.length() as usize;
                    assert(tail.subrange(12 + m.data.len() as int, tail.len() as int) =~= s.subrange(
                        (pos + step) as int,
                        s.len() as int,
                    ));
                    chunks.push(c);
                    pos = pos + step;
                    proof {
                        assert(chunks@.map_values(|c: Chunk| c@) =~= before.push(m));
                        match parse_chunks(s.subrange(pos as int, s.len() as int)) {
                            Ok(r) => assert(before + (seq![m] + r) =~= before.push(m) + r),
                            Err(_) => {},
                        }
                    }
                },
            }
        }
        assert(s.subrange(pos as int, s.len() as int) =~= Seq::<u8>::empty());
        assert(chunks@.map_values(|c: Chunk| c@) + Seq::<ChunkModel>::empty() =~= chunks@.map_values(|c: Chunk| c@));
        let png = Png { chunks };
        Ok(png)
    }
}

} // verus!
