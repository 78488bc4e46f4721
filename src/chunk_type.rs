use vstd::prelude::*;
use vstd::string::StringSliceAdditionalSpecFns;
use vstd::utf8::{decode_utf8, valid_utf8};

verus! {

/// Bit 5 of each type byte carries one of the four property flags.
pub const FLAG_MASK: u8 = 0x20;

/// `b` is an ASCII letter, `A`-`Z` or `a`-`z`.
pub open spec fn is_letter(b: u8) -> bool {
    (65 <= b && b <= 90) || (97 <= b && b <= 122)
}

/// Every byte of `s` is an ASCII letter.
pub open spec fn all_letters(s: Seq<u8>) -> bool {
    forall|i: int| 0 <= i < s.len() ==> is_letter(#[trigger] s[i])
}

/// The property bit (bit 5) of `b` is set.
pub open spec fn flag_set(b: u8) -> bool {
    b & FLAG_MASK != 0
}

/// `s` is acceptable as the text of a chunk type: four ASCII letters.
pub open spec fn is_type_text(s: Seq<u8>) -> bool {
    s.len() == 4 && all_letters(s)
}

/// The bytes of a valid chunk type: ASCII letters, with the reserved bit of
/// the third clear.
pub open spec fn is_valid_type(s: Seq<u8>) -> bool {
    all_letters(s) && !flag_set(s[2])
}

/// The four bytes that name the type of a chunk.
#[derive(Debug, Clone, Copy, PartialEq, Eq)]
pub struct ChunkType {
    bytes: [u8; 4],
}

/// The error of building a chunk type from text that is not four ASCII letters.
#[derive(Debug, Clone, Copy, PartialEq, Eq)]
pub struct InvalidChunkTypeError;

impl View for ChunkType {
    type V = Seq<u8>;

    closed spec fn view(&self) -> Seq<u8> {
        self.bytes@
    }
}

/// Relies on String::from_utf8_lossy: valid UTF-8 is decoded unchanged.
#[verifier::external_body]
pub(crate) fn lossy_text(b: &[u8]) -> (r: String)
    ensures
        valid_utf8(b@) ==> r@ == decode_utf8(b@),
{
    String::from_utf8_lossy(b).into_owned()
}

impl ChunkType {
    /// Every chunk type has four bytes.
    pub proof fn lemma_len(&self)
        ensures
            self@.len() == 4,
    {
    }

    /// A chunk type of four ASCII letters is valid exactly when its reserved
    /// bit is clear.
    pub proof fn lemma_letters_valid_iff_reserved(&self)
        requires
            all_letters(self@),
        ensures
            is_valid_type(self@) <==> !flag_set(self@[2]),
    {
    }

    /// Builds a chunk type from any four bytes; letters are not required here.
    pub fn from_bytes(bytes: [u8; 4]) -> (r: ChunkType)
        ensures
            r@ == bytes@,
    {
        ChunkType { bytes }
    }

    /// Builds a chunk type from text, which must be exactly four ASCII letters.
    pub fn from_str(s: &str) -> (r: Result<ChunkType, InvalidChunkTypeError>)
        ensures
            r is Ok <==> is_type_text(s.spec_bytes()),
            r is Ok ==> r->Ok_0@ == s.spec_bytes(),
    {
        let b = s.as_bytes();
        if b.len() != 4 {
            return Err(InvalidChunkTypeError);
        }
        let bytes: [u8; 4] = [b[0], b[1], b[2], b[3]];
        let t = ChunkType { bytes };
        if !t.all_letters() {
            return Err(InvalidChunkTypeError);
        }
        assert(t@ =~= b@);
        Ok(t)
    }

    pub fn bytes(&self) -> (r: [u8; 4])
        ensures
            r@ == self@,
    {
        self.bytes
    }

    /// Bit 5 of the first byte is clear.
    pub fn is_critical(&self) -> (r: bool)
        ensures
            r == !flag_set(self@[0]),
    {
        self.bytes[0] & FLAG_MASK == 0
    }

    /// Bit 5 of the second byte is clear.
    pub fn is_public(&self) -> (r: bool)
        ensures
            r == !flag_set(self@[1]),
    {
        self.bytes[1] & FLAG_MASK == 0
    }

    /// Bit 5 of the third byte is clear.
    pub fn is_reserved_bit_valid(&self) -> (r: bool)
        ensures
            r == !flag_set(self@[2]),
    {
        self.bytes[2] & FLAG_MASK == 0
    }

    /// Bit 5 of the fourth byte is set.
    pub fn is_safe_to_copy(&self) -> (r: bool)
        ensures
            r == flag_set(self@[3]),
    {
        self.bytes[3] & FLAG_MASK != 0
    }

    fn all_letters(&self) -> (r: bool)
        ensures
            r == all_letters(self@),
    {
        let mut i: usize = 0;
        while i < 4
            invariant
                i <= 4,
                forall|j: int| 0 <= j < i ==> is_letter(#[trigger] self@[j]),
            decreases 4 - i,
        {
            if !ChunkType::is_valid_byte(self.bytes[i]) {
                return false;
            }
            i += 1;
        }
        true
    }

    /// All four bytes are ASCII letters and the reserved bit is clear.
    pub fn is_valid(&self) -> (r: bool)
        ensures
            r == is_valid_type(self@),
    {
        self.all_letters() && self.is_reserved_bit_valid()
    }

    pub fn is_valid_byte(byte: u8) -> (r: bool)
        ensures
            r == is_letter(byte),
    {
        (65 <= byte && byte <= 90) || (97 <= byte && byte <= 122)
    }

    /// The type's text form, its bytes read as UTF-8.
    pub fn to_string(&self) -> (r: String)
        ensures
            valid_utf8(self@) ==> r@ == decode_utf8(self@),
    {
        lossy_text(self.bytes.as_slice())
    }

    /// The type's bytes are exactly those of `s`.
    pub fn matches(&self, s: &str) -> (r: bool)
        ensures
            r == (self@ == s.spec_bytes()),
    {
        let b = s.as_bytes();
        if b.len() != 4 {
            return false;
        }
        let mut i: usize = 0;
        while i < 4
            invariant
                i <= 4,
                b@.len() == 4,
                b@ == s.spec_bytes(),
                forall|j: int| 0 <= j < i ==> self@[j] == b@[j],
            decreases 4 - i,
        {
            if self.bytes[i] != b[i] {
                return false;
            }
            i += 1;
        }
        assert(self@ =~= b@);
        true
    }
}

impl From<[u8; 4]> for ChunkType {
    fn from(bytes: [u8; 4]) -> (r: ChunkType) {
        ChunkType { bytes }
    }
}

impl vstd::std_specs::convert::FromSpecImpl<[u8; 4]> for ChunkType {
    open spec fn obeys_from_spec() -> bool {
        true
    }

    closed spec fn from_spec(bytes: [u8; 4]) -> ChunkType {
        ChunkType { bytes }
    }
}

impl std::str::FromStr for ChunkType {
    type Err = InvalidChunkTypeError;

    fn from_str(s: &str) -> Result<ChunkType, InvalidChunkTypeError> {
        ChunkType::from_str(s)
    }
}

} // verus!
