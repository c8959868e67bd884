//! The 4-byte chunk type code: four ASCII letters whose casing encodes four
//! independent property bits.

use vstd::prelude::*;
use vstd::string::StringSliceAdditionalSpecFns;

use crate::PngError;

verus! {

/// True when `b` is an ASCII letter, upper or lower case.
pub open spec fn is_ascii_letter(b: u8) -> bool {
    (65 <= b && b <= 90) || (97 <= b && b <= 122)
}

/// True when every byte of `b` is an ASCII letter.
pub open spec fn all_ascii_letters(b: Seq<u8>) -> bool {
    forall|i: int| 0 <= i < b.len() ==> is_ascii_letter(#[trigger] b[i])
}

/// A validated 4-byte chunk type code.
///
/// Invariant ([`ChunkType::wf`]): all four bytes are ASCII letters.  Bit
/// `0x20` of each byte (its lower-case bit) is a semantic flag: ancillary,
/// private, reserved-bit validity, and safe-to-copy, in byte order.
#[derive(Debug, Clone, Copy, PartialEq, Eq, Structural)]
pub struct ChunkType {
    ancillary: u8,
    private: u8,
    reserved: u8,
    copy_safe: u8,
}

impl ChunkType {
    /// The four bytes of the code, in order.
    pub closed spec fn bytes_seq(self) -> Seq<u8> {
        seq![self.ancillary, self.private, self.reserved, self.copy_safe]
    }

    /// Well-formedness: every byte is an ASCII letter.
    pub open spec fn wf(self) -> bool {
        all_ascii_letters(self.bytes_seq())
    }

    /// Builds a type code from 4 raw bytes; rejects any byte that is not an
    /// ASCII letter.
    pub fn from_bytes(type_code: [u8; 4]) -> (r: Result<ChunkType, PngError>)
        ensures
            r is Ok <==> all_ascii_letters(type_code@),
            r matches Ok(t) ==> t.bytes_seq() == type_code@ && t.wf(),
            r is Err ==> r == Err::<ChunkType, PngError>(PngError::InvalidTypeCode),
    {
        let b0 = type_code[0];
        let b1 = type_code[1];
        let b2 = type_code[2];
        let b3 = type_code[3];
        if is_letter(b0) && is_letter(b1) && is_letter(b2) && is_letter(b3) {
            let t = ChunkType { ancillary: b0, private: b1, reserved: b2, copy_safe: b3 };
            proof {
                assert(t.bytes_seq() =~= type_code@);
            }
            Ok(t)
        } else {
            proof {
                assert(type_code@.len() == 4);
            }
            Err(PngError::InvalidTypeCode)
        }
    }

    /// Parses a type code from text; rejects anything but exactly 4 ASCII
    /// letters.  Equivalent to [`ChunkType::from_bytes`] on the encoded
    /// characters.
    pub fn from_text(s: &str) -> (r: Result<ChunkType, PngError>)
        ensures
            r is Ok <==> (s.spec_bytes().len() == 4 && all_ascii_letters(s.spec_bytes())),
            r matches Ok(t) ==> t.bytes_seq() == s.spec_bytes() && t.wf(),
            r is Err ==> r == Err::<ChunkType, PngError>(PngError::InvalidTypeCode),
    {
        let b = s.as_bytes();
        if b.len() != 4 {
            return Err(PngError::InvalidTypeCode);
        }
        let r = Self::from_bytes([b[0], b[1], b[2], b[3]]);
        proof {
            assert([s.spec_bytes()[0], s.spec_bytes()[1], s.spec_bytes()[2], s.spec_bytes()[3]]@
                =~= s.spec_bytes());
        }
        r
    }

    /// The 4 raw bytes, unchanged.
    pub fn bytes(&self) -> (r: [u8; 4])
        ensures
            r@ == self.bytes_seq(),
    {
        let r = [self.ancillary, self.private, self.reserved, self.copy_safe];
        proof {
            assert(r@ =~= self.bytes_seq());
        }
        r
    }

    /// Renders the code as its 4-character text, one character per byte.
    /// Always round-trips, since every byte is guaranteed ASCII.
    pub fn to_text(&self) -> (r: String)
        requires
            self.wf(),
        ensures
            r@ == crate::text::ascii_chars_of(self.bytes_seq()),
            vstd::utf8::encode_utf8(r@) == self.bytes_seq(),
            r@.len() == 4,
    {
        let bytes = self.bytes();
        let v = vstd::slice::slice_to_vec(bytes.as_slice());
        proof {
            assert(forall|i: int| 0 <= i < v@.len() ==> #[trigger] v@[i] < 0x80);
            crate::text::lemma_ascii_decodes_to_itself(v@);
            vstd::utf8::decode_utf8_encode_utf8(v@);
        }
        match crate::text::string_of_utf8(v) {
            Some(s) => s,
            None => String::new(),
        }
    }

    /// Byte 0 upper case: the chunk is critical rather than ancillary.
    pub open spec fn spec_is_critical(self) -> bool {
        self.bytes_seq()[0] & 0x20 == 0
    }

    pub fn is_critical(&self) -> (r: bool)
        ensures
            r == self.spec_is_critical(),
    {
        self.ancillary & 0x20 == 0
    }

    /// Byte 1 upper case: the chunk is public rather than private.
    pub open spec fn spec_is_public(self) -> bool {
        self.bytes_seq()[1] & 0x20 == 0
    }

    pub fn is_public(&self) -> (r: bool)
        ensures
            r == self.spec_is_public(),
    {
        self.private & 0x20 == 0
    }

    /// Byte 2 upper case: the reserved bit is clear, as the format requires.
    pub open spec fn spec_is_reserved_bit_valid(self) -> bool {
        self.bytes_seq()[2] & 0x20 == 0
    }

    pub fn is_reserved_bit_valid(&self) -> (r: bool)
        ensures
            r == self.spec_is_reserved_bit_valid(),
    {
        self.reserved & 0x20 == 0
    }

    /// Overall validity: an alias for the reserved-bit check, since
    /// construction already guarantees the bytes are letters.
    pub fn is_valid(&self) -> (r: bool)
        ensures
            r == self.spec_is_reserved_bit_valid(),
    {
        self.reserved & 0x20 == 0
    }

    /// Byte 3 lower case: the chunk is safe to copy.
    pub open spec fn spec_is_safe_to_copy(self) -> bool {
        self.bytes_seq()[3] & 0x20 != 0
    }

    pub fn is_safe_to_copy(&self) -> (r: bool)
        ensures
            r == self.spec_is_safe_to_copy(),
    {
        self.copy_safe & 0x20 != 0
    }
}

/// A type code always has exactly 4 bytes.
pub broadcast proof fn lemma_bytes_seq_len(t: ChunkType)
    ensures
        (#[trigger] t.bytes_seq()).len() == 4,
{
}

/// Exec twin of [`is_ascii_letter`].
fn is_letter(b: u8) -> (r: bool)
    ensures
        r == is_ascii_letter(b),
{
    (65 <= b && b <= 90) || (97 <= b && b <= 122)
}

} // verus!
