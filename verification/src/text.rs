//! Text extraction: turning byte payloads and type codes into `String`s.
//!
//! Decoding is done by `String::from_utf8`; its contract is stated over
//! vstd's UTF-8 model, so callers can reason about the decoded characters.

use vstd::prelude::*;
use vstd::utf8::decode_utf8;
use vstd::utf8::valid_utf8;

verus! {

/// The characters that a run of ASCII bytes denotes, one per byte.
pub open spec fn ascii_chars_of(b: Seq<u8>) -> Seq<char> {
    Seq::new(b.len(), |i: int| b[i] as char)
}

/// Relies on `String::from_utf8`: decodes the buffer exactly when it is
/// valid UTF-8, to the character sequence the bytes encode.
#[verifier::external_body]
pub(crate) fn string_of_utf8(bytes: Vec<u8>) -> (r: Option<String>)
    ensures
        r matches Some(s) ==> valid_utf8(bytes@) && s@ == decode_utf8(bytes@),
        r is None ==> !valid_utf8(bytes@),
{
    String::from_utf8(bytes).ok()
}

/// A run of ASCII bytes is valid UTF-8 and decodes to one character per
/// byte.
pub proof fn lemma_ascii_decodes_to_itself(b: Seq<u8>)
    requires
        forall|i: int| 0 <= i < b.len() ==> #[trigger] b[i] < 0x80,
    ensures
        valid_utf8(b),
        decode_utf8(b) == ascii_chars_of(b),
    decreases b.len(),
{
    if b.len() == 0 {
        assert(decode_utf8(b) =~= ascii_chars_of(b));
    } else {
        let b0 = b[0];
        assert(b0 & 0x7f == b0) by (bit_vector)
            requires
                b0 < 0x80,
        ;
        assert(vstd::utf8::valid_first_scalar(b));
        assert(vstd::utf8::length_of_first_scalar(b) == 1);
        let rest = vstd::utf8::pop_first_scalar(b);
        assert(forall|i: int| 0 <= i < rest.len() ==> #[trigger] rest[i] < 0x80);
        lemma_ascii_decodes_to_itself(rest);
        assert(vstd::utf8::decode_first_scalar(b) == b0 as u32);
        assert((b0 as u32) as char == b0 as char);
        assert(decode_utf8(b) =~= ascii_chars_of(b));
    }
}

} // verus!
