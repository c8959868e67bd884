//! The CRC-32/IEEE digest that guards every chunk record.
//!
//! The digest itself is computed by the `crc` crate; this module gives its
//! result a name, [`crc32_of`], that the record contracts are stated over.

use vstd::prelude::*;

verus! {

/// The CRC-32/IEEE digest of a byte sequence, a function of the bytes alone.
pub uninterp spec fn crc32_of(bytes: Seq<u8>) -> u32;

/// Relies on `crc::crc32::checksum_ieee`: the CRC-32/IEEE digest of the
/// buffer, determined by the buffer's bytes alone.
#[verifier::external_body]
pub(crate) fn crc32_checksum(bytes: &Vec<u8>) -> (r: u32)
    ensures
        r == crc32_of(bytes@),
{
    crc::crc32::checksum_ieee(bytes.as_slice())
}

} // verus!
