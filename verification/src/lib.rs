//! A verified codec for the PNG chunk format: validated 4-byte chunk type
//! codes, CRC-checked chunk records, and an ordered chunk container behind
//! the fixed file signature.

use vstd::prelude::*;

pub mod checksum;
pub mod chunk;
pub mod chunk_type;
pub mod png;
pub mod text;
pub mod wire;

verus! {

/// One typed failure per way a codec operation can go wrong.
///
/// Every fallible operation of this crate returns exactly one of these;
/// there is no local recovery, and the variant names the condition that
/// was violated.
#[derive(Debug, Clone, Copy, PartialEq, Eq, Structural)]
pub enum PngError {
    /// A chunk type code held a byte outside the ASCII alphabetic range.
    InvalidTypeCode,
    /// A buffer ended before the record it declares was complete.
    TruncatedRecord,
    /// A stored checksum differed from the one recomputed over the record.
    ChecksumMismatch { stored: u32, computed: u32 },
    /// A buffer did not begin with the canonical signature.
    BadSignature,
    /// A payload was not valid UTF-8 when text extraction was requested.
    InvalidEncoding,
    /// A removal target was absent from the container.
    ChunkNotFound,
}

} // verus!
