//! Big-endian 32-bit fields of the wire format: the length and checksum of a
//! record are each written as 4 bytes, most significant first.

use vstd::prelude::*;

verus! {

/// The integer that a big-endian run of 4 bytes denotes.
pub open spec fn be32_val(s: Seq<u8>) -> int
    recommends
        s.len() == 4,
{
    s[0] * 0x1000000 + s[1] * 0x10000 + s[2] * 0x100 + s[3]
}

/// The 4 big-endian bytes of `x`.
pub open spec fn be32_bytes(x: u32) -> Seq<u8> {
    seq![
        (x / 0x1000000) as u8,
        ((x / 0x10000) % 0x100) as u8,
        ((x / 0x100) % 0x100) as u8,
        (x % 0x100) as u8,
    ]
}

/// Writing an integer big-endian and reading the bytes back denotes the
/// same integer.
pub proof fn lemma_be32_round_trip(x: u32)
    ensures
        be32_bytes(x).len() == 4,
        be32_val(be32_bytes(x)) == x,
{
    assert(be32_val(be32_bytes(x)) == x) by (nonlinear_arith);
}

/// Reads a 4-byte big-endian integer.
pub fn u32_from_be(s: &[u8]) -> (r: u32)
    requires
        s@.len() == 4,
    ensures
        r == be32_val(s@),
{
    let r: u32 = (s[0] as u32) * 0x1000000 + (s[1] as u32) * 0x10000 + (s[2] as u32) * 0x100 + (
    s[3] as u32);
    r
}

/// Writes `x` as 4 big-endian bytes.
pub fn u32_to_be(x: u32) -> (r: [u8; 4])
    ensures
        r@ == be32_bytes(x),
        be32_val(r@) == x,
{
    let r = [(x / 0x1000000) as u8, ((x / 0x10000) % 0x100) as u8, ((x / 0x100) % 0x100) as u8, (x
        % 0x100) as u8];
    proof {
        assert(r@ =~= be32_bytes(x));
        lemma_be32_round_trip(x);
    }
    r
}

} // verus!
