//! One chunk record: a length-prefixed, CRC-checked run of bytes.
//!
//! Wire layout, byte-exact: `length (4, big-endian) | type (4) |
//! payload (length) | checksum (4, big-endian)`, where the checksum is
//! CRC-32/IEEE over the type bytes followed by the payload.

use vstd::prelude::*;
use vstd::utf8::decode_utf8;
use vstd::utf8::valid_utf8;

use crate::PngError;
use crate::checksum::crc32_checksum;
use crate::checksum::crc32_of;
use crate::chunk_type::ChunkType;
use crate::chunk_type::all_ascii_letters;
use crate::wire::be32_bytes;
use crate::wire::be32_val;
use crate::wire::lemma_be32_round_trip;
use crate::wire::u32_from_be;
use crate::wire::u32_to_be;

verus! {

broadcast use crate::chunk_type::lemma_bytes_seq_len;

/// The mathematical content of one record: its declared length, the 4 type
/// bytes, the payload, and the stored checksum.
#[verifier::ext_equal]
pub struct RecordModel {
    pub len: u32,
    pub type_bytes: Seq<u8>,
    pub data: Seq<u8>,
    pub crc: u32,
}

impl RecordModel {
    /// Well-formedness: the type bytes are 4 ASCII letters, the declared
    /// length equals the payload length, and the checksum is the digest of
    /// the type bytes followed by the payload.
    pub open spec fn wf(self) -> bool {
        &&& all_ascii_letters(self.type_bytes)
        &&& self.type_bytes.len() == 4
        &&& self.len == self.data.len()
        &&& self.crc == crc32_of(checksum_input(self.type_bytes, self.data))
    }

    /// The record's wire form: `length | type | payload | checksum`.
    pub open spec fn spec_serialize(self) -> Seq<u8> {
        be32_bytes(self.len) + self.type_bytes + self.data + be32_bytes(self.crc)
    }
}

/// One length/type/payload/checksum record.
///
/// Invariant ([`Chunk::wf`]): the type bytes are ASCII letters, the declared
/// length equals the payload length, and the checksum is the CRC-32/IEEE
/// digest of the type bytes followed by the payload.  Both constructors
/// establish it: [`Chunk::new`] computes the checksum, [`Chunk::parse`]
/// verifies it.
#[derive(Debug)]
pub struct Chunk {
    len: u32,
    chunk_type: ChunkType,
    data: Vec<u8>,
    crc: u32,
}

impl View for Chunk {
    type V = RecordModel;

    closed spec fn view(&self) -> RecordModel {
        RecordModel {
            len: self.len,
            type_bytes: self.chunk_type.bytes_seq(),
            data: self.data@,
            crc: self.crc,
        }
    }
}

/// The bytes the checksum is computed over: the type bytes, then the payload.
pub open spec fn checksum_input(type_bytes: Seq<u8>, data: Seq<u8>) -> Seq<u8> {
    type_bytes + data
}

// What a byte sequence holds when read as one record: the declared payload
// length, the four regions, and the conditions under which the read succeeds.
/// The payload length a record's first 4 bytes declare.
pub open spec fn rec_len(s: Seq<u8>) -> int
    recommends
        s.len() >= 4,
{
    be32_val(s.subrange(0, 4))
}

/// The whole record's size on the wire: 12 framing bytes plus the payload.
pub open spec fn rec_total(s: Seq<u8>) -> int
    recommends
        s.len() >= 4,
{
    12 + rec_len(s)
}

/// The 4 type bytes of a record.
pub open spec fn rec_type_bytes(s: Seq<u8>) -> Seq<u8>
    recommends
        s.len() >= 8,
{
    s.subrange(4, 8)
}

/// The payload of a record.
pub open spec fn rec_data(s: Seq<u8>) -> Seq<u8>
    recommends
        s.len() >= rec_total(s),
{
    s.subrange(8, 8 + rec_len(s))
}

/// The checksum stored in a record's trailing 4 bytes.
pub open spec fn rec_stored_crc(s: Seq<u8>) -> int
    recommends
        s.len() >= rec_total(s),
{
    be32_val(s.subrange(8 + rec_len(s), rec_total(s)))
}

/// The checksum recomputed over a record's type bytes and payload.
pub open spec fn rec_computed_crc(s: Seq<u8>) -> u32
    recommends
        s.len() >= rec_total(s),
{
    crc32_of(checksum_input(rec_type_bytes(s), rec_data(s)))
}

/// The buffer has room for the 8-byte header.
pub open spec fn rec_header_ok(s: Seq<u8>) -> bool {
    s.len() >= 8
}

/// The type bytes are ASCII letters.
pub open spec fn rec_type_ok(s: Seq<u8>) -> bool {
    rec_header_ok(s) && all_ascii_letters(rec_type_bytes(s))
}

/// The buffer has room for the whole record.
pub open spec fn rec_complete(s: Seq<u8>) -> bool {
    rec_header_ok(s) && s.len() >= rec_total(s)
}

/// The stored checksum equals the recomputed one.
pub open spec fn rec_crc_ok(s: Seq<u8>) -> bool {
    rec_stored_crc(s) == rec_computed_crc(s)
}

/// Reading one record from `s` succeeds.
pub open spec fn rec_ok(s: Seq<u8>) -> bool {
    rec_header_ok(s) && rec_type_ok(s) && rec_complete(s) && rec_crc_ok(s)
}

/// The failure reading one record from `s` reports, checked in wire order:
/// header room, type validity, payload room, checksum.
pub open spec fn rec_err(s: Seq<u8>) -> PngError
    recommends
        !rec_ok(s),
{
    if !rec_header_ok(s) {
        PngError::TruncatedRecord
    } else if !rec_type_ok(s) {
        PngError::InvalidTypeCode
    } else if !rec_complete(s) {
        PngError::TruncatedRecord
    } else {
        PngError::ChecksumMismatch {
            stored: rec_stored_crc(s) as u32,
            computed: rec_computed_crc(s),
        }
    }
}

impl Chunk {
    /// Well-formedness: see the type's doc comment.
    pub open spec fn wf(self) -> bool {
        self@.wf()
    }

    /// The record's wire form.
    pub open spec fn spec_serialize(self) -> Seq<u8> {
        self@.spec_serialize()
    }

    /// Builds a record from a type code and a payload; the length is derived
    /// from the payload and the checksum is computed, never supplied.
    pub fn new(chunk_type: ChunkType, data: Vec<u8>) -> (r: Chunk)
        requires
            data@.len() <= u32::MAX,
        ensures
            r@.type_bytes == chunk_type.bytes_seq(),
            r@.data == data@,
            r@.len == data@.len(),
            r@.crc == crc32_of(checksum_input(chunk_type.bytes_seq(), data@)),
            chunk_type.wf() ==> r.wf(),
    {
        let crc = compute_crc(&chunk_type, data.as_slice());
        let len = data.len() as u32;
        Chunk { len, chunk_type, data, crc }
    }

    /// The declared payload length.
    pub fn length(&self) -> (r: u32)
        ensures
            r == self@.len,
    {
        self.len
    }

    /// The record's type code, for inspection only.
    pub fn chunk_type(&self) -> (r: &ChunkType)
        ensures
            r.bytes_seq() == self@.type_bytes,
    {
        &self.chunk_type
    }

    /// The payload, for inspection only.
    pub fn data(&self) -> (r: &[u8])
        ensures
            r@ == self@.data,
    {
        self.data.as_slice()
    }

    /// The stored checksum.
    pub fn crc(&self) -> (r: u32)
        ensures
            r == self@.crc,
    {
        self.crc
    }

    /// Decodes the payload as text; fails exactly when it is not valid
    /// UTF-8.
    pub fn data_as_string(&self) -> (r: Result<String, PngError>)
        ensures
            r is Ok <==> valid_utf8(self@.data),
            r matches Ok(s) ==> s@ == decode_utf8(self@.data),
            r is Err ==> r == Err::<String, PngError>(PngError::InvalidEncoding),
    {
        let copy = vstd::slice::slice_to_vec(self.data.as_slice());
        match crate::text::string_of_utf8(copy) {
            Some(s) => Ok(s),
            None => Err(PngError::InvalidEncoding),
        }
    }

    /// Serializes the record to its wire form, `12 + length` bytes.
    pub fn as_bytes(&self) -> (r: Vec<u8>)
        ensures
            r@ == self.spec_serialize(),
            r@.len() == 12 + self@.data.len(),
    {
        let mut out: Vec<u8> = Vec::new();
        let len_bytes = u32_to_be(self.len);
        out.extend_from_slice(len_bytes.as_slice());
        let type_bytes = self.chunk_type.bytes();
        out.extend_from_slice(type_bytes.as_slice());
        out.extend_from_slice(self.data.as_slice());
        let crc_bytes = u32_to_be(self.crc);
        out.extend_from_slice(crc_bytes.as_slice());
        proof {
            assert(out@ =~= self.spec_serialize());
        }
        out
    }

    /// Reads one record from the front of `buf` and reports how many bytes
    /// it consumed, so a caller can continue with the rest of the buffer.
    ///
    /// The checksum is recomputed and held against the stored one: a record
    /// that does not verify is rejected, never returned.
    pub fn parse(buf: &[u8]) -> (r: Result<(Chunk, usize), PngError>)
        ensures
            r is Ok <==> rec_ok(buf@),
            r matches Ok((c, n)) ==> {
                &&& c.wf()
                &&& c@ == rec_model(buf@)
                &&& c@.type_bytes == rec_type_bytes(buf@)
                &&& c@.data == rec_data(buf@)
                &&& c@.len == rec_len(buf@)
                &&& c@.crc == rec_stored_crc(buf@)
                &&& n == rec_total(buf@)
                &&& 12 <= n <= buf@.len()
            },
            !rec_ok(buf@) ==> r == Err::<(Chunk, usize), PngError>(rec_err(buf@)),
    {
        if buf.len() < 8 {
            return Err(PngError::TruncatedRecord);
        }
        let len = u32_from_be(&buf[0..4]);
        let type_array = [buf[4], buf[5], buf[6], buf[7]];
        proof {
            assert(type_array@ =~= rec_type_bytes(buf@));
        }
        let chunk_type = match ChunkType::from_bytes(type_array) {
            Ok(t) => t,
            Err(e) => {
                return Err(e);
            },
        };
        if buf.len() < 12 || buf.len() - 12 < len as usize {
            return Err(PngError::TruncatedRecord);
        }
        let data_end: usize = 8 + len as usize;
        let data = vstd::slice::slice_to_vec(&buf[8..data_end]);
        let stored = u32_from_be(&buf[data_end..data_end + 4]);
        proof {
            assert(buf@.subrange(data_end as int, data_end + 4) =~= buf@.subrange(
                8 + rec_len(buf@),
                rec_total(buf@),
            ));
        }
        let computed = compute_crc(&chunk_type, data.as_slice());
        if stored != computed {
            return Err(PngError::ChecksumMismatch { stored, computed });
        }
        let c = Chunk { len, chunk_type, data, crc: stored };
        proof {
            assert(c@ =~= rec_model(buf@));
        }
        Ok((c, 12 + len as usize))
    }
}

/// The CRC-32/IEEE digest over a type code's bytes followed by a payload.
fn compute_crc(chunk_type: &ChunkType, data: &[u8]) -> (r: u32)
    ensures
        r == crc32_of(checksum_input(chunk_type.bytes_seq(), data@)),
{
    let mut input: Vec<u8> = Vec::new();
    let type_bytes = chunk_type.bytes();
    input.extend_from_slice(type_bytes.as_slice());
    input.extend_from_slice(data);
    proof {
        assert(input@ =~= checksum_input(chunk_type.bytes_seq(), data@));
    }
    crc32_checksum(&input)
}

/// The record a byte sequence holds, assuming reading it succeeds.
pub open spec fn rec_model(s: Seq<u8>) -> RecordModel
    recommends
        rec_ok(s),
{
    RecordModel {
        len: rec_len(s) as u32,
        type_bytes: rec_type_bytes(s),
        data: rec_data(s),
        crc: rec_stored_crc(s) as u32,
    }
}

/// A well-formed record's wire form, read back as a record and possibly
/// followed by further bytes, yields the record it came from and consumes
/// exactly its own bytes.
pub proof fn lemma_record_parses_back(m: RecordModel, tail: Seq<u8>)
    requires
        m.wf(),
    ensures
        ({
            let s = m.spec_serialize() + tail;
            &&& rec_ok(s)
            &&& rec_model(s) == m
            &&& rec_total(s) == m.spec_serialize().len()
            &&& s.skip(rec_total(s)) == tail
        }),
{
    let ser = m.spec_serialize();
    let s = ser + tail;
    lemma_be32_round_trip(m.len);
    lemma_be32_round_trip(m.crc);
    assert(ser.len() == 12 + m.data.len());
    assert(s.subrange(0, 4) =~= be32_bytes(m.len));
    assert(rec_len(s) == m.len);
    assert(rec_type_bytes(s) =~= m.type_bytes);
    assert(rec_data(s) =~= m.data);
    assert(s.subrange(8 + rec_len(s), rec_total(s)) =~= be32_bytes(m.crc));
    assert(checksum_input(rec_type_bytes(s), rec_data(s)) == checksum_input(m.type_bytes, m.data));
    assert(rec_model(s) =~= m);
    assert(s.skip(rec_total(s)) =~= tail);
}

/// Round-trip law: the wire form of a record built from a valid type code
/// and a payload reads back successfully, to the same type, payload, length,
/// and checksum.
pub proof fn lemma_chunk_round_trip(c: Chunk)
    requires
        c.wf(),
    ensures
        rec_ok(c.spec_serialize()),
        rec_model(c.spec_serialize()) == c@,
        rec_len(c.spec_serialize()) == c@.len,
        rec_type_bytes(c.spec_serialize()) == c@.type_bytes,
        rec_data(c.spec_serialize()) == c@.data,
        rec_stored_crc(c.spec_serialize()) == c@.crc,
        rec_total(c.spec_serialize()) == c.spec_serialize().len(),
{
    lemma_record_parses_back(c@, Seq::empty());
    assert(c.spec_serialize() + Seq::<u8>::empty() =~= c.spec_serialize());
}

/// A record's wire form with one bit flipped at bit position `bit` of byte
/// `k`, counting bytes from the start of the record.
pub open spec fn flip_bit(s: Seq<u8>, k: int, bit: u8) -> Seq<u8>
    recommends
        0 <= k < s.len(),
        bit < 8,
{
    s.update(k, s[k] ^ (1u8 << bit))
}

/// Checksum-sensitivity law: flipping a single bit inside the serialized
/// type or payload region, without touching the trailing checksum field,
/// makes the read fail with `ChecksumMismatch` — stated for flips that keep
/// the type bytes alphabetic (a flip that does not is rejected earlier, as
/// `InvalidTypeCode`) and that change the recomputed digest, which is all
/// the digest's opacity lets one say.
pub proof fn lemma_checksum_sensitivity(c: Chunk, k: int, bit: u8)
    requires
        c.wf(),
        4 <= k < 8 + c@.data.len(),
        bit < 8,
        all_ascii_letters(rec_type_bytes(flip_bit(c.spec_serialize(), k, bit))),
        rec_computed_crc(flip_bit(c.spec_serialize(), k, bit)) != c@.crc,
    ensures
        ({
            let s = flip_bit(c.spec_serialize(), k, bit);
            &&& !rec_ok(s)
            &&& rec_err(s) == (PngError::ChecksumMismatch {
                stored: c@.crc,
                computed: rec_computed_crc(s),
            })
        }),
{
    let ser = c.spec_serialize();
    let s = flip_bit(ser, k, bit);
    lemma_be32_round_trip(c@.len);
    lemma_be32_round_trip(c@.crc);
    assert(ser.len() == 12 + c@.data.len());
    assert(s.len() == ser.len());
    assert(s.subrange(0, 4) =~= be32_bytes(c@.len));
    assert(rec_len(s) == c@.len);
    assert(rec_complete(s));
    assert(s.subrange(8 + rec_len(s), rec_total(s)) =~= be32_bytes(c@.crc));
    assert(rec_stored_crc(s) == c@.crc);
    assert(!rec_crc_ok(s));
    assert(rec_stored_crc(s) as u32 == c@.crc);
}

} // verus!
