//! The container: a fixed 8-byte signature followed by an ordered sequence
//! of chunk records.
//!
//! Loading is all-or-nothing: the signature is checked, then records are
//! read one after another until the buffer is exhausted, and any failure
//! aborts the whole load.  Mutation preserves the convention that the
//! terminal marker record (type `IEND`), if present, stays last.

use vstd::prelude::*;

use crate::PngError;
use crate::chunk::Chunk;
use crate::chunk::RecordModel;
use crate::chunk::rec_err;
use crate::chunk::rec_model;
use crate::chunk::rec_ok;
use crate::chunk::rec_total;
use vstd::string::StringSliceAdditionalSpecFns;

verus! {

broadcast use crate::chunk_type::lemma_bytes_seq_len;

/// The canonical 8-byte signature that every serialized container begins
/// with.
pub open spec fn signature_seq() -> Seq<u8> {
    seq![137u8, 80u8, 78u8, 71u8, 13u8, 10u8, 26u8, 10u8]
}

/// The type bytes of the terminal marker record, the ASCII text `IEND`.
pub open spec fn end_type() -> Seq<u8> {
    seq![73u8, 69u8, 78u8, 68u8]
}

/// The record's type bytes are exactly `t`.
pub open spec fn has_type(m: RecordModel, t: Seq<u8>) -> bool {
    m.type_bytes == t
}

/// The buffer begins with the canonical signature.
pub open spec fn sig_ok(s: Seq<u8>) -> bool {
    s.len() >= 8 && s.subrange(0, 8) == signature_seq()
}

/// Reading records one after another from `s` until it is exhausted
/// succeeds.
pub open spec fn stream_ok(s: Seq<u8>) -> bool
    decreases s.len(),
{
    if s.len() == 0 {
        true
    } else {
        rec_ok(s) && stream_ok(s.skip(rec_total(s)))
    }
}

/// The records that `s` holds, in order, up to the first failure.
pub open spec fn stream_models(s: Seq<u8>) -> Seq<RecordModel>
    recommends
        stream_ok(s),
    decreases s.len(),
{
    if s.len() == 0 {
        Seq::empty()
    } else if rec_ok(s) {
        seq![rec_model(s)] + stream_models(s.skip(rec_total(s)))
    } else {
        Seq::empty()
    }
}

/// The failure that reading records from `s` reports: the first record
/// that does not read back.
pub open spec fn stream_err(s: Seq<u8>) -> PngError
    recommends
        !stream_ok(s),
    decreases s.len(),
{
    if s.len() == 0 {
        PngError::TruncatedRecord
    } else if !rec_ok(s) {
        rec_err(s)
    } else {
        stream_err(s.skip(rec_total(s)))
    }
}

/// The wire form of a record sequence: each record's wire form, in order.
pub open spec fn serialize_records(ms: Seq<RecordModel>) -> Seq<u8>
    decreases ms.len(),
{
    if ms.len() == 0 {
        Seq::empty()
    } else {
        ms[0].spec_serialize() + serialize_records(ms.drop_first())
    }
}

/// The models of a run of records, in order.
pub open spec fn records_of(cs: Seq<Chunk>) -> Seq<RecordModel> {
    Seq::new(cs.len(), |i: int| cs[i]@)
}

/// An ordered sequence of records behind the fixed signature.
///
/// The container owns its records: callers receive references for
/// inspection only, and every mutation goes through the container's own
/// operations.
#[derive(Debug)]
pub struct Png {
    chunks: Vec<Chunk>,
}

impl View for Png {
    type V = Seq<RecordModel>;

    closed spec fn view(&self) -> Seq<RecordModel> {
        records_of(self.chunks@)
    }
}

impl Png {
    /// Well-formedness: every record is well-formed.
    pub open spec fn wf(self) -> bool {
        forall|i: int| 0 <= i < self@.len() ==> (#[trigger] self@[i]).wf()
    }

    /// The container's wire form: the signature, then each record in order.
    pub open spec fn spec_serialize(self) -> Seq<u8> {
        signature_seq() + serialize_records(self@)
    }

    /// Loads a container from a byte buffer: the signature is checked, then
    /// records are read until the buffer is exhausted.  Any failure aborts
    /// the whole load and is reported unchanged.
    pub fn try_from_bytes(buf: &[u8]) -> (r: Result<Png, PngError>)
        ensures
            r is Ok <==> (sig_ok(buf@) && stream_ok(buf@.skip(8))),
            r matches Ok(p) ==> p.wf() && p@ == stream_models(buf@.skip(8)),
            !sig_ok(buf@) ==> r == Err::<Png, PngError>(PngError::BadSignature),
            sig_ok(buf@) && !stream_ok(buf@.skip(8)) ==> r == Err::<Png, PngError>(
                stream_err(buf@.skip(8)),
            ),
    {
        if buf.len() < 8 {
            return Err(PngError::BadSignature);
        }
        if !(buf[0] == 137 && buf[1] == 80 && buf[2] == 78 && buf[3] == 71 && buf[4] == 13
            && buf[5] == 10 && buf[6] == 26 && buf[7] == 10) {
            proof {
                if sig_ok(buf@) {
                    assert(forall|k: int|
                        0 <= k < 8 ==> buf@.subrange(0, 8)[k] == #[trigger] buf@[k]);
                }
            }
            return Err(PngError::BadSignature);
        }
        proof {
            assert(buf@.subrange(0, 8) =~= signature_seq());
        }
        let ghost rest0: Seq<u8> = buf@.skip(8);
        let mut chunks: Vec<Chunk> = Vec::new();
        let mut pos: usize = 8;
        while pos < buf.len()
            invariant
                8 <= pos <= buf@.len(),
                sig_ok(buf@),
                forall|i: int| 0 <= i < chunks@.len() ==> (#[trigger] chunks@[i]).wf(),
                rest0 == buf@.skip(8),
                stream_ok(rest0) <==> stream_ok(buf@.skip(pos as int)),
                stream_ok(buf@.skip(pos as int)) ==> stream_models(rest0) == records_of(chunks@)
                    + stream_models(buf@.skip(pos as int)),
                !stream_ok(buf@.skip(pos as int)) ==> stream_err(rest0) == stream_err(
                    buf@.skip(pos as int),
                ),
            decreases buf@.len() - pos,
        {
            let ghost s_pos: Seq<u8> = buf@.skip(pos as int);
            let tail = &buf[pos..buf.len()];
            proof {
                assert(tail@ =~= s_pos);
            }
            match Chunk::parse(tail) {
                Ok((c, n)) => {
                    proof {
                        assert(s_pos.skip(rec_total(s_pos)) =~= buf@.skip(pos as int + n as int));
                        assert(rec_model(s_pos) =~= c@);
                        assert(records_of(chunks@.push(c)) =~= records_of(chunks@) + seq![c@]);
                        if stream_ok(s_pos) {
                            assert(stream_models(s_pos) == seq![rec_model(s_pos)] + stream_models(
                                s_pos.skip(rec_total(s_pos))));
                            assert(records_of(chunks@) + stream_models(s_pos) =~= (records_of(
                                chunks@,
                            ) + seq![c@]) + stream_models(s_pos.skip(rec_total(s_pos))));
                        }
                    }
                    chunks.push(c);
                    pos = pos + n;
                },
                Err(e) => {
                    proof {
                        assert(s_pos.len() > 0);
                        assert(!stream_ok(s_pos));
                        assert(stream_err(s_pos) == rec_err(s_pos));
                    }
                    return Err(e);
                },
            }
        }
        proof {
            assert(buf@.skip(pos as int).len() == 0);
            assert(stream_ok(buf@.skip(pos as int)));
            assert(stream_models(buf@.skip(pos as int)) =~= Seq::<RecordModel>::empty());
            assert(stream_models(rest0) =~= records_of(chunks@));
        }
        Ok(Png { chunks })
    }

    /// The records in sequence order, for inspection only.
    pub fn chunks(&self) -> (r: &[Chunk])
        ensures
            r@.len() == self@.len(),
            forall|i: int| 0 <= i < r@.len() ==> (#[trigger] r@[i])@ == self@[i],
    {
        self.chunks.as_slice()
    }

    /// Linear search for the first record of the given type, for inspection
    /// only.  Absence is a normal outcome, not an error.
    pub fn chunk_by_type(&self, chunk_type: &str) -> (r: Option<&Chunk>)
        ensures
            r matches Some(c) ==> exists|i: int|
                {
                    &&& 0 <= i < self@.len()
                    &&& has_type(#[trigger] self@[i], chunk_type.spec_bytes())
                    &&& forall|j: int|
                        0 <= j < i ==> !has_type(#[trigger] self@[j], chunk_type.spec_bytes())
                    &&& c@ == self@[i]
                },
            r is None <==> (forall|i: int|
                0 <= i < self@.len() ==> !has_type(#[trigger] self@[i], chunk_type.spec_bytes())),
    {
        match find_index(&self.chunks, chunk_type.as_bytes()) {
            Some(i) => {
                proof {
                    assert(self@[i as int] == self.chunks@[i as int]@);
                    assert(has_type(self@[i as int], chunk_type.spec_bytes()));
                    assert forall|j: int| 0 <= j < i implies !has_type(
                        #[trigger] self@[j],
                        chunk_type.spec_bytes(),
                    ) by {
                        assert(self@[j] == self.chunks@[j]@);
                    }
                }
                Some(&self.chunks[i])
            },
            None => {
                proof {
                    assert forall|j: int| 0 <= j < self@.len() implies !has_type(
                        #[trigger] self@[j],
                        chunk_type.spec_bytes(),
                    ) by {
                        assert(self@[j] == self.chunks@[j]@);
                    }
                }
                None
            },
        }
    }

    /// Inserts a record, keeping the terminal marker record last: when an
    /// `IEND` record is present the new record goes immediately before the
    /// first one; otherwise it goes at the end.
    pub fn append_chunk(&mut self, chunk: Chunk)
        ensures
            (forall|i: int| 0 <= i < old(self)@.len() ==> !has_type(#[trigger] old(self)@[i], end_type()))
                ==> final(self)@ == old(self)@.push(chunk@),
            (exists|i: int|
                0 <= i < old(self)@.len() && has_type(#[trigger] old(self)@[i], end_type()))
                ==> exists|i: int|
                {
                    &&& 0 <= i < old(self)@.len()
                    &&& has_type(#[trigger] old(self)@[i], end_type())
                    &&& forall|j: int| 0 <= j < i ==> !has_type(#[trigger] old(self)@[j], end_type())
                    &&& final(self)@ == old(self)@.insert(i, chunk@)
                },
            final(self)@.len() == old(self)@.len() + 1,
            old(self).wf() && chunk.wf() ==> final(self).wf(),
    {
        let end_bytes: [u8; 4] = [73, 69, 78, 68];
        proof {
            assert(end_bytes@ =~= end_type());
        }
        match find_index(&self.chunks, end_bytes.as_slice()) {
            Some(i) => {
                proof {
                    assert(old(self)@[i as int] == old(self).chunks@[i as int]@);
                    assert(has_type(old(self)@[i as int], end_type()));
                    assert forall|j: int| 0 <= j < i implies !has_type(
                        #[trigger] old(self)@[j],
                        end_type(),
                    ) by {
                        assert(old(self)@[j] == old(self).chunks@[j]@);
                    }
                }
                self.chunks.insert(i, chunk);
                proof {
                    assert(self@ =~= old(self)@.insert(i as int, chunk@));
                    if old(self).wf() && chunk.wf() {
                        old(self)@.insert_ensures(i as int, chunk@);
                        assert forall|k: int| 0 <= k < self@.len() implies (
                        #[trigger] self@[k]).wf() by {
                            if k < i {
                                assert(self@[k] == old(self)@[k]);
                            } else if k == i {
                                assert(self@[k] == chunk@);
                            } else {
                                assert(self@[k] == old(self)@[k - 1]);
                            }
                        }
                    }
                }
            },
            None => {
                proof {
                    assert forall|j: int| 0 <= j < old(self)@.len() implies !has_type(
                        #[trigger] old(self)@[j],
                        end_type(),
                    ) by {
                        assert(old(self)@[j] == old(self).chunks@[j]@);
                    }
                }
                self.chunks.push(chunk);
                proof {
                    assert(self@ =~= old(self)@.push(chunk@));
                    if old(self).wf() && chunk.wf() {
                        assert forall|k: int| 0 <= k < self@.len() implies (
                        #[trigger] self@[k]).wf() by {
                            if k < old(self)@.len() {
                                assert(self@[k] == old(self)@[k]);
                            } else {
                                assert(self@[k] == chunk@);
                            }
                        }
                    }
                }
            },
        }
    }

    /// Deletes the first record of the given type and returns it; fails
    /// with `ChunkNotFound`, leaving the container unmodified, when no
    /// record has that type.
    pub fn remove_chunk(&mut self, chunk_type: &str) -> (r: Result<Chunk, PngError>)
        ensures
            r is Ok <==> exists|i: int|
                0 <= i < old(self)@.len() && has_type(
                    #[trigger] old(self)@[i],
                    chunk_type.spec_bytes(),
                ),
            r matches Ok(c) ==> exists|i: int|
                {
                    &&& 0 <= i < old(self)@.len()
                    &&& has_type(#[trigger] old(self)@[i], chunk_type.spec_bytes())
                    &&& forall|j: int|
                        0 <= j < i ==> !has_type(#[trigger] old(self)@[j], chunk_type.spec_bytes())
                    &&& c@ == old(self)@[i]
                    &&& final(self)@ == old(self)@.remove(i)
                },
            r is Err ==> {
                &&& r == Err::<Chunk, PngError>(PngError::ChunkNotFound)
                &&& *final(self) == *old(self)
                &&& final(self).spec_serialize() == old(self).spec_serialize()
            },
            old(self).wf() ==> final(self).wf(),
    {
        match find_index(&self.chunks, chunk_type.as_bytes()) {
            Some(i) => {
                proof {
                    assert(old(self)@[i as int] == old(self).chunks@[i as int]@);
                    assert(has_type(old(self)@[i as int], chunk_type.spec_bytes()));
                    assert forall|j: int| 0 <= j < i implies !has_type(
                        #[trigger] old(self)@[j],
                        chunk_type.spec_bytes(),
                    ) by {
                        assert(old(self)@[j] == old(self).chunks@[j]@);
                    }
                }
                let c = self.chunks.remove(i);
                proof {
                    assert(self@ =~= old(self)@.remove(i as int));
                    if old(self).wf() {
                        old(self)@.remove_ensures(i as int);
                        assert forall|k: int| 0 <= k < self@.len() implies (
                        #[trigger] self@[k]).wf() by {
                            if k < i {
                                assert(self@[k] == old(self)@[k]);
                            } else {
                                assert(self@[k] == old(self)@[k + 1]);
                            }
                        }
                    }
                }
                Ok(c)
            },
            None => {
                proof {
                    assert forall|j: int| 0 <= j < old(self)@.len() implies !has_type(
                        #[trigger] old(self)@[j],
                        chunk_type.spec_bytes(),
                    ) by {
                        assert(old(self)@[j] == old(self).chunks@[j]@);
                    }
                }
                Err(PngError::ChunkNotFound)
            },
        }
    }

    /// Serializes the container: the signature bytes, then each record's
    /// wire form in sequence order.
    pub fn as_bytes(&self) -> (r: Vec<u8>)
        ensures
            r@ == self.spec_serialize(),
    {
        let mut out: Vec<u8> = Vec::new();
        let sig = signature_bytes();
        out.extend_from_slice(sig.as_slice());
        proof {
            assert(self@.take(0) =~= Seq::<RecordModel>::empty());
            assert(out@ =~= signature_seq() + serialize_records(self@.take(0)));
        }
        let mut i: usize = 0;
        while i < self.chunks.len()
            invariant
                0 <= i <= self.chunks@.len(),
                self@ == records_of(self.chunks@),
                out@ == signature_seq() + serialize_records(self@.take(i as int)),
            decreases self.chunks@.len() - i,
        {
            let chunk_bytes = (&self.chunks[i]).as_bytes();
            out.extend_from_slice(chunk_bytes.as_slice());
            proof {
                lemma_serialize_records_snoc(self@.take(i as int + 1));
                assert(self@.take(i as int + 1).drop_last() =~= self@.take(i as int));
                assert(self@.take(i as int + 1).last() == self@[i as int]);
                assert(out@ =~= signature_seq() + serialize_records(self@.take(i as int + 1)));
            }
            i = i + 1;
        }
        proof {
            assert(self@.take(self.chunks@.len() as int) =~= self@);
        }
        out
    }
}

/// The record's type bytes are exactly the bytes of `t`.
fn type_matches(c: &Chunk, t: &[u8]) -> (r: bool)
    ensures
        r == has_type(c@, t@),
{
    let cb = c.chunk_type().bytes();
    if t.len() != 4 {
        return false;
    }
    let m = cb[0] == t[0] && cb[1] == t[1] && cb[2] == t[2] && cb[3] == t[3];
    proof {
        if m {
            assert(c@.type_bytes =~= t@);
        }
    }
    m
}

/// Linear search for the first record whose type bytes are `t`.
fn find_index(chunks: &Vec<Chunk>, t: &[u8]) -> (r: Option<usize>)
    ensures
        r matches Some(i) ==> {
            &&& 0 <= i < chunks@.len()
            &&& has_type(chunks@[i as int]@, t@)
            &&& forall|j: int| 0 <= j < i ==> !has_type(#[trigger] chunks@[j]@, t@)
        },
        r is None ==> forall|j: int| 0 <= j < chunks@.len() ==> !has_type(#[trigger] chunks@[j]@, t@),
{
    let mut i: usize = 0;
    while i < chunks.len()
        invariant
            0 <= i <= chunks@.len(),
            forall|j: int| 0 <= j < i ==> !has_type(#[trigger] chunks@[j]@, t@),
        decreases chunks@.len() - i,
    {
        if type_matches(&chunks[i], t) {
            return Some(i);
        }
        i = i + 1;
    }
    None
}

/// The signature bytes as a value.
fn signature_bytes() -> (r: [u8; 8])
    ensures
        r@ == signature_seq(),
{
    let r: [u8; 8] = [137, 80, 78, 71, 13, 10, 26, 10];
    proof {
        assert(r@ =~= signature_seq());
    }
    r
}

/// Serializing a record sequence is serializing all but the last record,
/// then the last.
proof fn lemma_serialize_records_snoc(ms: Seq<RecordModel>)
    requires
        ms.len() > 0,
    ensures
        serialize_records(ms) == serialize_records(ms.drop_last()) + ms.last().spec_serialize(),
    decreases ms.len(),
{
    if ms.len() == 1 {
        assert(ms.drop_first() =~= Seq::<RecordModel>::empty());
        assert(ms.drop_last() =~= Seq::<RecordModel>::empty());
        assert(serialize_records(ms) =~= serialize_records(ms.drop_last())
            + ms.last().spec_serialize());
    } else {
        lemma_serialize_records_snoc(ms.drop_first());
        assert(ms.drop_first().drop_last() =~= ms.drop_last().drop_first());
        assert(ms.drop_first().last() == ms.last());
        assert(ms.drop_last()[0] == ms[0]);
        assert(serialize_records(ms) =~= serialize_records(ms.drop_last())
            + ms.last().spec_serialize());
    }
}

/// A well-formed record sequence's wire form reads back to the same
/// sequence.
proof fn lemma_stream_of_serialized(ms: Seq<RecordModel>)
    requires
        forall|i: int| 0 <= i < ms.len() ==> (#[trigger] ms[i]).wf(),
    ensures
        stream_ok(serialize_records(ms)),
        stream_models(serialize_records(ms)) == ms,
    decreases ms.len(),
{
    let s = serialize_records(ms);
    if ms.len() == 0 {
        assert(stream_models(s) =~= ms);
    } else {
        let tail = serialize_records(ms.drop_first());
        crate::chunk::lemma_record_parses_back(ms[0], tail);
        lemma_stream_of_serialized(ms.drop_first());
        assert(s == ms[0].spec_serialize() + tail);
        assert(s.skip(rec_total(s)) == tail);
        assert(stream_ok(s));
        assert(stream_models(s) =~= ms);
    }
}

/// Container round-trip law: a well-formed container's serialized bytes
/// carry the canonical signature and read back to the same record sequence,
/// so any record looked up after a reload has the payload and checksum it
/// was stored with.
pub proof fn lemma_container_round_trip(p: Png)
    requires
        p.wf(),
    ensures
        sig_ok(p.spec_serialize()),
        stream_ok(p.spec_serialize().skip(8)),
        stream_models(p.spec_serialize().skip(8)) == p@,
{
    assert(p.spec_serialize().subrange(0, 8) =~= signature_seq());
    assert(p.spec_serialize().skip(8) =~= serialize_records(p@));
    lemma_stream_of_serialized(p@);
}

/// Remove-semantics law: deleting the only record of a type leaves a
/// sequence in which a search for that type finds nothing.
pub proof fn lemma_remove_only_match(ms: Seq<RecordModel>, t: Seq<u8>, i: int)
    requires
        0 <= i < ms.len(),
        has_type(ms[i], t),
        forall|j: int| 0 <= j < ms.len() && j != i ==> !has_type(#[trigger] ms[j], t),
    ensures
        forall|j: int| 0 <= j < ms.remove(i).len() ==> !has_type(#[trigger] ms.remove(i)[j], t),
{
    assert forall|j: int| 0 <= j < ms.remove(i).len() implies !has_type(
        #[trigger] ms.remove(i)[j],
        t,
    ) by {
        if j < i {
            assert(ms.remove(i)[j] == ms[j]);
        } else {
            assert(ms.remove(i)[j] == ms[j + 1]);
        }
    }
}

} // verus!
