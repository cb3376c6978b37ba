//! The chunk container: an ordered sequence of chunks behind a fixed
//! signature.
//!
//! A container parses from a complete byte buffer — signature first, then
//! chunk after chunk until the buffer is exhausted — and serialises back to
//! the signature followed by each chunk's encoding in order. Appending adds
//! at the end; removal takes out the first chunk whose type text equals a
//! requested tag and leaves every other chunk in place.

use vstd::prelude::*;
use vstd::string::StrSliceExecFns;

use crate::chunk::Chunk;
use crate::chunk::ChunkModel;
use crate::chunk::spec_parse_chunk;
use crate::chunk_type::ChunkType;
use crate::chunk_type::text_of;
use crate::error::PngError;
use crate::wire::bytes_eq;
use crate::wire::lemma_u32_be_bytes_roundtrip;
use crate::wire::spec_u32_from_be_bytes;
use crate::wire::u32_from_be_slice;

verus! {

/// The fixed eight signature bytes that begin every serialised container.
pub open spec fn spec_signature() -> Seq<u8> {
    seq![137u8, 80u8, 78u8, 71u8, 13u8, 10u8, 26u8, 10u8]
}

/// Emits the signature bytes.
pub fn signature() -> (r: Vec<u8>)
    ensures
        r@ == spec_signature(),
{
    let mut r: Vec<u8> = Vec::new();
    r.push(137);
    r.push(80);
    r.push(78);
    r.push(71);
    r.push(13);
    r.push(10);
    r.push(26);
    r.push(10);
    proof {
        assert(r@ =~= spec_signature());
    }
    r
}

/// The models of a sequence of chunk values.
pub open spec fn views_of(chunks: Seq<Chunk>) -> Seq<ChunkModel> {
    Seq::new(chunks.len(), |i: int| chunks[i]@)
}

/// What parsing a stream of chunks yields. Each chunk is framed by the
/// four-byte length field at its front: the next `12 + length` bytes are
/// handed to the chunk parse, whose derived length then equals the field.
/// A remainder too short for the frame fails as a truncated chunk; a failed
/// chunk parse is propagated unwrapped.
pub open spec fn spec_parse_chunks(b: Seq<u8>) -> Result<Seq<ChunkModel>, PngError>
    decreases b.len(),
{
    if b.len() == 0 {
        Ok(Seq::empty())
    } else if b.len() < 12 {
        Err(PngError::TruncatedChunk)
    } else {
        let declared = spec_u32_from_be_bytes(b.subrange(0, 4)) as int;
        if b.len() < 12 + declared {
            Err(PngError::TruncatedChunk)
        } else {
            match spec_parse_chunk(b.subrange(0, 12 + declared)) {
                Ok(m) => match spec_parse_chunks(b.skip(12 + declared)) {
                    Ok(rest) => Ok(seq![m] + rest),
                    Err(e) => Err(e),
                },
                Err(e) => Err(e),
            }
        }
    }
}

/// What parsing a whole container buffer yields: the signature checked and
/// sliced off, then the chunk stream.
pub open spec fn spec_parse_png(b: Seq<u8>) -> Result<Seq<ChunkModel>, PngError> {
    if b.len() < 8 || b.subrange(0, 8) != spec_signature() {
        Err(PngError::BadSignature)
    } else {
        spec_parse_chunks(b.skip(8))
    }
}

/// The concatenated encodings of a sequence of chunks.
pub open spec fn spec_chunks_bytes(models: Seq<ChunkModel>) -> Seq<u8>
    decreases models.len(),
{
    if models.len() == 0 {
        Seq::empty()
    } else {
        models[0].to_bytes() + spec_chunks_bytes(models.drop_first())
    }
}

/// The serialised container: signature, then every chunk in order.
pub open spec fn spec_png_bytes(models: Seq<ChunkModel>) -> Seq<u8> {
    spec_signature() + spec_chunks_bytes(models)
}

/// True when the chunk's type text equals the requested tag.
pub open spec fn spec_matches(m: ChunkModel, target: Seq<char>) -> bool {
    text_of(m.type_bytes) == target
}

/// The position of the first chunk whose type text equals the tag, or the
/// sequence's length when none matches.
pub open spec fn first_match(models: Seq<ChunkModel>, target: Seq<char>) -> int
    decreases models.len(),
{
    if models.len() == 0 {
        0
    } else if spec_matches(models[0], target) {
        0
    } else {
        1 + first_match(models.drop_first(), target)
    }
}

/// Where the first match sits: exactly at the first position that matches,
/// or at the length when no position does.
pub proof fn lemma_first_match_at(models: Seq<ChunkModel>, target: Seq<char>, i: int)
    requires
        0 <= i <= models.len(),
        forall|k: int| 0 <= k < i ==> !spec_matches(#[trigger] models[k], target),
        i < models.len() ==> spec_matches(models[i], target),
    ensures
        i < models.len() ==> first_match(models, target) == i,
        i == models.len() ==> first_match(models, target) == models.len(),
    decreases i, models.len(),
{
    if i == 0 {
    } else {
        assert(!spec_matches(models[0], target));
        lemma_first_match_at(models.drop_first(), target, i - 1);
    }
}

/// Removal by type from a sequence that holds a matching chunk at `i` and a
/// later one at `j`, with none before `i`, takes out only the one at `i`:
/// everything before keeps its place, everything after moves up by one, and
/// in particular the later matching chunk survives at `j - 1`.
pub proof fn lemma_remove_first_keeps_second(
    models: Seq<ChunkModel>,
    target: Seq<char>,
    i: int,
    j: int,
)
    requires
        0 <= i < j < models.len(),
        spec_matches(models[i], target),
        spec_matches(models[j], target),
        forall|k: int| 0 <= k < i ==> !spec_matches(#[trigger] models[k], target),
    ensures
        first_match(models, target) == i,
        models.remove(i).len() == models.len() - 1,
        models.remove(i)[j - 1] == models[j],
        forall|k: int| 0 <= k < i ==> #[trigger] models.remove(i)[k] == models[k],
        forall|k: int| i <= k < models.len() - 1 ==> #[trigger] models.remove(i)[k] == models[k + 1],
{
    lemma_first_match_at(models, target, i);
    models.remove_ensures(i);
}

/// A container of chunks in insertion order.
#[derive(Debug)]
pub struct Png {
    chunks: Vec<Chunk>,
}

impl View for Png {
    type V = Seq<ChunkModel>;

    closed spec fn view(&self) -> Seq<ChunkModel> {
        views_of(self.chunks@)
    }
}

/// True when the requested tag equals the type code's text.
fn type_matches(t: &ChunkType, target: &str) -> (r: bool)
    ensures
        r == (text_of(t@) == target@),
{
    proof {
        use_type_invariant(&*t);
    }
    if target.unicode_len() != 4 {
        proof {
            assert(text_of(t@).len() == 4);
        }
        return false;
    }
    let b = t.bytes();
    let matched = target.get_char(0) == b[0] as char && target.get_char(1) == b[1] as char
        && target.get_char(2) == b[2] as char && target.get_char(3) == b[3] as char;
    proof {
        if matched {
            assert(text_of(t@) =~= target@);
        }
    }
    matched
}

impl Png {
    /// A container over an explicit list of chunks.
    pub fn from_chunks(chunks: Vec<Chunk>) -> (r: Png)
        ensures
            r@.len() == chunks@.len(),
            forall|i: int| 0 <= i < chunks@.len() ==> #[trigger] r@[i] == chunks@[i]@,
    {
        Png { chunks }
    }

    /// Parses a whole buffer: the signature must lead, then chunks follow
    /// back to back until the buffer is exhausted. A short or wrong preamble
    /// fails with `BadSignature`; a chunk failure is propagated unwrapped.
    pub fn try_from(bytes: &[u8]) -> (r: Result<Png, PngError>)
        ensures
            r is Ok <==> spec_parse_png(bytes@) is Ok,
            r matches Ok(p) ==> Ok::<Seq<ChunkModel>, PngError>(p@) == spec_parse_png(bytes@),
            r matches Err(e) ==> Err::<Seq<ChunkModel>, PngError>(e) == spec_parse_png(bytes@),
    {
        let n = bytes.len();
        if n < 8 {
            return Err(PngError::BadSignature);
        }
        let sig = signature();
        if !bytes_eq(&bytes[0..8], sig.as_slice()) {
            return Err(PngError::BadSignature);
        }
        let mut chunks: Vec<Chunk> = Vec::new();
        let mut off: usize = 8;
        proof {
            if spec_parse_chunks(bytes@.skip(8)) is Ok {
                assert(views_of(chunks@) + spec_parse_chunks(bytes@.skip(8))->Ok_0
                    =~= spec_parse_chunks(bytes@.skip(8))->Ok_0);
            }
        }
        while off < n
            invariant
                8 <= off <= n,
                n == bytes@.len(),
                bytes@.subrange(0, 8) == spec_signature(),
                spec_parse_chunks(bytes@.skip(off as int)) is Ok ==> spec_parse_chunks(
                    bytes@.skip(8),
                ) == Ok::<Seq<ChunkModel>, PngError>(
                    views_of(chunks@) + spec_parse_chunks(bytes@.skip(off as int))->Ok_0,
                ),
                spec_parse_chunks(bytes@.skip(off as int)) is Err ==> spec_parse_chunks(
                    bytes@.skip(8),
                ) == spec_parse_chunks(bytes@.skip(off as int)),
            decreases n - off,
        {
            let ghost tail = bytes@.skip(off as int);
            let remaining = n - off;
            if remaining < 12 {
                return Err(PngError::TruncatedChunk);
            }
            let declared32 = u32_from_be_slice(&bytes[off..off + 4]);
            proof {
                assert(bytes@.subrange(off as int, off as int + 4) =~= tail.subrange(0, 4));
            }
            let declared = declared32 as usize;
            if remaining - 12 < declared {
                return Err(PngError::TruncatedChunk);
            }
            let end = off + 12 + declared;
            proof {
                assert(bytes@.subrange(off as int, end as int) =~= tail.subrange(
                    0,
                    12 + declared as int,
                ));
            }
            let c = match Chunk::try_from(&bytes[off..end]) {
                Ok(c) => c,
                Err(e) => {
                    return Err(e);
                },
            };
            let ghost prev = chunks@;
            chunks.push(c);
            proof {
                assert(tail.skip(12 + declared as int) =~= bytes@.skip(end as int));
                assert(views_of(chunks@) =~= views_of(prev).push(c@));
                if spec_parse_chunks(bytes@.skip(end as int)) is Ok {
                    let rest = spec_parse_chunks(bytes@.skip(end as int))->Ok_0;
                    assert(spec_parse_chunks(tail) == Ok::<Seq<ChunkModel>, PngError>(
                        seq![c@] + rest,
                    ));
                    assert(views_of(prev) + (seq![c@] + rest) =~= views_of(prev).push(c@) + rest);
                }
            }
            off = end;
        }
        proof {
            assert(bytes@.skip(n as int) =~= Seq::<u8>::empty());
            assert(views_of(chunks@) + Seq::<ChunkModel>::empty() =~= views_of(chunks@));
        }
        Ok(Png { chunks })
    }

    /// Adds a chunk at the end of the sequence; every earlier chunk keeps
    /// its place.
    pub fn append_chunk(&mut self, chunk: Chunk)
        ensures
            final(self)@ == old(self)@.push(chunk@),
    {
        self.chunks.push(chunk);
        proof {
            assert(self@ =~= old(self)@.push(chunk@));
        }
    }

    /// Removes and returns the first chunk whose type text equals the tag,
    /// shifting only the chunks after it; fails with `ChunkNotFound`, and
    /// changes nothing, when no chunk matches.
    pub fn remove_first_chunk(&mut self, chunk_type: &str) -> (r: Result<Chunk, PngError>)
        ensures
            ({
                let i = first_match(old(self)@, chunk_type@);
                if i < old(self)@.len() {
                    &&& r matches Ok(c) && c@ == old(self)@[i]
                    &&& final(self)@ == old(self)@.remove(i)
                } else {
                    &&& r == Err::<Chunk, PngError>(PngError::ChunkNotFound)
                    &&& final(self)@ == old(self)@
                }
            }),
    {
        let n = self.chunks.len();
        let mut i: usize = 0;
        while i < n
            invariant
                i <= n,
                n == self.chunks@.len(),
                self.chunks@ == old(self).chunks@,
                forall|k: int| 0 <= k < i ==> !spec_matches(#[trigger] old(self)@[k], chunk_type@),
            decreases n - i,
        {
            let c = &self.chunks[i];
            if type_matches(c.chunk_type(), chunk_type) {
                proof {
                    lemma_first_match_at(old(self)@, chunk_type@, i as int);
                }
                let removed = self.chunks.remove(i);
                proof {
                    assert(self@ =~= old(self)@.remove(i as int));
                }
                return Ok(removed);
            }
            i = i + 1;
        }
        proof {
            lemma_first_match_at(old(self)@, chunk_type@, n as int);
        }
        Err(PngError::ChunkNotFound)
    }

    /// The first chunk whose type text equals the tag, if any.
    pub fn chunk_by_type(&self, chunk_type: &str) -> (r: Option<&Chunk>)
        ensures
            ({
                let i = first_match(self@, chunk_type@);
                if i < self@.len() {
                    r matches Some(c) && c@ == self@[i]
                } else {
                    r is None
                }
            }),
    {
        let n = self.chunks.len();
        let mut i: usize = 0;
        while i < n
            invariant
                i <= n,
                n == self.chunks@.len(),
                forall|k: int| 0 <= k < i ==> !spec_matches(#[trigger] self@[k], chunk_type@),
            decreases n - i,
        {
            let c = &self.chunks[i];
            if type_matches(c.chunk_type(), chunk_type) {
                proof {
                    lemma_first_match_at(self@, chunk_type@, i as int);
                }
                return Some(c);
            }
            i = i + 1;
        }
        proof {
            lemma_first_match_at(self@, chunk_type@, n as int);
        }
        None
    }

    /// The chunks in order, read-only.
    pub fn chunks(&self) -> (r: &Vec<Chunk>)
        ensures
            r@.len() == self@.len(),
            forall|i: int| 0 <= i < self@.len() ==> (#[trigger] r@[i])@ == self@[i],
    {
        &self.chunks
    }

    /// Serialises the container: the signature, then every chunk's encoding
    /// in sequence order.
    pub fn as_bytes(&self) -> (r: Vec<u8>)
        ensures
            r@ == spec_png_bytes(self@),
    {
        let mut out = signature();
        let n = self.chunks.len();
        let mut i: usize = 0;
        proof {
            assert(out@ =~= spec_signature() + spec_chunks_bytes(self@.take(0)));
        }
        while i < n
            invariant
                i <= n,
                n == self.chunks@.len(),
                out@ == spec_signature() + spec_chunks_bytes(self@.take(i as int)),
            decreases n - i,
        {
            let c = &self.chunks[i];
            let chunk_bytes = c.as_bytes();
            out.extend_from_slice(chunk_bytes.as_slice());
            proof {
                lemma_chunks_bytes_snoc(self@.take(i as int), self@[i as int]);
                assert(self@.take(i as int + 1) =~= self@.take(i as int).push(self@[i as int]));
                assert(out@ =~= spec_signature() + spec_chunks_bytes(self@.take(i as int + 1)));
            }
            i = i + 1;
        }
        proof {
            assert(self@.take(n as int) =~= self@);
        }
        out
    }
}

/// Appending one chunk appends exactly its encoding.
pub proof fn lemma_chunks_bytes_snoc(models: Seq<ChunkModel>, m: ChunkModel)
    ensures
        spec_chunks_bytes(models.push(m)) == spec_chunks_bytes(models) + m.to_bytes(),
    decreases models.len(),
{
    if models.len() == 0 {
        assert(models.push(m).drop_first() =~= Seq::<ChunkModel>::empty());
        assert(models.push(m)[0] == m);
        assert(spec_chunks_bytes(Seq::<ChunkModel>::empty()) == Seq::<u8>::empty());
        assert(m.to_bytes() + Seq::<u8>::empty() =~= m.to_bytes());
        assert(Seq::<u8>::empty() + m.to_bytes() =~= m.to_bytes());
    } else {
        lemma_chunks_bytes_snoc(models.drop_first(), m);
        assert(models.push(m).drop_first() =~= models.drop_first().push(m));
        assert(models.push(m)[0] == models[0]);
        assert(models[0].to_bytes() + (spec_chunks_bytes(models.drop_first()) + m.to_bytes()) =~= (
        models[0].to_bytes() + spec_chunks_bytes(models.drop_first())) + m.to_bytes());
    }
}

/// Round trip: serialising the chunks parsed from any well-formed container
/// buffer reproduces that buffer byte for byte.
pub proof fn lemma_png_round_trip(b: Seq<u8>)
    requires
        spec_parse_png(b) is Ok,
    ensures
        spec_png_bytes(spec_parse_png(b)->Ok_0) == b,
{
    lemma_chunks_round_trip(b.skip(8));
    assert(spec_signature() + b.skip(8) =~= b);
}

/// The encoding of a chunk stream starts with the first chunk's encoding.
proof fn lemma_scb_cons(m: ChunkModel, rest: Seq<ChunkModel>)
    ensures
        spec_chunks_bytes(seq![m] + rest) == m.to_bytes() + spec_chunks_bytes(rest),
{
    let s = seq![m] + rest;
    assert(s.len() == 1 + rest.len());
    assert(s[0] == m);
    assert(s.drop_first() =~= rest);
}

/// Putting one reconstructed chunk back in front of a reconstructed rest
/// reassembles the whole buffer.
proof fn lemma_chunks_round_trip_assemble(b: Seq<u8>, declared: int, m: ChunkModel, rest: Seq<
    ChunkModel,
>)
    requires
        0 <= declared,
        12 + declared <= b.len(),
        m.to_bytes() == b.subrange(0, 12 + declared),
        spec_chunks_bytes(rest) == b.skip(12 + declared),
    ensures
        spec_chunks_bytes(seq![m] + rest) == b,
{
    lemma_scb_cons(m, rest);
    assert(b.subrange(0, 12 + declared) + b.skip(12 + declared) =~= b);
}

/// Round trip for the chunk stream after the signature.
#[verifier::rlimit(100)]
proof fn lemma_chunks_round_trip(b: Seq<u8>)
    requires
        spec_parse_chunks(b) is Ok,
    ensures
        spec_chunks_bytes(spec_parse_chunks(b)->Ok_0) == b,
    decreases b.len(),
{
    if b.len() == 0 {
        assert(spec_chunks_bytes(Seq::empty()) =~= b);
    } else {
        let declared = spec_u32_from_be_bytes(b.subrange(0, 4)) as int;
        let head = b.subrange(0, 12 + declared);
        let m = spec_parse_chunk(head)->Ok_0;
        let rest = spec_parse_chunks(b.skip(12 + declared))->Ok_0;
        lemma_chunks_round_trip(b.skip(12 + declared));
        assert(head.subrange(0, 4) =~= b.subrange(0, 4));
        lemma_chunk_bytes_reconstruct(head);
        lemma_chunks_round_trip_assemble(b, declared, m, rest);
    }
}

/// A buffer that parses as one chunk is exactly that chunk's encoding, as
/// long as its payload length fits the length field.
proof fn lemma_chunk_bytes_reconstruct(c: Seq<u8>)
    requires
        spec_parse_chunk(c) is Ok,
        c.len() <= u32::MAX + 12,
        spec_u32_from_be_bytes(c.subrange(0, 4)) == c.len() - 12,
    ensures
        spec_parse_chunk(c)->Ok_0.to_bytes() == c,
{
    let m = spec_parse_chunk(c)->Ok_0;
    lemma_u32_be_bytes_roundtrip(c.subrange(0, 4));
    assert(m.data.len() == c.len() - 12);
    assert(m.to_bytes() =~= c);
}

} // verus!
