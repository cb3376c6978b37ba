//! The chunk codec: a record of type code, payload, length and checksum,
//! and its flat byte encoding.
//!
//! On the wire a chunk is `length (4 bytes) | type code (4 bytes) | payload |
//! checksum (4 bytes)`, all integers big-endian. The checksum is the 32-bit
//! cyclic redundancy check over the type code and payload bytes. Parsing
//! derives the payload from the slice bounds alone — the encoded length field
//! is never trusted — and fails when the recomputed checksum disagrees with
//! the four trailing bytes.

use vstd::prelude::*;
use vstd::slice::slice_to_vec;
use vstd::utf8::decode_utf8;
use vstd::utf8::valid_utf8;

use crate::chunk_type::ChunkType;
use crate::error::PngError;
use crate::wire::bytes_eq;
use crate::wire::spec_u32_to_be_bytes;
use crate::wire::u32_to_be_vec;

verus! {

/// The checksum that the outside crc crate computes for a byte string with
/// the ISO-HDLC parameters.
pub uninterp spec fn crc32_of(bytes: Seq<u8>) -> u32;

/// Relies on crc::Crc::<u32>::checksum with the CRC_32_ISO_HDLC algorithm:
/// the result is a pure function of the input bytes alone.
#[verifier::external_body]
fn crc32_checksum(bytes: &[u8]) -> (r: u32)
    ensures
        r == crc32_of(bytes@),
{
    crc::Crc::<u32>::new(&crc::CRC_32_ISO_HDLC).checksum(bytes)
}

/// Relies on String::from_utf8: it succeeds exactly on valid UTF-8 input and
/// returns the decoded text.
#[verifier::external_body]
fn utf8_to_string(bytes: &Vec<u8>) -> (r: Option<String>)
    ensures
        r is Some <==> valid_utf8(bytes@),
        r matches Some(s) ==> s@ == decode_utf8(bytes@),
{
    String::from_utf8(bytes.clone()).ok()
}

/// The mathematical content of a chunk: its type code bytes and its payload.
/// Length and checksum are functions of these two.
#[verifier::ext_equal]
pub ghost struct ChunkModel {
    pub type_bytes: Seq<u8>,
    pub data: Seq<u8>,
}

impl ChunkModel {
    /// A model a chunk value can hold: four type bytes, and a payload whose
    /// length fits the 32-bit length field.
    pub open spec fn wf(self) -> bool {
        self.type_bytes.len() == 4 && self.data.len() <= u32::MAX
    }

    /// The checksum over type code then payload.
    pub open spec fn crc(self) -> u32 {
        crc32_of(self.type_bytes + self.data)
    }

    /// The flat encoding: length, type code, payload, checksum.
    pub open spec fn to_bytes(self) -> Seq<u8> {
        spec_u32_to_be_bytes(self.data.len() as u32) + self.type_bytes + self.data
            + spec_u32_to_be_bytes(self.crc())
    }
}

/// What parsing a byte buffer as one chunk yields: the type code is read from
/// bytes 4 to 7, the payload is everything between byte 8 and the last four
/// bytes, and the checksum recomputed over type and payload must equal those
/// trailing bytes. The encoded length field is ignored.
pub open spec fn spec_parse_chunk(b: Seq<u8>) -> Result<ChunkModel, PngError> {
    if b.len() < 12 {
        Err(PngError::TruncatedChunk)
    } else {
        let m = ChunkModel { type_bytes: b.subrange(4, 8), data: b.subrange(8, b.len() - 4) };
        if b.subrange(b.len() - 4, b.len() as int) == spec_u32_to_be_bytes(m.crc()) {
            Ok(m)
        } else {
            Err(PngError::ChecksumMismatch)
        }
    }
}

/// A chunk: a type code, an owned payload, and the stored length and
/// checksum that the encoding carries.
#[derive(Debug)]
pub struct Chunk {
    length: u32,
    chunk_type: ChunkType,
    chunk_data: Vec<u8>,
    crc: u32,
}

impl View for Chunk {
    type V = ChunkModel;

    closed spec fn view(&self) -> ChunkModel {
        ChunkModel { type_bytes: self.chunk_type@, data: self.chunk_data@ }
    }
}

impl Chunk {
    /// The stored length and checksum always agree with the payload.
    #[verifier::type_invariant]
    spec fn inv(self) -> bool {
        self@.wf() && self.length == self@.data.len() && self.crc == self@.crc()
    }

    /// Builds a chunk from a type code and a payload, computing length and
    /// checksum fresh; it never fails.
    pub fn new(chunk_type: ChunkType, data: Vec<u8>) -> (r: Chunk)
        requires
            data@.len() <= u32::MAX,
        ensures
            r@ == (ChunkModel { type_bytes: chunk_type@, data: data@ }),
    {
        let mut checked: Vec<u8> = Vec::new();
        let type_bytes = chunk_type.bytes();
        checked.extend_from_slice(type_bytes.as_slice());
        checked.extend_from_slice(data.as_slice());
        proof {
            assert(checked@ =~= chunk_type@ + data@);
        }
        let crc = crc32_checksum(checked.as_slice());
        let length = data.len() as u32;
        Chunk { length, chunk_type, chunk_data: data, crc }
    }

    /// The payload length in bytes.
    pub fn length(&self) -> (r: u32)
        ensures
            r == self@.data.len(),
    {
        proof {
            use_type_invariant(&*self);
        }
        self.length
    }

    /// The type code.
    pub fn chunk_type(&self) -> (r: &ChunkType)
        ensures
            r@ == self@.type_bytes,
    {
        &self.chunk_type
    }

    /// The payload bytes.
    pub fn chunk_data(&self) -> (r: &[u8])
        ensures
            r@ == self@.data,
    {
        self.chunk_data.as_slice()
    }

    /// The checksum over type code and payload.
    pub fn crc(&self) -> (r: u32)
        ensures
            r == self@.crc(),
    {
        proof {
            use_type_invariant(&*self);
        }
        self.crc
    }

    /// The payload decoded as text, when it is valid UTF-8.
    pub fn data_as_string(&self) -> (r: Result<String, PngError>)
        ensures
            r is Ok <==> valid_utf8(self@.data),
            r matches Ok(s) ==> s@ == decode_utf8(self@.data),
            r is Err ==> r == Err::<String, PngError>(PngError::NonUtf8Payload),
    {
        match utf8_to_string(&self.chunk_data) {
            Some(s) => Ok(s),
            None => Err(PngError::NonUtf8Payload),
        }
    }

    /// The canonical encoding: length, type code, payload, checksum.
    pub fn as_bytes(&self) -> (r: Vec<u8>)
        ensures
            r@ == self@.to_bytes(),
    {
        proof {
            use_type_invariant(&*self);
        }
        let mut out: Vec<u8> = Vec::new();
        let length_bytes = u32_to_be_vec(self.length);
        out.extend_from_slice(length_bytes.as_slice());
        let type_bytes = self.chunk_type.bytes();
        out.extend_from_slice(type_bytes.as_slice());
        out.extend_from_slice(self.chunk_data.as_slice());
        let crc_bytes = u32_to_be_vec(self.crc);
        out.extend_from_slice(crc_bytes.as_slice());
        proof {
            assert(out@ =~= self@.to_bytes());
        }
        out
    }

    /// Parses one chunk from a byte buffer. Fails with `TruncatedChunk` on
    /// fewer than twelve bytes and with `ChecksumMismatch` when the trailing
    /// four bytes disagree with the checksum recomputed over type code and
    /// payload; otherwise returns exactly the parsed record.
    pub fn try_from(bytes: &[u8]) -> (r: Result<Chunk, PngError>)
        requires
            bytes@.len() <= u32::MAX + 12,
        ensures
            r is Ok <==> spec_parse_chunk(bytes@) is Ok,
            r matches Ok(c) ==> Ok::<ChunkModel, PngError>(c@) == spec_parse_chunk(bytes@),
            r matches Err(e) ==> Err::<ChunkModel, PngError>(e) == spec_parse_chunk(bytes@),
            bytes@.len() < 12 ==> r == Err::<Chunk, PngError>(PngError::TruncatedChunk),
    {
        let n = bytes.len();
        if n < 12 {
            return Err(PngError::TruncatedChunk);
        }
        let chunk_type = ChunkType::from_raw([bytes[4], bytes[5], bytes[6], bytes[7]]);
        let chunk_data = slice_to_vec(&bytes[8..n - 4]);
        let crc = crc32_checksum(&bytes[4..n - 4]);
        let crc_bytes = u32_to_be_vec(crc);
        let matches_trailer = bytes_eq(&bytes[n - 4..n], crc_bytes.as_slice());
        proof {
            assert(chunk_type@ =~= bytes@.subrange(4, 8));
            assert(chunk_type@ + chunk_data@ =~= bytes@.subrange(4, bytes@.len() - 4));
        }
        if !matches_trailer {
            return Err(PngError::ChecksumMismatch);
        }
        let length = (n - 12) as u32;
        Ok(Chunk { length, chunk_type, chunk_data, crc })
    }
}

/// Round trip: a chunk built from a type code and payload, encoded to bytes,
/// parses back to exactly the same type code, payload, length and checksum.
pub proof fn lemma_chunk_round_trip(m: ChunkModel)
    requires
        m.wf(),
    ensures
        spec_parse_chunk(m.to_bytes()) == Ok::<ChunkModel, PngError>(m),
{
    let b = m.to_bytes();
    assert(b.len() == 12 + m.data.len());
    assert(b.subrange(4, 8) =~= m.type_bytes);
    assert(b.subrange(8, b.len() - 4) =~= m.data);
    assert(b.subrange(4, b.len() - 4) =~= m.type_bytes + m.data);
    assert(b.subrange(b.len() - 4, b.len() as int) =~= spec_u32_to_be_bytes(m.crc()));
    let parsed = ChunkModel {
        type_bytes: b.subrange(4, 8),
        data: b.subrange(8, b.len() - 4),
    };
    assert(parsed =~= m);
}

/// Checksum determinism: two chunks over equal type codes and equal payloads
/// carry equal checksums.
pub proof fn lemma_checksum_deterministic(a: ChunkModel, b: ChunkModel)
    requires
        a.type_bytes == b.type_bytes,
        a.data == b.data,
    ensures
        a.crc() == b.crc(),
{
}

} // verus!
