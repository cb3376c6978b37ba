//! The closed set of failures that chunk and container operations report.

use vstd::prelude::*;

verus! {

/// Everything that can go wrong while building, parsing or editing chunks.
#[derive(Clone, Copy, Debug, PartialEq, Eq, Structural)]
pub enum PngError {
    /// A type code held a byte outside the accepted range.
    InvalidTypeCode,
    /// Fewer than the twelve framing bytes were presented to a chunk parse.
    TruncatedChunk,
    /// The checksum recomputed over type and payload disagreed with the four
    /// trailing bytes of the input.
    ChecksumMismatch,
    /// A container input was shorter than the signature or began with the
    /// wrong magic bytes.
    BadSignature,
    /// No chunk of the requested type was found.
    ChunkNotFound,
    /// A payload was asked for as text but was not valid UTF-8.
    NonUtf8Payload,
}

} // verus!
