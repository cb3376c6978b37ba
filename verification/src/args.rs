//! The request shapes of the four user-facing operations.
//!
//! These are plain values; reading them from a command line, and the file
//! traffic the operations perform, live outside the library.

use vstd::prelude::*;

verus! {

/// A whole request: one of the four operations.
#[derive(Debug)]
pub struct Args {
    pub command: PngMeArgs,
}

/// The four operations a caller can ask for.
#[derive(Debug)]
pub enum PngMeArgs {
    /// Embed a message in a container file
    Encode(EncodeArgs),
    /// Extract a message from a container file
    Decode(DecodeArgs),
    /// Remove a chunk from a container file
    Remove(RemoveArgs),
    /// Print a container file
    Print(PrintArgs),
}

/// Embed: append a chunk of the given type carrying the message.
#[derive(Debug)]
pub struct EncodeArgs {
    /// File path
    pub filepath: String,
    /// Chunk type
    pub chunk_type: String,
    /// Message
    pub message: String,
    /// Output file
    pub out_file: String,
}

/// Extract: find the first chunk of the given type and decode its payload.
#[derive(Debug)]
pub struct DecodeArgs {
    /// File path
    pub filepath: String,
    /// Chunk type
    pub chunk_type: String,
}

/// Remove: take the first chunk of the given type out of the file.
#[derive(Debug)]
pub struct RemoveArgs {
    /// File path
    pub filepath: String,
    /// Chunk type
    pub chunk_type: String,
}

/// Print: list every chunk of the file.
#[derive(Debug)]
pub struct PrintArgs {
    /// File path
    pub filepath: String,
}

} // verus!
