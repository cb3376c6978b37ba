//! A binary codec and mutable container for a length-prefixed, type-tagged,
//! checksummed chunk format.
//!
//! A chunk is a record of a four-byte type code, an opaque payload, and a
//! 32-bit cyclic redundancy check over the type and payload bytes. A container
//! holds an ordered sequence of chunks behind a fixed signature, parses one
//! from a byte stream, supports append, lookup and removal, and serialises
//! back to an exact byte stream.

pub mod args;
pub mod chunk;
pub mod chunk_type;
pub mod error;
pub mod png;
pub mod wire;
