//! A codec for length-prefixed, CRC-protected records laid out like PNG chunks:
//! a big-endian length, a four-byte type tag, the payload and a CRC-32.

pub mod chunk;
pub mod chunk_type;
pub mod commands;
pub mod text;
