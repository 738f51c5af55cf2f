//! Decoder for a self-describing binary savegame container.
//!
//! The container starts with an eight-byte envelope (four marker bytes, a
//! big-endian format revision and two reserved bytes), followed by an
//! xz-compressed payload.  The payload is a sequence of tagged chunks; a
//! table chunk carries its own schema (a header of field name/type lists)
//! which is parsed before the chunk's records are decoded into a generic
//! value tree.

pub mod cursor;
pub mod decode;
pub mod gamma;
pub mod record;
pub mod schema;
pub mod types;
pub mod walker;
