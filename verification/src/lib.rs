//! Voss: a binary serialization runtime for strongly-typed records and
//! tagged unions over a random-access wire format.
//!
//! The codec has two sides. [`builder::VossBuilder`] lays structured values
//! out into a single contiguous byte buffer, using a fixed-size inline region
//! per record and an appended heap region for strings and nested records,
//! linked by 32-bit relative pointers. [`reader::VossReader`] dereferences
//! those offsets in place, with a bounds check on every access.
//!
//! All multi-byte fields are little-endian. Strings are stored as UTF-16
//! code units behind a `{size, relative_offset}` pair. A nested record starts
//! at the heap frontier rounded up to its declared power-of-two alignment,
//! and its pointer field holds the distance from the pointer's own address;
//! pointer value 0 means "absent".

pub mod align;
pub mod builder;
pub mod error;
pub mod hash;
pub mod laws;
pub mod reader;
pub mod schema;
pub mod utf16;
pub mod wire;
