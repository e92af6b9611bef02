//! A UUID value type with its encodings, parsers and generators.
//!
//! A UUID is held as its sixteen bytes in big-endian (network) order; every
//! other view of it (integer, field tuple, hexadecimal text) is a function of
//! those bytes, stated in the contracts of this crate.

pub mod bytes;
pub mod generate;
pub mod laws;
pub mod text;
pub mod value;

pub use generate::{
    node_bytes, node_from_random, uuid1, uuid3, uuid4, uuid4_as_strings_bulk, uuid4_bulk, uuid5,
    uuid7, uuid7_as_strings_bulk, uuid7_bulk, uuid_from_name, uuid_v1mc, v1_from_timestamp,
    NameHash,
};
pub use value::{CompareOp, UuidError, Variant, UUID};
