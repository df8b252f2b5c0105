//! Encoder for the `application/x-www-form-urlencoded` wire format.
//!
//! A structured [`Value`] tree — a record of named fields holding scalars,
//! options, tags, newtype wrappers, or single-level sequences — is encoded
//! into the flat `key=value&key=value` text grammar, with percent-escaping
//! delegated to an append-only sink.

pub mod encode;
pub mod error;
pub mod laws;
pub mod sink;
pub mod scalar;
pub mod value;

pub use encode::to_string;
pub use error::Error;
pub use error::Utf8Detail;
pub use value::Value;
