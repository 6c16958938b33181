//! A syndication-feed text encoder: it turns a tree of typed values
//! into well-formed XML bytes in one depth-first pass, without building
//! a document tree. The escaping of special characters rides on a
//! multi-tier byte-pattern search, the element serializer streams into
//! a pluggable sink while tracking indentation, and a fixed-width
//! timestamp codec renders and reads the `updated` stamps.

pub mod atom;
pub mod common;
pub mod error;
pub mod escape;
pub mod serializer;
pub mod strbytes;
pub mod utils;
pub mod writer;
