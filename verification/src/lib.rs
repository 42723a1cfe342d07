//! Versioned, self-describing documents: references between them, the
//! schema that a type definition declares, and the validation of a
//! document's content against the schema of its type.
//!
//! What a function does is stated over sequences of characters and plain
//! values, and proved. What is taken from elsewhere, such as regular
//! expressions, SHA-256, the parsing of URLs and the mapping of case, is
//! named and believed: each such place says what it believes.

pub mod commands;
pub mod dependency;
pub mod diagnostics;
pub mod error;
pub mod keyed;
pub mod manifest;
pub mod registry;
pub mod signature;
pub mod specification;
pub mod text;
pub mod validate;
pub mod value;
