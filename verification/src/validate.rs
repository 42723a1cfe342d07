//! The validation engine: a document's content is walked against a schema,
//! and every finding is collected.

pub mod document;
pub mod instance;
pub mod report;
pub mod schema;
