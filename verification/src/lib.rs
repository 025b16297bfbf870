//! SQL query access to legacy desktop-database files, plus a table export
//! engine that re-expresses a table's contents as portable SQL statements.
//!
//! The storage engine that parses the file format and executes SQL is an
//! external collaborator; this crate holds the verified logic around it:
//! the error taxonomy, the query/cursor protocol decisions, the textual
//! value codec, and the export statement generator.

pub mod codec;
pub mod error;
pub mod export;
pub mod mdbsql;
pub mod text;

pub use error::Error;
