//! The canonical record schema of a distributed object-storage metadata
//! index: objects and directories as a tagged union, a verified codec
//! between the records and their textual wire form, the same text reused
//! for a relational storage text column, and a generator of schema-valid
//! instances.

pub mod codec;
pub mod gen;
pub mod json;
pub mod laws;
pub mod parse;
pub mod schema;
pub mod trusted;
