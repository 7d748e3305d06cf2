use vstd::prelude::*;

/// Table and column descriptors, column assignments and conditions.
pub mod table;
/// Scalars bound to or read from a column.
pub mod value;
/// Backend dialects: identifier quoting and literal text.
pub mod sql;
/// Conditions and INSERT statements rendered as SQL text.
pub mod query;
/// Column constraints, column types and CREATE TABLE statements.
pub mod create;
/// Whether an asynchronous operation can answer from cache, through composition.
pub mod cache;
/// Records written to and read back from rows, per backend.
pub mod mapping;

verus! {

} // verus!
