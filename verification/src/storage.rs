//! Key-addressed backends for batches of rows: a bounded cache in memory,
//! cold storage as columnar files, and the read-only SQL backend over
//! such files.

pub mod cache;
pub mod duckdb_backend;
pub mod parquet_backend;

pub use cache::CacheBackend;
pub use duckdb_backend::DuckDBBackend;
pub use parquet_backend::ParquetBackend;

use crate::schema::Field;
use vstd::prelude::*;

verus! {

/// A batch of rows in the columnar in-memory format, as far as the
/// backends look at it.
#[derive(Debug, Clone)]
pub struct RecordBatch {
    pub schema: Vec<Field>,
    pub num_rows: usize,
    /// The memory that the batch's columns take, in bytes.
    pub memory_bytes: usize,
}

} // verus!
