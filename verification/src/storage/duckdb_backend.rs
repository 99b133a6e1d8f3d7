//! The read-only SQL backend over columnar files.

use crate::storage::RecordBatch;
use vstd::prelude::*;

verus! {

/// What the `Debug` form of a path writes for the path with the given
/// text.
pub uninterp spec fn path_debug_of(path: Seq<char>) -> Seq<char>;

/// Writes a path in its `Debug` form with `format!`, as the standard
/// library's `Path` defines it: between quotes, with escapes.
#[verifier::external_body]
fn debug_path(path: &str) -> (text: String)
    ensures
        text@ == path_debug_of(path@),
{
    format!("{:?}", std::path::Path::new(path))
}

/// A read-only SQL backend over the columnar files below a path.
#[derive(Debug, Clone)]
pub struct DuckDBBackend {
    parquet_path: String,
}

impl DuckDBBackend {
    /// The path below which the backend reads.
    pub closed spec fn path(&self) -> Seq<char> {
        self.parquet_path@
    }

    /// A backend over the files below `parquet_path`.
    pub fn new(parquet_path: &str) -> (result: Result<DuckDBBackend, String>)
        ensures
            result matches Ok(backend) && backend.path() == parquet_path@,
    {
        Ok(DuckDBBackend { parquet_path: String::from_str(parquet_path) })
    }

    /// Runs a statement on the files. No SQL engine is linked into this
    /// backend: every statement fails, with a message that names the
    /// statement and the path.
    pub fn execute_sql(&self, sql: &str) -> (result: Result<RecordBatch, String>)
        ensures
            result matches Err(message) && message@
                == "DuckDB backend requires duckdb-rs crate. Query: "@ + sql@ + " Parquet path: "@
                + path_debug_of(self.path()),
    {
        let mut message = String::from_str("DuckDB backend requires duckdb-rs crate. Query: ");
        message.append(sql);
        message.append(" Parquet path: ");
        message.append(debug_path(self.parquet_path.as_str()).as_str());
        Err(message)
    }
}

} // verus!
