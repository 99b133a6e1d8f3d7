//! Cold storage of batches as columnar files.

use crate::config::{join_path, joined_path};
use crate::text::push_char;
use vstd::prelude::*;

verus! {

/// A key as the name of a file: with `_` in place of each slash,
/// backslash and colon.
pub open spec fn sanitized(key: Seq<char>) -> Seq<char> {
    key.map_values(
        |c: char|
            if c == '/' || c == '\\' || c == ':' {
                '_'
            } else {
                c
            },
    )
}

/// Cold storage of batches as columnar files below a base path, one file
/// per key.
#[derive(Debug, Clone)]
pub struct ParquetBackend {
    base_path: String,
}

impl ParquetBackend {
    /// The directory that holds the files.
    pub closed spec fn base(&self) -> Seq<char> {
        self.base_path@
    }

    /// A backend over the files below `base_path`. The directory is the
    /// caller's to create.
    pub fn new(base_path: &str) -> (result: Result<ParquetBackend, String>)
        ensures
            result matches Ok(backend) && backend.base() == base_path@,
    {
        Ok(ParquetBackend { base_path: String::from_str(base_path) })
    }

    /// The path of the file that holds the batch of a key: below the base
    /// path, named by the sanitized key with the suffix `.parquet`.
    pub fn key_to_path(&self, key: &str) -> (path: String)
        ensures
            path@ == joined_path(self.base(), sanitized(key@) + ".parquet"@),
    {
        let mut name = String::new();
        let n = key.unicode_len();
        let mut i: usize = 0;
        assert(name@ =~= sanitized(key@.subrange(0, 0)));
        while i < n
            invariant
                n == key@.len(),
                i <= n,
                name@ == sanitized(key@.subrange(0, i as int)),
            decreases n - i,
        {
            let c = key.get_char(i);
            let ghost before = name@;
            if c == '/' || c == '\\' || c == ':' {
                push_char(&mut name, '_');
            } else {
                push_char(&mut name, c);
            }
            assert(name@ =~= sanitized(key@.subrange(0, i as int + 1)));
            i += 1;
        }
        assert(key@.subrange(0, n as int) =~= key@);
        name.append(".parquet");
        join_path(self.base_path.as_str(), name.as_str())
    }
}

} // verus!
