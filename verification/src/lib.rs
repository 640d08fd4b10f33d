//! Workspace file digesting: canonical glob patterns select a subset of a
//! workspace file catalog, whose per-file content hashes are combined into one
//! deterministic digest, memoized in a concurrent cache keyed by the pattern
//! set.
use vstd::prelude::*;

pub mod cache;
pub mod digest;
pub mod join;
pub mod matching;
pub mod pattern;
pub mod workspace;

verus! {

/// One workspace file: its path relative to the workspace root and the
/// previously computed hash of its content.
pub struct FileData {
    pub file: String,
    pub hash: String,
}

impl Clone for FileData {
    /// A clone carries the same path and hash.
    fn clone(&self) -> (r: Self)
        ensures
            r == *self,
    {
        FileData { file: self.file.clone(), hash: self.hash.clone() }
    }
}

} // verus!
