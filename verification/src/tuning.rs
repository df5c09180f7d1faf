//! Runtime tuning knobs for CPU-sensitive hashing paths.
use vstd::prelude::*;

use crate::text;

verus! {

/// Runtime tuning knobs for CPU-sensitive hashing paths.
#[derive(Debug, Clone, Copy)]
pub struct SyncTuning {
    /// Optional cap for worker threads used by hash-heavy stages.
    pub max_hash_threads: Option<usize>,
    /// Minimum page count before switching from sequential to parallel hashing.
    pub parallel_min_pages: u32,
    /// Number of coarse hash groups to process per chunk.
    pub hash_chunk_groups: u32,
}

impl Default for SyncTuning {
    fn default() -> (r: SyncTuning)
        ensures
            r.max_hash_threads is None,
            r.parallel_min_pages == 4096,
            r.hash_chunk_groups == 16,
    {
        SyncTuning { max_hash_threads: None, parallel_min_pages: 4096, hash_chunk_groups: 16 }
    }
}

/// The positive number up to `max` that the value of a variable denotes, where
/// the variable is set and does.
pub open spec fn positive_setting(value: Option<&str>, max: nat) -> Option<nat> {
    match value {
        None => None,
        Some(v) => match text::unsigned_number(v@, max) {
            Some(n) => if n > 0 {
                Some(n)
            } else {
                None
            },
            None => None,
        },
    }
}

/// The positive number up to `max` that the value of a variable denotes.
fn positive(value: Option<&str>, max: u64) -> (r: Option<u64>)
    ensures
        match r {
            Some(n) => positive_setting(value, max as nat) == Some(n as nat),
            None => positive_setting(value, max as nat) is None,
        },
{
    match value {
        None => None,
        Some(v) => match text::parse_unsigned(v, max) {
            Some(n) => if n > 0 {
                Some(n)
            } else {
                None
            },
            None => None,
        },
    }
}

impl SyncTuning {
    /// Load tuning from the values of the environment variables
    /// `RSQLITE_RSYNC_MAX_HASH_THREADS`, `RSQLITE_RSYNC_PARALLEL_MIN_PAGES` and
    /// `RSQLITE_RSYNC_HASH_CHUNK_GROUPS`, where they are set.
    ///
    /// Invalid values are ignored and the default is used for that field.
    pub fn from_env(
        max_hash_threads: Option<&str>,
        parallel_min_pages: Option<&str>,
        hash_chunk_groups: Option<&str>,
    ) -> (r: SyncTuning)
        ensures
            match positive_setting(max_hash_threads, usize::MAX as nat) {
                Some(n) => r.max_hash_threads is Some && r.max_hash_threads->0 == n,
                None => r.max_hash_threads is None,
            },
            match positive_setting(parallel_min_pages, u32::MAX as nat) {
                Some(n) => r.parallel_min_pages == n,
                None => r.parallel_min_pages == 4096,
            },
            match positive_setting(hash_chunk_groups, u32::MAX as nat) {
                Some(n) => r.hash_chunk_groups == n,
                None => r.hash_chunk_groups == 16,
            },
    {
        let default: SyncTuning = SyncTuning::default();
        SyncTuning {
            max_hash_threads: match positive(max_hash_threads, usize::MAX as u64) {
                Some(n) => Some(n as usize),
                None => default.max_hash_threads,
            },
            parallel_min_pages: match positive(parallel_min_pages, u32::MAX as u64) {
                Some(n) => n as u32,
                None => default.parallel_min_pages,
            },
            hash_chunk_groups: match positive(hash_chunk_groups, u32::MAX as u64) {
                Some(n) => n as u32,
                None => default.hash_chunk_groups,
            },
        }
    }

    /// Whether this many pages are worth hashing in parallel.
    pub fn should_parallelize(&self, pages: u32) -> (r: bool)
        ensures
            r == (pages >= self.parallel_min_pages),
    {
        pages >= self.parallel_min_pages
    }
}

/// A setting counts exactly if it is the decimal form of a number from 1 to the
/// largest one; a variable that is not set, is zero or no number does not count.
pub proof fn law_positive_numbers_are_settings(value: &str, n: nat, max: nat)
    ensures
        positive_setting(None, max) is None,
        value@ == text::decimal(n) ==> positive_setting(Some(value), max) == if 1 <= n <= max {
            Some(n)
        } else {
            None
        },
        text::unsigned_number(value@, max) is None ==> positive_setting(Some(value), max) is None,
{
    text::law_unsigned_number_is_read(n, 0, max);
}

} // verus!
