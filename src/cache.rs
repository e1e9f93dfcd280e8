//! The process-wide parse cache, shared by concurrent parse tasks.
use vstd::prelude::*;
use crate::scan::{cached_entries, record_to_store, reusable};
use crate::types::{FileCache, FileStamp, NormalizedEntry, ParseError};

verus! {

#[verifier::external_type_specification]
#[verifier::external_body]
#[verifier::reject_recursive_types(K)]
#[verifier::reject_recursive_types(V)]
#[verifier::reject_recursive_types(S)]
pub struct ExDashMap<K, V, S>(dashmap::DashMap<K, V, S>);

/// Path to the entries last parsed from it, with the file's modification time
/// at that parse. Handles share one map and may be used from many tasks at
/// once: concurrent inserts for one path resolve last-write-wins, which is
/// harmless, because a record is only reused when its time is exactly the
/// file's current one. Since any task may insert at any moment, nothing is
/// promised of what a lookup finds.
#[derive(Clone)]
pub struct ScanCacheState {
    cache: std::sync::Arc<dashmap::DashMap<String, FileCache>>,
}

impl ScanCacheState {
    /// Relies on `DashMap::new`: an empty map.
    #[verifier::external_body]
    pub fn new() -> Self {
        Self { cache: std::sync::Arc::new(dashmap::DashMap::new()) }
    }

    /// Relies on `DashMap::get`: a copy of the record held for `path`, if any.
    #[verifier::external_body]
    pub fn get(&self, path: &str) -> Option<FileCache> {
        self.cache.get(path).map(|entry| entry.value().clone())
    }

    /// Relies on `DashMap::insert`: stores the record for `path`, replacing any.
    #[verifier::external_body]
    pub fn insert(&self, path: String, cache_entry: FileCache) {
        self.cache.insert(path, cache_entry);
    }

    /// The cached entries of `path`, if the record held for it was made at
    /// exactly the modification time `modified` and all its entries come from
    /// `path`; otherwise the file must be read and parsed again. Which record
    /// the shared map holds is not known here; `cached_entries` decides for
    /// each record.
    pub fn reusable_entries(&self, path: &str, modified: FileStamp) -> (r: Option<
        Vec<NormalizedEntry>,
    >)
        ensures
            exists|c: Option<FileCache>| r == reusable(c, modified, path@),
            r is Some ==> exists|c: FileCache| c.modified_time == modified && r == Some(c.entries),
            r is Some ==> forall|j: int|
                0 <= j < r->0@.len() ==> (#[trigger] r->0@[j]).source_file@ == path@,
    {
        let found = self.get(path);
        let ghost seen = found;
        let r = cached_entries(found, modified, path);
        proof {
            if let Some(c) = seen {
                if r is Some {
                    assert(c.modified_time == modified && r == Some(c.entries));
                }
            }
        }
        r
    }

    /// Records the outcome of parsing `path` at modification time `modified`:
    /// exactly the record that `record_to_store` gives, and nothing for a failure.
    pub fn remember(
        &self,
        path: String,
        modified: FileStamp,
        outcome: &Result<Vec<NormalizedEntry>, ParseError>,
    ) {
        match record_to_store(modified, outcome) {
            Some(record) => self.insert(path, record),
            None => {},
        }
    }
}

} // verus!
