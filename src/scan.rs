//! Joining the per-file outcomes of one scan into its result, and the cache
//! decision made before a file is read.
use vstd::prelude::*;
use crate::analyzer::{analyze_entries, distinct_keys, duplicates_of, has_key, missing_of, views};
use crate::types::{
    same_entry, DiscoveredFile, FileCache, FileStamp, NormalizedEntry, ParseError, ScanResult, ScanSummary,
};

verus! {

/// The entries of the successful outcomes, in order.
pub open spec fn ok_entries(outcomes: Seq<Result<Vec<NormalizedEntry>, ParseError>>) -> Seq<
    NormalizedEntry,
>
    decreases outcomes.len(),
{
    if outcomes.len() == 0 {
        seq![]
    } else {
        ok_entries(outcomes.drop_last()) + match outcomes.last() {
            Ok(es) => es@,
            Err(_) => seq![],
        }
    }
}

/// The errors of the failed outcomes, in order.
pub open spec fn failures(outcomes: Seq<Result<Vec<NormalizedEntry>, ParseError>>) -> Seq<ParseError>
    decreases outcomes.len(),
{
    if outcomes.len() == 0 {
        seq![]
    } else {
        failures(outcomes.drop_last()) + match outcomes.last() {
            Ok(_) => seq![],
            Err(e) => seq![e],
        }
    }
}

/// How many entries of `es` come from file `p`.
pub open spec fn count_from(es: Seq<NormalizedEntry>, p: Seq<char>) -> nat
    decreases es.len(),
{
    if es.len() == 0 {
        0
    } else {
        count_from(es.drop_last(), p) + if es.last().source_file@ == p {
            1nat
        } else {
            0nat
        }
    }
}

/// The set of distinct keys of `es`.
pub open spec fn key_set(es: Seq<NormalizedEntry>) -> Set<Seq<char>> {
    Set::new(|k: Seq<char>| has_key(es, k))
}

/// Each successful outcome holds only entries of its own file, and no two files share a path.
pub open spec fn well_sourced(
    files: Seq<DiscoveredFile>,
    outcomes: Seq<Result<Vec<NormalizedEntry>, ParseError>>,
) -> bool {
    &&& forall|a: int, b: int| 0 <= a < b < files.len() ==> (#[trigger] files[a]).path@ != (#[trigger] files[b]).path@
    &&& forall|i: int, j: int|
        0 <= i < outcomes.len() && outcomes[i] is Ok && 0 <= j < outcomes[i]->Ok_0@.len()
            ==> (#[trigger] outcomes[i]->Ok_0@[j]).source_file@ == files[i].path@
}

/// Counting over two joined lists adds up.
proof fn lemma_count_concat(a: Seq<NormalizedEntry>, b: Seq<NormalizedEntry>, p: Seq<char>)
    ensures
        count_from(a + b, p) == count_from(a, p) + count_from(b, p),
    decreases b.len(),
{
    if b.len() > 0 {
        assert((a + b).drop_last() =~= a + b.drop_last());
        lemma_count_concat(a, b.drop_last(), p);
    } else {
        assert(a + b =~= a);
    }
}

/// In a list whose entries all come from `q`, as many come from `p` as there
/// are entries if `p` is `q`, and none otherwise.
proof fn lemma_count_uniform(es: Seq<NormalizedEntry>, q: Seq<char>, p: Seq<char>)
    requires
        forall|j: int| 0 <= j < es.len() ==> (#[trigger] es[j]).source_file@ == q,
    ensures
        count_from(es, p) == if p == q {
            es.len()
        } else {
            0
        },
    decreases es.len(),
{
    if es.len() > 0 {
        lemma_count_uniform(es.drop_last(), q, p);
    }
}

/// Joins one scan: each file's count becomes the number of entries parsed from
/// it (none where it failed), the entries of all files are gathered in file
/// order, failures become parse errors, and the issues and summary are computed
/// over the gathered entries. Where every outcome holds only entries of its
/// own file and paths are unique, each file's count is the number of gathered
/// entries that come from it.
pub fn assemble_scan(
    root: String,
    files: Vec<DiscoveredFile>,
    outcomes: Vec<Result<Vec<NormalizedEntry>, ParseError>>,
) -> (r: ScanResult)
    requires
        files@.len() == outcomes@.len(),
    ensures
        r.root == root,
        r.files@.len() == files@.len(),
        forall|i: int|
            #![trigger r.files@[i]]
            0 <= i < files@.len() ==> {
                &&& r.files@[i].path == files@[i].path
                &&& r.files@[i].format == files@[i].format
                &&& r.files@[i].count == match outcomes@[i] {
                    Ok(es) => es@.len(),
                    Err(_) => 0,
                }
            },
        r.entries@ == ok_entries(outcomes@),
        r.issues.parse_errors@ == failures(outcomes@),
        duplicates_of(r.entries@, r.issues.duplicates@),
        missing_of(r.entries@, r.issues.missing_by_env_file@),
        r.summary.total_files == files@.len(),
        r.summary.total_keys == r.entries@.len(),
        r.summary.unique_keys == key_set(r.entries@).len(),
        well_sourced(files@, outcomes@) ==> forall|i: int|
            0 <= i < r.files@.len() ==> (#[trigger] r.files@[i]).count == count_from(
                r.entries@,
                r.files@[i].path@,
            ),
{
    let ghost files0 = files@;
    let ghost outs0 = outcomes@;
    let n = files.len();
    let mut rest_files = files;
    let mut rest_outs = outcomes;
    let mut done: Vec<DiscoveredFile> = Vec::new();
    let mut all: Vec<NormalizedEntry> = Vec::new();
    let mut errors: Vec<ParseError> = Vec::new();
    let mut k: usize = 0;
    proof {
        assert(files0.subrange(0, n as int) =~= files0);
        assert(outs0.subrange(0, n as int) =~= outs0);
        assert(outs0.subrange(0, 0) =~= seq![]);
    }
    while k < n
        invariant
            n == files0.len() == outs0.len(),
            k <= n,
            rest_files@ == files0.subrange(k as int, n as int),
            rest_outs@ == outs0.subrange(k as int, n as int),
            done@.len() == k,
            forall|i: int|
                #![trigger done@[i]]
                0 <= i < k ==> {
                    &&& done@[i].path == files0[i].path
                    &&& done@[i].format == files0[i].format
                    &&& done@[i].count == match outs0[i] {
                        Ok(es) => es@.len(),
                        Err(_) => 0,
                    }
                },
            all@ == ok_entries(outs0.subrange(0, k as int)),
            errors@ == failures(outs0.subrange(0, k as int)),
            well_sourced(files0, outs0) ==> forall|i: int|
                0 <= i < n ==> count_from(all@, (#[trigger] files0[i]).path@) == if i < k {
                    match outs0[i] {
                        Ok(es) => es@.len(),
                        Err(_) => 0,
                    }
                } else {
                    0
                },
        decreases n - k,
    {
        let file = rest_files.remove(0);
        let outcome = rest_outs.remove(0);
        proof {
            assert(file == files0[k as int]);
            assert(outcome == outs0[k as int]);
            assert(outs0.subrange(0, k + 1).drop_last() =~= outs0.subrange(0, k as int));
            assert(outs0.subrange(0, k + 1).last() == outcome);
        }
        let ghost all0 = all@;
        let ghost errors0 = errors@;
        match outcome {
            Ok(mut es) => {
                let ghost got = es@;
                let count = es.len();
                all.append(&mut es);
                done.push(DiscoveredFile { path: file.path, format: file.format, count });
                proof {
                    if well_sourced(files0, outs0) {
                        assert forall|i: int| 0 <= i < n implies count_from(all@, (#[trigger] files0[i]).path@)
                            == if i < k + 1 {
                            match outs0[i] {
                                Ok(es) => es@.len(),
                                Err(_) => 0,
                            }
                        } else {
                            0
                        } by {
                            lemma_count_concat(all0, got, files0[i].path@);
                            assert forall|j: int| 0 <= j < got.len() implies (#[trigger] got[j]).source_file@
                                == files0[k as int].path@ by {
                                assert(outs0[k as int]->Ok_0@[j] == got[j]);
                            };
                            lemma_count_uniform(got, files0[k as int].path@, files0[i].path@);
                            if i != k {
                                if i < k {
                                    assert(files0[i].path@ != files0[k as int].path@);
                                } else {
                                    assert(files0[k as int].path@ != files0[i].path@);
                                }
                            }
                        };
                    }
                    assert(errors@ =~= failures(outs0.subrange(0, k + 1)));
                }
            },
            Err(e) => {
                errors.push(e);
                done.push(DiscoveredFile { path: file.path, format: file.format, count: 0 });
                proof {
                    assert(all@ =~= ok_entries(outs0.subrange(0, k + 1)));
                }
            },
        }
        proof {
            assert(rest_files@ =~= files0.subrange(k + 1, n as int));
            assert(rest_outs@ =~= outs0.subrange(k + 1, n as int));
        }
        k = k + 1;
    }
    let mut issues = analyze_entries(all.as_slice());
    issues.parse_errors = errors;
    let keys = distinct_keys(all.as_slice());
    proof {
        views(keys@).unique_seq_to_set();
        assert(views(keys@).to_set() =~= key_set(all@));
    }
    let summary = ScanSummary { total_files: n, total_keys: all.len(), unique_keys: keys.len() };
    ScanResult { root, files: done, entries: all, issues, summary }
}

/// Every entry of a successful outcome comes from file `p`.
pub open spec fn from_file(r: Result<Vec<NormalizedEntry>, ParseError>, p: Seq<char>) -> bool {
    r is Ok ==> forall|j: int|
        0 <= j < r->Ok_0@.len() ==> (#[trigger] r->Ok_0@[j]).source_file@ == p
}

/// Discovered files have distinct paths, and the outcome of each, whether
/// parsed or reused from the cache, holds only entries of that file; so, once
/// joined, each file's count is the number of entries that come from it.
pub proof fn scan_counts_law(
    files: Seq<DiscoveredFile>,
    outcomes: Seq<Result<Vec<NormalizedEntry>, ParseError>>,
)
    requires
        files.len() == outcomes.len(),
        forall|a: int, b: int| 0 <= a < b < files.len() ==> (#[trigger] files[a]).path@ != (#[trigger] files[b]).path@,
        forall|i: int| 0 <= i < files.len() ==> from_file(#[trigger] outcomes[i], files[i].path@),
    ensures
        well_sourced(files, outcomes),
{
    assert forall|i: int, j: int|
        0 <= i < outcomes.len() && outcomes[i] is Ok && 0 <= j < outcomes[i]->Ok_0@.len() implies (
        #[trigger] outcomes[i]->Ok_0@[j]).source_file@ == files[i].path@ by {
        assert(from_file(outcomes[i], files[i].path@));
    };
}

/// Copies of the entries `es`, in order.
pub fn copy_entries(es: &Vec<NormalizedEntry>) -> (r: Vec<NormalizedEntry>)
    ensures
        r@.len() == es@.len(),
        forall|i: int| 0 <= i < es@.len() ==> same_entry(#[trigger] r@[i], es@[i]),
{
    let mut out: Vec<NormalizedEntry> = Vec::new();
    let mut i: usize = 0;
    while i < es.len()
        invariant
            i <= es@.len(),
            out@.len() == i,
            forall|k: int| 0 <= k < i ==> same_entry(#[trigger] out@[k], es@[k]),
        decreases es@.len() - i,
    {
        out.push(es[i].clone());
        i = i + 1;
    }
    out
}

/// The record to store after parsing a file last modified at `modified`: a
/// copy of the entries of a success, and nothing for a failure, so that a
/// passing error never reaches the cache.
pub fn record_to_store(
    modified: FileStamp,
    outcome: &Result<Vec<NormalizedEntry>, ParseError>,
) -> (r: Option<FileCache>)
    ensures
        outcome is Err ==> r is None,
        outcome is Ok ==> {
            &&& r is Some
            &&& r->0.modified_time == modified
            &&& r->0.entries@.len() == outcome->Ok_0@.len()
            &&& forall|i: int|
                0 <= i < outcome->Ok_0@.len() ==> same_entry(#[trigger] r->0.entries@[i], outcome->Ok_0@[i])
        },
{
    match outcome {
        Ok(entries) => Some(FileCache { modified_time: modified, entries: copy_entries(entries) }),
        Err(_) => None,
    }
}

/// The entries that the record `cached` lets a scan reuse for file `path`,
/// last modified at `t`: the recorded ones, when they were recorded at exactly
/// `t` and all come from `path`; otherwise none.
pub open spec fn reusable(cached: Option<FileCache>, t: FileStamp, path: Seq<char>) -> Option<
    Vec<NormalizedEntry>,
> {
    match cached {
        Some(c) => if c.modified_time == t && forall|j: int|
            0 <= j < c.entries@.len() ==> (#[trigger] c.entries@[j]).source_file@ == path {
            Some(c.entries)
        } else {
            None
        },
        None => None,
    }
}

/// The entries to reuse for file `path`, whose modification time is now
/// `modified`, given the record `cached` held for it: those that `reusable`
/// allows. Where it gives none, the file must be read and parsed again.
pub fn cached_entries(cached: Option<FileCache>, modified: FileStamp, path: &str) -> (r: Option<
    Vec<NormalizedEntry>,
>)
    ensures
        r == reusable(cached, modified, path@),
{
    match cached {
        Some(c) => {
            if c.modified_time != modified {
                return None;
            }
            let p = String::from_str(path);
            let mut i: usize = 0;
            while i < c.entries.len()
                invariant
                    i <= c.entries@.len(),
                    p@ == path@,
                    c.modified_time == modified,
                    cached == Some(c),
                    forall|j: int| 0 <= j < i ==> (#[trigger] c.entries@[j]).source_file@ == path@,
                decreases c.entries@.len() - i,
            {
                if c.entries[i].source_file != p {
                    assert(c.entries@[i as int].source_file@ != path@);
                    return None;
                }
                i = i + 1;
            }
            Some(c.entries)
        },
        None => None,
    }
}

/// A file whose entries were recorded at time `t` and that has not been
/// modified since gets back exactly those entries, without being read; once
/// its modification time differs, nothing is reused.
pub proof fn cache_reuse_law(path: Seq<char>, entries: Vec<NormalizedEntry>, t: FileStamp, now: FileStamp)
    requires
        forall|j: int| 0 <= j < entries@.len() ==> (#[trigger] entries@[j]).source_file@ == path,
    ensures
        reusable(Some(FileCache { modified_time: t, entries }), t, path) == Some(entries),
        now != t ==> reusable(Some(FileCache { modified_time: t, entries }), now, path) is None,
{
}

} // verus!
