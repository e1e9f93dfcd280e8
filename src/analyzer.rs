//! Cross-file analysis: keys defined in several files, keys missing from
//! environment files.
use vstd::prelude::*;
use crate::types::{Duplicate, MissingKeys, NormalizedEntry, ScanIssues, SourceFormat};

verus! {

/// The character sequences of a list of strings.
pub open spec fn views(s: Seq<String>) -> Seq<Seq<char>> {
    s.map_values(|x: String| x@)
}

/// Some entry of `es` has key `k`.
pub open spec fn has_key(es: Seq<NormalizedEntry>, k: Seq<char>) -> bool {
    exists|i: int| 0 <= i < es.len() && (#[trigger] es[i]).key@ == k
}

/// Some entry of `es` has key `k` and comes from file `f`.
pub open spec fn in_file(es: Seq<NormalizedEntry>, k: Seq<char>, f: Seq<char>) -> bool {
    exists|i: int| 0 <= i < es.len() && (#[trigger] es[i]).key@ == k && es[i].source_file@ == f
}

/// Key `k` is defined in two different files.
pub open spec fn multi_file(es: Seq<NormalizedEntry>, k: Seq<char>) -> bool {
    exists|i: int, j: int|
        0 <= i < es.len() && 0 <= j < es.len() && (#[trigger] es[i]).key@ == k && (#[trigger] es[j]).key@
            == k && es[i].source_file@ != es[j].source_file@
}

/// `f` is the source file of an entry read in the environment format.
pub open spec fn is_env_file(es: Seq<NormalizedEntry>, f: Seq<char>) -> bool {
    exists|i: int|
        0 <= i < es.len() && (#[trigger] es[i]).source_format == SourceFormat::Env
            && es[i].source_file@ == f
}

/// Some key of `es` is not defined in file `f`.
pub open spec fn lacks_some_key(es: Seq<NormalizedEntry>, f: Seq<char>) -> bool {
    exists|k: Seq<char>| has_key(es, k) && !in_file(es, k, f)
}

/// `ds` reports exactly the keys defined in more than one file, each once, with
/// the set of its files.
pub open spec fn duplicates_of(es: Seq<NormalizedEntry>, ds: Seq<Duplicate>) -> bool {
    &&& forall|a: int, b: int| 0 <= a < b < ds.len() ==> (#[trigger] ds[a]).key@ != (#[trigger] ds[b]).key@
    &&& forall|a: int|
        #![trigger ds[a]]
        0 <= a < ds.len() ==> {
            &&& multi_file(es, ds[a].key@)
            &&& views(ds[a].files@).no_duplicates()
            &&& forall|f: Seq<char>| views(ds[a].files@).contains(f) <==> in_file(es, ds[a].key@, f)
        }
    &&& forall|k: Seq<char>| multi_file(es, k) ==> exists|a: int| 0 <= a < ds.len() && (#[trigger] ds[a]).key@ == k
}

/// `ms` reports exactly the environment files that lack some key, each once,
/// with the keys that they lack.
pub open spec fn missing_of(es: Seq<NormalizedEntry>, ms: Seq<MissingKeys>) -> bool {
    &&& forall|a: int, b: int| 0 <= a < b < ms.len() ==> (#[trigger] ms[a]).file@ != (#[trigger] ms[b]).file@
    &&& forall|a: int|
        #![trigger ms[a]]
        0 <= a < ms.len() ==> {
            &&& is_env_file(es, ms[a].file@)
            &&& ms[a].missing_keys@.len() > 0
            &&& views(ms[a].missing_keys@).no_duplicates()
            &&& forall|k: Seq<char>|
                views(ms[a].missing_keys@).contains(k) <==> (has_key(es, k) && !in_file(es, k, ms[a].file@))
        }
    &&& forall|f: Seq<char>|
        is_env_file(es, f) && lacks_some_key(es, f) ==> exists|a: int| 0 <= a < ms.len() && (#[trigger] ms[a]).file@ == f
}

/// Whether the strings `v` hold one with the characters of `s`.
pub fn contains_text(v: &Vec<String>, s: &String) -> (r: bool)
    ensures
        r == views(v@).contains(s@),
{
    let mut i: usize = 0;
    while i < v.len()
        invariant
            i <= v@.len(),
            forall|j: int| 0 <= j < i ==> v@[j]@ != s@,
        decreases v@.len() - i,
    {
        if v[i] == *s {
            assert(views(v@)[i as int] == s@);
            return true;
        }
        i = i + 1;
    }
    assert(!views(v@).contains(s@)) by {
        if views(v@).contains(s@) {
            let j = choose|j: int| 0 <= j < views(v@).len() && views(v@)[j] == s@;
            assert(v@[j]@ == s@);
        }
    };
    false
}

/// Appends `s` to `v` unless `v` already holds it.
fn push_new(v: &mut Vec<String>, s: String)
    requires
        views(old(v)@).no_duplicates(),
    ensures
        views(final(v)@).no_duplicates(),
        forall|t: Seq<char>| views(final(v)@).contains(t) <==> (views(old(v)@).contains(t) || t == s@),
{
    if !contains_text(v, &s) {
        let ghost before = v@;
        v.push(s);
        assert(views(v@) =~= views(before).push(s@));
        assert forall|t: Seq<char>|
            views(v@).contains(t) <==> (views(before).contains(t) || t == s@) by {
            if t == s@ {
                assert(views(v@)[before.len() as int] == t);
            }
            if views(before).contains(t) {
                let j = choose|j: int| 0 <= j < views(before).len() && views(before)[j] == t;
                assert(views(v@)[j] == t);
            }
            if views(v@).contains(t) {
                let j = choose|j: int| 0 <= j < views(v@).len() && views(v@)[j] == t;
                if j < before.len() {
                    assert(views(before)[j] == t);
                }
            }
        };
    }
}

/// The distinct keys of `es`, in order of first appearance.
pub fn distinct_keys(es: &[NormalizedEntry]) -> (r: Vec<String>)
    ensures
        views(r@).no_duplicates(),
        forall|k: Seq<char>| views(r@).contains(k) <==> has_key(es@, k),
{
    let mut out: Vec<String> = Vec::new();
    let mut i: usize = 0;
    while i < es.len()
        invariant
            i <= es@.len(),
            views(out@).no_duplicates(),
            forall|k: Seq<char>|
                views(out@).contains(k) <==> exists|j: int| 0 <= j < i && (#[trigger] es@[j]).key@ == k,
        decreases es@.len() - i,
    {
        push_new(&mut out, es[i].key.clone());
        i = i + 1;
    }
    out
}

/// The distinct files that define key `k`, in order of first appearance.
pub fn files_with_key(es: &[NormalizedEntry], k: &String) -> (r: Vec<String>)
    ensures
        views(r@).no_duplicates(),
        forall|f: Seq<char>| views(r@).contains(f) <==> in_file(es@, k@, f),
{
    let mut out: Vec<String> = Vec::new();
    let mut i: usize = 0;
    while i < es.len()
        invariant
            i <= es@.len(),
            views(out@).no_duplicates(),
            forall|f: Seq<char>|
                views(out@).contains(f) <==> exists|j: int|
                    0 <= j < i && (#[trigger] es@[j]).key@ == k@ && es@[j].source_file@ == f,
        decreases es@.len() - i,
    {
        if es[i].key == *k {
            push_new(&mut out, es[i].source_file.clone());
        }
        i = i + 1;
    }
    out
}

/// The distinct files of the entries read in the environment format.
pub fn env_files(es: &[NormalizedEntry]) -> (r: Vec<String>)
    ensures
        views(r@).no_duplicates(),
        forall|f: Seq<char>| views(r@).contains(f) <==> is_env_file(es@, f),
{
    let mut out: Vec<String> = Vec::new();
    let mut i: usize = 0;
    while i < es.len()
        invariant
            i <= es@.len(),
            views(out@).no_duplicates(),
            forall|f: Seq<char>|
                views(out@).contains(f) <==> exists|j: int|
                    0 <= j < i && (#[trigger] es@[j]).source_format == SourceFormat::Env
                        && es@[j].source_file@ == f,
        decreases es@.len() - i,
    {
        if es[i].source_format == SourceFormat::Env {
            push_new(&mut out, es[i].source_file.clone());
        }
        i = i + 1;
    }
    out
}

/// Whether file `f` defines key `k`.
pub fn key_in_file(es: &[NormalizedEntry], k: &String, f: &String) -> (r: bool)
    ensures
        r == in_file(es@, k@, f@),
{
    let mut i: usize = 0;
    while i < es.len()
        invariant
            i <= es@.len(),
            forall|j: int| 0 <= j < i ==> !((#[trigger] es@[j]).key@ == k@ && es@[j].source_file@ == f@),
        decreases es@.len() - i,
    {
        if es[i].key == *k && es[i].source_file == *f {
            return true;
        }
        i = i + 1;
    }
    false
}

/// The keys defined in more than one file, each with the distinct files that
/// define it, in order of the keys' first appearance. A key repeated within one
/// file is no duplicate.
pub fn find_duplicates(entries: &[NormalizedEntry]) -> (r: Vec<Duplicate>)
    ensures
        duplicates_of(entries@, r@),
{
    let keys = distinct_keys(entries);
    let mut out: Vec<Duplicate> = Vec::new();
    let mut i: usize = 0;
    while i < keys.len()
        invariant
            i <= keys@.len(),
            views(keys@).no_duplicates(),
            forall|k: Seq<char>| views(keys@).contains(k) <==> has_key(entries@, k),
            forall|a: int, b: int| 0 <= a < b < out@.len() ==> (#[trigger] out@[a]).key@ != (#[trigger] out@[b]).key@,
            forall|a: int|
                #![trigger out@[a]]
                0 <= a < out@.len() ==> {
                    &&& multi_file(entries@, out@[a].key@)
                    &&& views(out@[a].files@).no_duplicates()
                    &&& forall|f: Seq<char>| views(out@[a].files@).contains(f) <==> in_file(entries@, out@[a].key@, f)
                    &&& exists|j: int| 0 <= j < i && keys@[j]@ == out@[a].key@
                },
            forall|j: int|
                0 <= j < i && multi_file(entries@, (#[trigger] keys@[j])@) ==> exists|a: int|
                    0 <= a < out@.len() && (#[trigger] out@[a]).key@ == keys@[j]@,
        decreases keys@.len() - i,
    {
        let files = files_with_key(entries, &keys[i]);
        let ghost k = keys@[i as int]@;
        proof {
            if multi_file(entries@, k) {
                let (x, y) = choose|x: int, y: int|
                    0 <= x < entries@.len() && 0 <= y < entries@.len() && (#[trigger] entries@[x]).key@ == k
                        && (#[trigger] entries@[y]).key@ == k && entries@[x].source_file@ != entries@[y].source_file@;
                assert(in_file(entries@, k, entries@[x].source_file@));
                assert(in_file(entries@, k, entries@[y].source_file@));
                assert(views(files@).contains(entries@[x].source_file@));
                assert(views(files@).contains(entries@[y].source_file@));
                if files@.len() <= 1 {
                    let p = choose|p: int| 0 <= p < views(files@).len() && views(files@)[p] == entries@[x].source_file@;
                    let q = choose|q: int| 0 <= q < views(files@).len() && views(files@)[q] == entries@[y].source_file@;
                    assert(p == q);
                }
            }
            if files@.len() > 1 {
                assert(views(files@).contains(views(files@)[0]));
                assert(views(files@).contains(views(files@)[1]));
                assert(in_file(entries@, k, views(files@)[0]));
                assert(in_file(entries@, k, views(files@)[1]));
                let x = choose|x: int| 0 <= x < entries@.len() && (#[trigger] entries@[x]).key@ == k && entries@[x].source_file@ == views(files@)[0];
                let y = choose|y: int| 0 <= y < entries@.len() && (#[trigger] entries@[y]).key@ == k && entries@[y].source_file@ == views(files@)[1];
                assert(multi_file(entries@, k));
            }
            assert forall|a: int| 0 <= a < out@.len() implies (#[trigger] out@[a]).key@ != k by {
                let j = choose|j: int| 0 <= j < i && keys@[j]@ == out@[a].key@;
                assert(views(keys@)[j] != views(keys@)[i as int]);
            };
        }
        if files.len() > 1 {
            let ghost before = out@;
            out.push(Duplicate { key: keys[i].clone(), files });
            proof {
                assert(out@[before.len() as int].key@ == k);
                assert forall|a: int|
                    #![trigger out@[a]]
                    0 <= a < out@.len() implies exists|j: int| 0 <= j < i + 1 && keys@[j]@ == out@[a].key@ by {
                    if a < before.len() {
                        assert(out@[a] == before[a]);
                        let j = choose|j: int| 0 <= j < i && keys@[j]@ == before[a].key@;
                    } else {
                        assert(keys@[i as int]@ == out@[a].key@);
                    }
                };
                assert forall|j: int|
                    0 <= j < i + 1 && multi_file(entries@, (#[trigger] keys@[j])@) implies exists|a: int|
                    0 <= a < out@.len() && (#[trigger] out@[a]).key@ == keys@[j]@ by {
                    if j < i {
                        let a = choose|a: int| 0 <= a < before.len() && (#[trigger] before[a]).key@ == keys@[j]@;
                        assert(out@[a] == before[a]);
                    } else {
                        assert(out@[before.len() as int].key@ == keys@[j]@);
                    }
                };
            }
        }
        i = i + 1;
    }
    proof {
        assert forall|k: Seq<char>| multi_file(entries@, k) implies exists|a: int|
            0 <= a < out@.len() && (#[trigger] out@[a]).key@ == k by {
            let (x, y) = choose|x: int, y: int|
                0 <= x < entries@.len() && 0 <= y < entries@.len() && (#[trigger] entries@[x]).key@ == k
                    && (#[trigger] entries@[y]).key@ == k && entries@[x].source_file@ != entries@[y].source_file@;
            assert(has_key(entries@, k));
            assert(views(keys@).contains(k));
            let j = choose|j: int| 0 <= j < views(keys@).len() && views(keys@)[j] == k;
            assert(keys@[j]@ == k);
        };
        assert forall|k: Seq<char>| (exists|j: int| 0 <= j < i && (#[trigger] keys@[j])@ == k) implies views(
            keys@,
        ).contains(k) by {
            let j = choose|j: int| 0 <= j < i && (#[trigger] keys@[j])@ == k;
            assert(views(keys@)[j] == k);
        };
    }
    out
}

/// The keys of `keys` that file `f` does not define, in order.
fn keys_missing_from(entries: &[NormalizedEntry], keys: &Vec<String>, f: &String) -> (r: Vec<String>)
    requires
        views(keys@).no_duplicates(),
    ensures
        views(r@).no_duplicates(),
        forall|k: Seq<char>| views(r@).contains(k) <==> (views(keys@).contains(k) && !in_file(entries@, k, f@)),
{
    let mut out: Vec<String> = Vec::new();
    let mut i: usize = 0;
    while i < keys.len()
        invariant
            i <= keys@.len(),
            views(keys@).no_duplicates(),
            views(out@).no_duplicates(),
            forall|k: Seq<char>|
                views(out@).contains(k) <==> (exists|j: int| 0 <= j < i && (#[trigger] keys@[j])@ == k)
                    && !in_file(entries@, k, f@),
        decreases keys@.len() - i,
    {
        if !key_in_file(entries, &keys[i], f) {
            proof {
                assert forall|a: int| 0 <= a < out@.len() implies (#[trigger] out@[a])@ != keys@[i as int]@ by {
                    assert(views(out@).contains(out@[a]@)) by {
                        assert(views(out@)[a] == out@[a]@);
                    };
                    let j = choose|j: int| 0 <= j < i && (#[trigger] keys@[j])@ == out@[a]@;
                    assert(views(keys@)[j] != views(keys@)[i as int]);
                };
            }
            push_new(&mut out, keys[i].clone());
        }
        i = i + 1;
    }
    proof {
        assert forall|k: Seq<char>| views(keys@).contains(k) implies exists|j: int|
            0 <= j < i && (#[trigger] keys@[j])@ == k by {
            let j = choose|j: int| 0 <= j < views(keys@).len() && views(keys@)[j] == k;
            assert(keys@[j]@ == k);
        };
        assert forall|k: Seq<char>| (exists|j: int| 0 <= j < i && (#[trigger] keys@[j])@ == k) implies views(
            keys@,
        ).contains(k) by {
            let j = choose|j: int| 0 <= j < i && (#[trigger] keys@[j])@ == k;
            assert(views(keys@)[j] == k);
        };
    }
    out
}

/// For each environment file that lacks some key defined anywhere, that file
/// and the keys it lacks. Files read in other formats are never reported.
#[verifier::rlimit(60)]
pub fn find_missing_keys(entries: &[NormalizedEntry]) -> (r: Vec<MissingKeys>)
    ensures
        missing_of(entries@, r@),
{
    let keys = distinct_keys(entries);
    let files = env_files(entries);
    let mut out: Vec<MissingKeys> = Vec::new();
    let mut i: usize = 0;
    while i < files.len()
        invariant
            i <= files@.len(),
            views(keys@).no_duplicates(),
            forall|k: Seq<char>| views(keys@).contains(k) <==> has_key(entries@, k),
            views(files@).no_duplicates(),
            forall|f: Seq<char>| views(files@).contains(f) <==> is_env_file(entries@, f),
            forall|a: int, b: int| 0 <= a < b < out@.len() ==> (#[trigger] out@[a]).file@ != (#[trigger] out@[b]).file@,
            forall|a: int|
                #![trigger out@[a]]
                0 <= a < out@.len() ==> {
                    &&& is_env_file(entries@, out@[a].file@)
                    &&& out@[a].missing_keys@.len() > 0
                    &&& views(out@[a].missing_keys@).no_duplicates()
                    &&& forall|k: Seq<char>|
                        views(out@[a].missing_keys@).contains(k) <==> (has_key(entries@, k) && !in_file(entries@, k, out@[a].file@))
                    &&& exists|j: int| 0 <= j < i && files@[j]@ == out@[a].file@
                },
            forall|j: int|
                0 <= j < i && lacks_some_key(entries@, (#[trigger] files@[j])@) ==> exists|a: int|
                    0 <= a < out@.len() && (#[trigger] out@[a]).file@ == files@[j]@,
        decreases files@.len() - i,
    {
        let missing = keys_missing_from(entries, &keys, &files[i]);
        let ghost f = files@[i as int]@;
        proof {
            assert(views(files@).contains(f)) by {
                assert(views(files@)[i as int] == f);
            };
            if lacks_some_key(entries@, f) {
                let k = choose|k: Seq<char>| has_key(entries@, k) && !in_file(entries@, k, f);
                assert(views(missing@).contains(k));
            }
            if missing@.len() > 0 {
                let k0 = views(missing@)[0];
                assert(views(missing@).contains(k0));
                assert(views(keys@).contains(k0));
                assert(has_key(entries@, k0) && !in_file(entries@, k0, f));
                assert(lacks_some_key(entries@, f));
            }
            assert forall|a: int| 0 <= a < out@.len() implies (#[trigger] out@[a]).file@ != f by {
                let j = choose|j: int| 0 <= j < i && files@[j]@ == out@[a].file@;
                assert(views(files@)[j] != views(files@)[i as int]);
            };
        }
        if missing.len() > 0 {
            let ghost before = out@;
            out.push(MissingKeys { file: files[i].clone(), missing_keys: missing });
            proof {
                assert(out@[before.len() as int].file@ == f);
                assert forall|a: int|
                    #![trigger out@[a]]
                    0 <= a < out@.len() implies exists|j: int| 0 <= j < i + 1 && files@[j]@ == out@[a].file@ by {
                    if a < before.len() {
                        assert(out@[a] == before[a]);
                        let j = choose|j: int| 0 <= j < i && files@[j]@ == before[a].file@;
                    } else {
                        assert(files@[i as int]@ == out@[a].file@);
                    }
                };
                assert forall|j: int|
                    0 <= j < i + 1 && lacks_some_key(entries@, (#[trigger] files@[j])@) implies exists|a: int|
                    0 <= a < out@.len() && (#[trigger] out@[a]).file@ == files@[j]@ by {
                    if j < i {
                        let a = choose|a: int| 0 <= a < before.len() && (#[trigger] before[a]).file@ == files@[j]@;
                        assert(out@[a] == before[a]);
                    } else {
                        assert(out@[before.len() as int].file@ == files@[j]@);
                    }
                };
            }
        }
        i = i + 1;
    }
    proof {
        assert forall|f: Seq<char>| is_env_file(entries@, f) && lacks_some_key(entries@, f) implies exists|a: int|
            0 <= a < out@.len() && (#[trigger] out@[a]).file@ == f by {
            assert(views(files@).contains(f));
            let j = choose|j: int| 0 <= j < views(files@).len() && views(files@)[j] == f;
            assert(files@[j]@ == f);
        };
    }
    out
}

/// The duplicate and missing keys of one scan's entries. Parse errors are
/// gathered elsewhere, so the list of them is empty.
pub fn analyze_entries(entries: &[NormalizedEntry]) -> (r: ScanIssues)
    ensures
        duplicates_of(entries@, r.duplicates@),
        missing_of(entries@, r.missing_by_env_file@),
        r.parse_errors@.len() == 0,
{
    let duplicates = find_duplicates(entries);
    let missing_by_env_file = find_missing_keys(entries);
    ScanIssues { duplicates, missing_by_env_file, parse_errors: Vec::new() }
}

/// A key defined in exactly two files `a` and `b` is reported once, with
/// exactly those two files; a key defined in one file only is never reported.
pub proof fn duplicate_files_law(
    es: Seq<NormalizedEntry>,
    ds: Seq<Duplicate>,
    k: Seq<char>,
    a: Seq<char>,
    b: Seq<char>,
)
    requires
        duplicates_of(es, ds),
    ensures
        in_file(es, k, a) && in_file(es, k, b) && a != b && (forall|f: Seq<char>|
            in_file(es, k, f) ==> f == a || f == b) ==> exists|x: int|
            0 <= x < ds.len() && (#[trigger] ds[x]).key@ == k && views(ds[x].files@).to_set() == set![a, b],
        (forall|f: Seq<char>| in_file(es, k, f) ==> f == a) ==> forall|x: int|
            0 <= x < ds.len() ==> (#[trigger] ds[x]).key@ != k,
{
    if in_file(es, k, a) && in_file(es, k, b) && a != b && (forall|f: Seq<char>|
        in_file(es, k, f) ==> f == a || f == b) {
        let i = choose|i: int| 0 <= i < es.len() && (#[trigger] es[i]).key@ == k && es[i].source_file@ == a;
        let j = choose|j: int| 0 <= j < es.len() && (#[trigger] es[j]).key@ == k && es[j].source_file@ == b;
        assert(multi_file(es, k));
        let x = choose|x: int| 0 <= x < ds.len() && (#[trigger] ds[x]).key@ == k;
        assert(views(ds[x].files@).to_set() =~= set![a, b]);
    }
    if forall|f: Seq<char>| in_file(es, k, f) ==> f == a {
        assert forall|x: int| 0 <= x < ds.len() implies (#[trigger] ds[x]).key@ != k by {
            if ds[x].key@ == k {
                assert(multi_file(es, k));
                let (i, j) = choose|i: int, j: int|
                    0 <= i < es.len() && 0 <= j < es.len() && (#[trigger] es[i]).key@ == k && (#[trigger] es[j]).key@
                        == k && es[i].source_file@ != es[j].source_file@;
                assert(in_file(es, k, es[i].source_file@));
                assert(in_file(es, k, es[j].source_file@));
            }
        };
    }
}

/// An environment file `f` whose keys are not all the keys `K` of the scan is
/// reported with exactly `K` minus its own keys; one that has every key is not
/// reported.
pub proof fn missing_keys_law(es: Seq<NormalizedEntry>, ms: Seq<MissingKeys>, f: Seq<char>)
    requires
        missing_of(es, ms),
        is_env_file(es, f),
    ensures
        lacks_some_key(es, f) ==> exists|x: int|
            0 <= x < ms.len() && (#[trigger] ms[x]).file@ == f && views(ms[x].missing_keys@).to_set()
                == Set::new(|k: Seq<char>| has_key(es, k)).difference(
                Set::new(|k: Seq<char>| in_file(es, k, f)),
            ),
        !lacks_some_key(es, f) ==> forall|x: int| 0 <= x < ms.len() ==> (#[trigger] ms[x]).file@ != f,
{
    if lacks_some_key(es, f) {
        let x = choose|x: int| 0 <= x < ms.len() && (#[trigger] ms[x]).file@ == f;
        assert(views(ms[x].missing_keys@).to_set() =~= Set::new(|k: Seq<char>| has_key(es, k)).difference(
            Set::new(|k: Seq<char>| in_file(es, k, f)),
        ));
    } else {
        assert forall|x: int| 0 <= x < ms.len() implies (#[trigger] ms[x]).file@ != f by {
            if ms[x].file@ == f {
                let k0 = views(ms[x].missing_keys@)[0];
                assert(views(ms[x].missing_keys@).contains(k0));
                assert(has_key(es, k0) && !in_file(es, k0, f));
                assert(lacks_some_key(es, f));
            }
        };
    }
}

} // verus!
