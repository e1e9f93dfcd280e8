//! Classifying the files found under a root, and the directories skipped.
use vstd::prelude::*;
use crate::text::{chars_equal, chars_of, chars_occur_at, lower_of, lowercase, starts_with, text_of};
use crate::types::{DiscoveredFile, SourceFormat};

verus! {

/// Whether a directory of this name is skipped: dependency caches, version
/// control, build output and coverage directories.
pub open spec fn ignored_name(n: Seq<char>) -> bool {
    ||| n == "node_modules"@
    ||| n == ".git"@
    ||| n == "dist"@
    ||| n == "build"@
    ||| n == "target"@
    ||| n == "venv"@
    ||| n == "__pycache__"@
    ||| n == ".next"@
    ||| n == ".nuxt"@
    ||| n == "coverage"@
    ||| n == ".cache"@
}

/// The index of the last `c` among the first `i` characters of `s`, or -1.
pub open spec fn last_index_before(s: Seq<char>, c: char, i: int) -> int
    decreases i,
{
    if i <= 0 || i > s.len() {
        -1
    } else if s[i - 1] == c {
        i - 1
    } else {
        last_index_before(s, c, i - 1)
    }
}

/// The extension of a file name: what follows its last `.`, unless that `.`
/// is its first character or it has none.
pub open spec fn extension(n: Seq<char>) -> Option<Seq<char>> {
    let d = last_index_before(n, '.', n.len() as int);
    if d <= 0 {
        None
    } else {
        Some(n.subrange(d + 1, n.len() as int))
    }
}

/// The format that a lower-cased extension stands for.
pub open spec fn extension_format(e: Seq<char>) -> Option<SourceFormat> {
    if e == "yaml"@ || e == "yml"@ {
        Some(SourceFormat::Yaml)
    } else if e == "json"@ {
        Some(SourceFormat::Json)
    } else if e == "toml"@ {
        Some(SourceFormat::Toml)
    } else {
        None
    }
}

/// The format of a file by its name: a name starting with `.env` is an
/// environment file whatever follows; otherwise the lower-cased extension decides.
pub open spec fn name_format(n: Seq<char>) -> Option<SourceFormat> {
    if starts_with(n, ".env"@) {
        Some(SourceFormat::Env)
    } else {
        match extension(n) {
            Some(e) => extension_format(lower_of(e)),
            None => None,
        }
    }
}

/// The format of the last record of `found` with path `p`, if any.
pub open spec fn latest_format(found: Seq<(String, SourceFormat)>, p: Seq<char>) -> Option<SourceFormat>
    decreases found.len(),
{
    if found.len() == 0 {
        None
    } else if found.last().0@ == p {
        Some(found.last().1)
    } else {
        latest_format(found.drop_last(), p)
    }
}

/// Whether a directory of this name is skipped during a scan.
pub fn is_ignored(name: &str) -> (r: bool)
    ensures
        r == ignored_name(name@),
{
    let n = chars_of(name);
    chars_equal(&n, &chars_of("node_modules")) || chars_equal(&n, &chars_of(".git"))
        || chars_equal(&n, &chars_of("dist")) || chars_equal(&n, &chars_of("build"))
        || chars_equal(&n, &chars_of("target")) || chars_equal(&n, &chars_of("venv"))
        || chars_equal(&n, &chars_of("__pycache__")) || chars_equal(&n, &chars_of(".next"))
        || chars_equal(&n, &chars_of(".nuxt")) || chars_equal(&n, &chars_of("coverage"))
        || chars_equal(&n, &chars_of(".cache"))
}

/// The format that a lower-cased extension stands for.
pub fn format_for_extension(ext: &str) -> (r: Option<SourceFormat>)
    ensures
        r == extension_format(ext@),
{
    let e = chars_of(ext);
    if chars_equal(&e, &chars_of("yaml")) || chars_equal(&e, &chars_of("yml")) {
        Some(SourceFormat::Yaml)
    } else if chars_equal(&e, &chars_of("json")) {
        Some(SourceFormat::Json)
    } else if chars_equal(&e, &chars_of("toml")) {
        Some(SourceFormat::Toml)
    } else {
        None
    }
}

/// The extension of a file name, as `extension` describes it.
pub fn file_extension(file_name: &str) -> (r: Option<String>)
    ensures
        match r {
            Some(e) => extension(file_name@) == Some(e@),
            None => extension(file_name@) is None,
        },
{
    let n = chars_of(file_name);
    let mut i: usize = n.len();
    while i > 0 && n[i - 1] != '.'
        invariant
            i <= n@.len(),
            last_index_before(n@, '.', n@.len() as int) == last_index_before(n@, '.', i as int),
        decreases i,
    {
        i = i - 1;
    }
    if i <= 1 {
        None
    } else {
        let mut ext: Vec<char> = Vec::new();
        let mut j: usize = i;
        while j < n.len()
            invariant
                i <= j <= n@.len(),
                ext@ == n@.subrange(i as int, j as int),
            decreases n@.len() - j,
        {
            ext.push(n[j]);
            j = j + 1;
            assert(ext@ =~= n@.subrange(i as int, j as int));
        }
        Some(text_of(ext.as_slice()))
    }
}

/// The format of a file by its name, or none for a file that is not a
/// configuration file.
pub fn detect_format(file_name: &str) -> (r: Option<SourceFormat>)
    ensures
        r == name_format(file_name@),
{
    let n = chars_of(file_name);
    if chars_occur_at(&n, &chars_of(".env"), 0) {
        return Some(SourceFormat::Env);
    }
    match file_extension(file_name) {
        Some(e) => format_for_extension(lowercase(e.as_str()).as_str()),
        None => None,
    }
}

/// The discovered files of one traversal: one per distinct path, in order of
/// first sight, each with the format of the last record of its path and a
/// count of zero.
pub fn collect_discovered(found: Vec<(String, SourceFormat)>) -> (r: Vec<DiscoveredFile>)
    ensures
        forall|a: int, b: int| 0 <= a < b < r@.len() ==> (#[trigger] r@[a]).path@ != (#[trigger] r@[b]).path@,
        forall|a: int|
            0 <= a < r@.len() ==> (#[trigger] r@[a]).count == 0 && latest_format(found@, r@[a].path@)
                == Some(r@[a].format),
        forall|i: int|
            0 <= i < found@.len() ==> exists|a: int| 0 <= a < r@.len() && (#[trigger] r@[a]).path@ == (#[trigger] found@[i]).0@,
{
    let ghost all = found@;
    let n = found.len();
    let mut rest = found;
    let mut out: Vec<DiscoveredFile> = Vec::new();
    let mut k: usize = 0;
    proof {
        assert(all.subrange(0, n as int) =~= all);
    }
    while k < n
        invariant
            n == all.len(),
            k <= n,
            rest@ == all.subrange(k as int, n as int),
            forall|a: int, b: int| 0 <= a < b < out@.len() ==> (#[trigger] out@[a]).path@ != (#[trigger] out@[b]).path@,
            forall|a: int|
                0 <= a < out@.len() ==> (#[trigger] out@[a]).count == 0 && latest_format(
                    all.subrange(0, k as int),
                    out@[a].path@,
                ) == Some(out@[a].format),
            forall|i: int|
                0 <= i < k ==> exists|a: int| 0 <= a < out@.len() && (#[trigger] out@[a]).path@ == (#[trigger] all[i]).0@,
        decreases n - k,
    {
        let (path, format) = rest.remove(0);
        let ghost seen = all.subrange(0, k as int);
        let ghost now = all.subrange(0, k + 1);
        proof {
            assert(all[k as int] == (path, format));
            assert(now.drop_last() =~= seen);
            assert(now.last() == (path, format));
        }
        let mut idx: usize = 0;
        while idx < out.len() && out[idx].path != path
            invariant
                idx <= out@.len(),
                forall|a: int| 0 <= a < idx ==> (#[trigger] out@[a]).path@ != path@,
            decreases out@.len() - idx,
        {
            idx = idx + 1;
        }
        let ghost before = out@;
        if idx < out.len() {
            out.set(idx, DiscoveredFile { path, format, count: 0 });
        } else {
            out.push(DiscoveredFile { path, format, count: 0 });
        }
        proof {
            assert forall|a: int| 0 <= a < out@.len() implies (#[trigger] out@[a]).count == 0 && latest_format(
                now,
                out@[a].path@,
            ) == Some(out@[a].format) by {
                if a != idx {
                    assert(out@[a] == before[a]);
                }
            };
            assert forall|a: int, b: int| 0 <= a < b < out@.len() implies (#[trigger] out@[a]).path@
                != (#[trigger] out@[b]).path@ by {
                if a != idx && b != idx {
                    assert(out@[a] == before[a] && out@[b] == before[b]);
                } else if a == idx {
                    assert(out@[b] == before[b]);
                } else {
                    assert(out@[a] == before[a]);
                }
            };
            assert forall|i: int| 0 <= i < k + 1 implies exists|a: int|
                0 <= a < out@.len() && (#[trigger] out@[a]).path@ == (#[trigger] all[i]).0@ by {
                if i < k {
                    let a = choose|a: int| 0 <= a < before.len() && (#[trigger] before[a]).path@ == all[i].0@;
                    if a == idx {
                        assert(out@[idx as int].path@ == all[i].0@);
                    } else {
                        assert(out@[a] == before[a]);
                    }
                } else {
                    assert(out@[idx as int].path@ == all[i].0@);
                }
            };
            assert(rest@ =~= all.subrange(k + 1, n as int));
        }
        k = k + 1;
    }
    out
}

} // verus!
