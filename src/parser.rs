//! Turning file contents into flat lists of normalised entries.
use vstd::prelude::*;
use crate::text::{
    chars_contain, chars_of, contains_seq, find_char, find_from, slice_chars, text_of, trim,
    trim_bounds, upper_of, uppercase,
};
use crate::formats::{json_document, read_json, read_toml, read_yaml, toml_document, yaml_document};
use crate::types::{ConfigValue, InferredType, NormalizedEntry, ParseError, SourceFormat};

verus! {

/// Whether an upper-cased key holds one of the markers of a secret.
pub open spec fn marks_secret(upper: Seq<char>) -> bool {
    ||| contains_seq(upper, "SECRET"@)
    ||| contains_seq(upper, "PASSWORD"@)
    ||| contains_seq(upper, "TOKEN"@)
    ||| contains_seq(upper, "API_KEY"@)
    ||| contains_seq(upper, "PRIVATE_KEY"@)
    ||| contains_seq(upper, "CREDENTIALS"@)
}

/// Whether a key is guessed to name a secret: its upper-cased form holds a marker.
pub open spec fn secret_key(key: Seq<char>) -> bool {
    marks_secret(upper_of(key))
}

/// The type that a value is classified as.
pub open spec fn type_of(v: ConfigValue) -> InferredType {
    match v {
        ConfigValue::Null => InferredType::Null,
        ConfigValue::Bool(_) => InferredType::Boolean,
        ConfigValue::Number(_) => InferredType::Number,
        ConfigValue::String(_) => InferredType::String,
        _ => InferredType::Unknown,
    }
}

/// `e` is the entry for key `k` with value `v`, read from file `f` in format `fmt`.
pub open spec fn entry_is(
    e: NormalizedEntry,
    k: Seq<char>,
    v: ConfigValue,
    f: Seq<char>,
    fmt: SourceFormat,
) -> bool {
    &&& e.key@ == k
    &&& e.value == Some(v)
    &&& e.source_file@ == f
    &&& e.source_format == fmt
    &&& e.inferred_type == type_of(v)
    &&& e.is_secret_guess == Some(secret_key(k))
}

/// `es` holds, in order, one entry for each key and value of `ps`.
pub open spec fn entries_for(
    es: Seq<NormalizedEntry>,
    ps: Seq<(Seq<char>, ConfigValue)>,
    f: Seq<char>,
    fmt: SourceFormat,
) -> bool {
    &&& es.len() == ps.len()
    &&& forall|i: int| 0 <= i < es.len() ==> entry_is(#[trigger] es[i], ps[i].0, ps[i].1, f, fmt)
}

/// A value with one layer of matching single or double quotes taken off, if it has one.
pub open spec fn unquote(v: Seq<char>) -> Seq<char> {
    if v.len() >= 2 && v[0] == v.last() && (v[0] == '"' || v[0] == '\'') {
        v.subrange(1, v.len() - 1)
    } else {
        v
    }
}

/// The key and value that one line of an environment file defines, if any.
pub open spec fn env_line(line: Seq<char>) -> Option<(Seq<char>, Seq<char>)> {
    let t = trim(line);
    let e = find_from(t, '=', 0);
    if t.len() == 0 || t[0] == '#' || e >= t.len() {
        None
    } else {
        Some((trim(t.subrange(0, e)), unquote(trim(t.subrange(e + 1, t.len() as int)))))
    }
}

/// The keys and values of the lines of `s` from the line that starts at `start`,
/// having looked at the characters before `i` of that line.
pub open spec fn env_pairs_from(s: Seq<char>, start: int, i: int) -> Seq<(Seq<char>, Seq<char>)>
    decreases s.len() - i,
{
    if i < start || start < 0 {
        seq![]
    } else if i >= s.len() {
        match env_line(s.subrange(start, s.len() as int)) {
            Some(p) => seq![p],
            None => seq![],
        }
    } else if s[i] == '\n' {
        let rest = env_pairs_from(s, i + 1, i + 1);
        match env_line(s.subrange(start, i)) {
            Some(p) => seq![p] + rest,
            None => rest,
        }
    } else {
        env_pairs_from(s, start, i + 1)
    }
}

/// The keys and values that an environment file defines, line by line.
pub open spec fn env_pairs(s: Seq<char>) -> Seq<(Seq<char>, Seq<char>)> {
    env_pairs_from(s, 0, 0)
}

/// `es` holds one string entry for each key and value of `ps`, from environment file `f`.
pub open spec fn env_entries_for(
    es: Seq<NormalizedEntry>,
    ps: Seq<(Seq<char>, Seq<char>)>,
    f: Seq<char>,
) -> bool {
    &&& es.len() == ps.len()
    &&& forall|i: int|
        #![trigger es[i]]
        0 <= i < es.len() ==> {
            &&& es[i].value matches Some(ConfigValue::String(s))
            &&& es[i].value->0->String_0@ == ps[i].1
            &&& entry_is(es[i], ps[i].0, es[i].value->0, f, SourceFormat::Env)
        }
}

/// A nested key: `prefix.key`, or `key` alone at the top.
pub open spec fn join_key(prefix: Seq<char>, key: Seq<char>) -> Seq<char> {
    if prefix.len() == 0 {
        key
    } else {
        prefix + seq!['.'] + key
    }
}

/// The flattened keys and leaf values of `v` under `prefix`: objects are walked,
/// everything else (arrays too) is a leaf, kept whole under `prefix`. At the
/// top, with an empty prefix, a leaf has no key and gives nothing.
pub open spec fn flat_value(prefix: Seq<char>, v: ConfigValue) -> Seq<(Seq<char>, ConfigValue)>
    decreases v,
{
    match v {
        ConfigValue::Object(ms) => flat_members(prefix, ms@),
        _ => if prefix.len() > 0 {
            seq![(prefix, v)]
        } else {
            seq![]
        },
    }
}

/// The flattened keys and leaf values of the members `ms` of an object under `prefix`.
/// A member without a string key contributes nothing.
pub open spec fn flat_members(
    prefix: Seq<char>,
    ms: Seq<(Option<String>, ConfigValue)>,
) -> Seq<(Seq<char>, ConfigValue)>
    decreases ms,
{
    if ms.len() == 0 {
        seq![]
    } else {
        let head = match ms[0].0 {
            Some(k) => if ms[0].1 is Object {
                flat_value(join_key(prefix, k@), ms[0].1)
            } else {
                seq![(join_key(prefix, k@), ms[0].1)]
            },
            None => seq![],
        };
        head + flat_members(prefix, ms.drop_first())
    }
}

/// The keys and values of a list of pairs, seen as character sequences.
pub open spec fn pairs_view(s: Seq<(String, ConfigValue)>) -> Seq<(Seq<char>, ConfigValue)> {
    s.map_values(|p: (String, ConfigValue)| (p.0@, p.1))
}

/// Whether an upper-cased key holds one of the markers of a secret.
pub fn has_secret_marker(upper: &str) -> (r: bool)
    ensures
        r == marks_secret(upper@),
{
    let u = chars_of(upper);
    chars_contain(&u, &chars_of("SECRET")) || chars_contain(&u, &chars_of("PASSWORD"))
        || chars_contain(&u, &chars_of("TOKEN")) || chars_contain(&u, &chars_of("API_KEY"))
        || chars_contain(&u, &chars_of("PRIVATE_KEY")) || chars_contain(
        &u,
        &chars_of("CREDENTIALS"),
    )
}

/// The type that a value is classified as.
pub fn infer_type(value: &ConfigValue) -> (r: InferredType)
    ensures
        r == type_of(*value),
{
    match value {
        ConfigValue::Null => InferredType::Null,
        ConfigValue::Bool(_) => InferredType::Boolean,
        ConfigValue::Number(_) => InferredType::Number,
        ConfigValue::String(_) => InferredType::String,
        _ => InferredType::Unknown,
    }
}

/// The type of a value, and whether its key is guessed to name a secret.
/// The guess is a heuristic on the key's text, not a guarantee.
pub fn infer_type_and_secret(key: &str, value: &ConfigValue) -> (r: (InferredType, bool))
    ensures
        r.0 == type_of(*value),
        r.1 == secret_key(key@),
{
    let upper = uppercase(key);
    (infer_type(value), has_secret_marker(upper.as_str()))
}

/// The entry for `key` with `value`, read from `source_file` in `source_format`.
pub fn create_entry(
    key: String,
    value: ConfigValue,
    source_file: String,
    source_format: SourceFormat,
) -> (r: NormalizedEntry)
    ensures
        entry_is(r, key@, value, source_file@, source_format),
{
    let (inferred_type, is_secret_guess) = infer_type_and_secret(key.as_str(), &value);
    NormalizedEntry {
        key,
        value: Some(value),
        source_file,
        source_format,
        inferred_type,
        is_secret_guess: Some(is_secret_guess),
    }
}

/// The key and value that the line `cs[lo..hi]` defines, if any.
fn parse_env_line(cs: &Vec<char>, lo: usize, hi: usize) -> (r: Option<(Vec<char>, Vec<char>)>)
    requires
        lo <= hi <= cs@.len(),
    ensures
        match r {
            Some(p) => env_line(cs@.subrange(lo as int, hi as int)) == Some((p.0@, p.1@)),
            None => env_line(cs@.subrange(lo as int, hi as int)) is None,
        },
{
    let (a, b) = trim_bounds(cs, lo, hi);
    let t = slice_chars(cs, a, b);
    if t.len() == 0 || t[0] == '#' {
        return None;
    }
    let e = find_char(&t, '=', 0);
    if e >= t.len() {
        return None;
    }
    let (ka, kb) = trim_bounds(&t, 0, e);
    let (va, vb) = trim_bounds(&t, e + 1, t.len());
    let key = slice_chars(&t, ka, kb);
    let ghost v = t@.subrange(va as int, vb as int);
    let value = if vb - va >= 2 && t[va] == t[vb - 1] && (t[va] == '"' || t[va] == '\'') {
        assert(v.subrange(1, v.len() - 1) =~= t@.subrange(va + 1, vb - 1));
        slice_chars(&t, va + 1, vb - 1)
    } else {
        slice_chars(&t, va, vb)
    };
    Some((key, value))
}

/// The key and value of a line as a list: one pair, or none.
pub open spec fn line_pairs(p: Option<(Seq<char>, Seq<char>)>) -> Seq<(Seq<char>, Seq<char>)> {
    match p {
        Some(kv) => seq![kv],
        None => seq![],
    }
}

/// Appends to `entries` the string entry, if any, that the line `cs[lo..hi]`
/// of environment file `file` defines.
fn push_env_line(
    cs: &Vec<char>,
    lo: usize,
    hi: usize,
    file: &String,
    entries: &mut Vec<NormalizedEntry>,
    Ghost(pairs): Ghost<Seq<(Seq<char>, Seq<char>)>>,
)
    requires
        lo <= hi <= cs@.len(),
        env_entries_for(old(entries)@, pairs, file@),
    ensures
        env_entries_for(
            final(entries)@,
            pairs + line_pairs(env_line(cs@.subrange(lo as int, hi as int))),
            file@,
        ),
{
    match parse_env_line(cs, lo, hi) {
        Some((k, v)) => {
            let value = ConfigValue::String(text_of(v.as_slice()));
            entries.push(create_entry(text_of(k.as_slice()), value, file.clone(), SourceFormat::Env));
            assert(pairs.push((k@, v@)) =~= pairs + seq![(k@, v@)]);
        },
        None => {
            assert(pairs + seq![] =~= pairs);
        },
    }
}

/// Parses an environment file: one string entry per `KEY=value` line. Blank lines,
/// lines starting with `#` and lines without `=` are skipped; the value is trimmed
/// and loses one layer of matching quotes. It never fails.
pub fn parse_env(content: &str, file_path: &str) -> (r: Result<Vec<NormalizedEntry>, ParseError>)
    ensures
        r is Ok,
        env_entries_for(r->Ok_0@, env_pairs(content@), file_path@),
{
    let cs = chars_of(content);
    let file = String::from_str(file_path);
    let mut entries: Vec<NormalizedEntry> = Vec::new();
    let ghost pairs: Seq<(Seq<char>, Seq<char>)> = seq![];
    let mut start: usize = 0;
    let mut i: usize = 0;
    while i < cs.len()
        invariant
            start <= i <= cs@.len(),
            pairs + env_pairs_from(cs@, start as int, i as int) == env_pairs(cs@),
            cs@ == content@,
            file@ == file_path@,
            env_entries_for(entries@, pairs, file_path@),
        decreases cs@.len() - i,
    {
        if cs[i] == '\n' {
            let ghost line = line_pairs(env_line(cs@.subrange(start as int, i as int)));
            let ghost rest = env_pairs_from(cs@, i + 1, i + 1);
            push_env_line(&cs, start, i, &file, &mut entries, Ghost(pairs));
            proof {
                assert((pairs + line) + rest =~= pairs + (line + rest));
                assert(line + rest =~= env_pairs_from(cs@, start as int, i as int));
                pairs = pairs + line;
            }
            start = i + 1;
        }
        i = i + 1;
    }
    let ghost line = line_pairs(env_line(cs@.subrange(start as int, i as int)));
    push_env_line(&cs, start, i, &file, &mut entries, Ghost(pairs));
    proof {
        assert(line =~= env_pairs_from(cs@, start as int, i as int));
    }
    Ok(entries)
}

/// The key `prefix.key`, or `key` alone when `prefix` is empty.
fn nested_key(prefix: &String, key: &String) -> (r: String)
    ensures
        r@ == join_key(prefix@, key@),
{
    if prefix.as_str().is_empty() {
        key.clone()
    } else {
        let mut r = prefix.clone();
        r.append(".");
        r.append(key.as_str());
        proof {
            reveal_strlit(".");
        }
        r
    }
}

/// Appends the flattened keys and leaf values of `v` under `prefix` to `out`.
pub fn flatten_value(prefix: &String, v: ConfigValue, out: &mut Vec<(String, ConfigValue)>)
    ensures
        pairs_view(final(out)@) == pairs_view(old(out)@) + flat_value(prefix@, v),
    decreases v,
{
    let ghost whole = v;
    match v {
        ConfigValue::Object(ms) => {
            let ghost all = ms@;
            let ghost target = pairs_view(out@) + flat_members(prefix@, all);
            let ghost k: int = 0;
            let mut rest = ms;
            proof {
                assert(rest@.subrange(0, rest@.len() as int) =~= rest@);
            }
            while rest.len() > 0
                invariant
                    whole == ConfigValue::Object(ms),
                    whole == v,
                    all == ms@,
                    0 <= k <= all.len(),
                    rest@ == all.subrange(k, all.len() as int),
                    pairs_view(out@) + flat_members(prefix@, rest@) == target,
                decreases rest@.len(),
            {
                let ghost before = rest@;
                let (key, value) = rest.remove(0);
                proof {
                    assert(before[0] == all[k]);
                    vstd::std_specs::vec::axiom_vec_index_decreases(ms, k);
                    assert(decreases_to!(whole => whole->Object_0));
                    assert(decreases_to!(whole => value));
                    assert(rest@ =~= before.drop_first());
                }
                let ghost out0 = out@;
                match key {
                    Some(name) => {
                        let nk = nested_key(prefix, &name);
                        if matches!(value, ConfigValue::Object(_)) {
                            flatten_value(&nk, value, out);
                        } else {
                            out.push((nk, value));
                            proof {
                                assert(pairs_view(out@) =~= pairs_view(out0) + seq![(nk@, value)]);
                            }
                        }
                    },
                    None => {},
                }
                proof {
                    assert(pairs_view(out@) + flat_members(prefix@, rest@) =~= pairs_view(out0)
                        + flat_members(prefix@, before));
                    k = k + 1;
                    assert(rest@ =~= all.subrange(k, all.len() as int));
                }
            }
            proof {
                assert(pairs_view(out@) + flat_members(prefix@, rest@) =~= pairs_view(out@));
            }
        },
        other => {
            if !prefix.as_str().is_empty() {
                let ghost out0 = out@;
                out.push((prefix.clone(), other));
                proof {
                    assert(pairs_view(out@) =~= pairs_view(out0) + flat_value(prefix@, whole));
                }
            } else {
                proof {
                    assert(pairs_view(out@) + flat_value(prefix@, whole) =~= pairs_view(out@));
                }
            }
        },
    }
}

/// The entries of a parsed structured document: one per flattened key, in
/// document order, all from `file_path` in `format`.
pub fn entries_from_document(doc: ConfigValue, file_path: &str, format: SourceFormat) -> (r: Vec<
    NormalizedEntry,
>)
    ensures
        entries_for(r@, flat_value(seq![], doc), file_path@, format),
{
    let mut pairs: Vec<(String, ConfigValue)> = Vec::new();
    let top = String::new();
    flatten_value(&top, doc, &mut pairs);
    assert(pairs_view(pairs@) =~= flat_value(seq![], doc)) by {
        assert(pairs_view(Seq::<(String, ConfigValue)>::empty()) =~= seq![]);
        assert(seq![] + flat_value(seq![], doc) =~= flat_value(seq![], doc));
    };
    let ghost ps = pairs_view(pairs@);
    let file = String::from_str(file_path);
    let mut entries: Vec<NormalizedEntry> = Vec::new();
    let ghost k: int = 0;
    let ghost all = pairs@;
    assert(pairs@.subrange(0, pairs@.len() as int) =~= pairs@);
    while pairs.len() > 0
        invariant
            ps == pairs_view(all),
            0 <= k <= all.len(),
            pairs@ == all.subrange(k, all.len() as int),
            entries@.len() == k,
            file@ == file_path@,
            forall|i: int|
                0 <= i < k ==> entry_is(#[trigger] entries@[i], ps[i].0, ps[i].1, file_path@, format),
        decreases pairs@.len(),
    {
        let (key, value) = pairs.remove(0);
        proof {
            assert(all[k] == (key, value));
        }
        entries.push(create_entry(key, value, file.clone(), format));
        proof {
            k = k + 1;
            assert(pairs@ =~= all.subrange(k, all.len() as int));
        }
    }
    entries
}

/// The error for `file_path` whose message is `lead` followed by `detail`.
fn parse_failure(file_path: &str, lead: &str, detail: String) -> (r: ParseError)
    ensures
        r.file@ == file_path@,
        r.message@ == lead@ + detail@,
{
    let mut message = String::from_str(lead);
    message.append(detail.as_str());
    ParseError { file: String::from_str(file_path), message }
}

/// The outcome of reading a structured document: its entries, or an error for
/// `file_path` whose message begins with `lead`.
pub open spec fn document_outcome(
    r: Result<Vec<NormalizedEntry>, ParseError>,
    doc: Option<ConfigValue>,
    file_path: Seq<char>,
    format: SourceFormat,
    lead: Seq<char>,
) -> bool {
    match doc {
        Some(d) => r is Ok && entries_for(r->Ok_0@, flat_value(seq![], d), file_path, format),
        None => r is Err && r->Err_0.file@ == file_path && exists|detail: Seq<char>|
            r->Err_0.message@ == lead + detail,
    }
}

/// The entries of a document that its parser read, or, where the parser
/// rejected the text with message `detail`, an error for `file_path` whose
/// message is `lead` followed by `detail`.
fn document_entries(
    doc: Result<ConfigValue, String>,
    file_path: &str,
    format: SourceFormat,
    lead: &str,
) -> (r: Result<Vec<NormalizedEntry>, ParseError>)
    ensures
        match doc {
            Ok(d) => r is Ok && entries_for(r->Ok_0@, flat_value(seq![], d), file_path@, format),
            Err(_) => r is Err && r->Err_0.file@ == file_path@ && exists|detail: Seq<char>|
                r->Err_0.message@ == lead@ + detail,
        },
{
    match doc {
        Ok(d) => Ok(entries_from_document(d, file_path, format)),
        Err(detail) => {
            let err = parse_failure(file_path, lead, detail);
            assert(err.message@ == lead@ + (err.message@.subrange(
                lead@.len() as int,
                err.message@.len() as int,
            )));
            Err(err)
        },
    }
}

/// Parses a JSON document into flattened entries.
pub fn parse_json(content: &str, file_path: &str) -> (r: Result<Vec<NormalizedEntry>, ParseError>)
    ensures
        document_outcome(r, json_document(content@), file_path@, SourceFormat::Json, "JSON parse error: "@),
{
    let doc = match read_json(content) {
        Ok(d) => Ok(d),
        Err(e) => Err(e.to_string()),
    };
    document_entries(doc, file_path, SourceFormat::Json, "JSON parse error: ")
}

/// Parses a YAML document into flattened entries.
pub fn parse_yaml(content: &str, file_path: &str) -> (r: Result<Vec<NormalizedEntry>, ParseError>)
    ensures
        document_outcome(r, yaml_document(content@), file_path@, SourceFormat::Yaml, "YAML parse error: "@),
{
    let doc = match read_yaml(content) {
        Ok(d) => Ok(d),
        Err(e) => Err(e.to_string()),
    };
    document_entries(doc, file_path, SourceFormat::Yaml, "YAML parse error: ")
}

/// Parses a TOML document into flattened entries.
pub fn parse_toml(content: &str, file_path: &str) -> (r: Result<Vec<NormalizedEntry>, ParseError>)
    ensures
        document_outcome(r, toml_document(content@), file_path@, SourceFormat::Toml, "TOML parse error: "@),
{
    let doc = match read_toml(content) {
        Ok(d) => Ok(d),
        Err(e) => Err(e.to_string()),
    };
    document_entries(doc, file_path, SourceFormat::Toml, "TOML parse error: ")
}

/// What parsing `content`, the text of `file_path`, in `format` yields.
pub open spec fn file_outcome(
    r: Result<Vec<NormalizedEntry>, ParseError>,
    content: Seq<char>,
    file_path: Seq<char>,
    format: SourceFormat,
) -> bool {
    match format {
        SourceFormat::Env => r is Ok && env_entries_for(r->Ok_0@, env_pairs(content), file_path),
        SourceFormat::Json => document_outcome(r, json_document(content), file_path, format, "JSON parse error: "@),
        SourceFormat::Yaml => document_outcome(r, yaml_document(content), file_path, format, "YAML parse error: "@),
        SourceFormat::Toml => document_outcome(r, toml_document(content), file_path, format, "TOML parse error: "@),
    }
}

/// Parses the text of one file in its declared format. Every entry produced
/// carries `relative_path` as its source file.
pub fn parse_file(content: &str, relative_path: &str, format: &SourceFormat) -> (r: Result<
    Vec<NormalizedEntry>,
    ParseError,
>)
    ensures
        file_outcome(r, content@, relative_path@, *format),
        r is Ok ==> forall|j: int|
            0 <= j < r->Ok_0@.len() ==> (#[trigger] r->Ok_0@[j]).source_file@ == relative_path@,
{
    let r = match format {
        SourceFormat::Env => parse_env(content, relative_path),
        SourceFormat::Yaml => parse_yaml(content, relative_path),
        SourceFormat::Json => parse_json(content, relative_path),
        SourceFormat::Toml => parse_toml(content, relative_path),
    };
    proof {
        if r is Ok {
            assert forall|j: int| 0 <= j < r->Ok_0@.len() implies (#[trigger] r->Ok_0@[j]).source_file@
                == relative_path@ by {
                let es = r->Ok_0@;
                assert(es[j] == r->Ok_0@[j]);
            };
        }
    }
    r
}

} // verus!
