use confscan::cache::ScanCacheState;
use confscan::analyzer::{analyze_entries, distinct_keys, find_duplicates, find_missing_keys};
use confscan::parser::create_entry;
use confscan::scan::{assemble_scan, cached_entries};
use confscan::types::{
    ConfigValue, DiscoveredFile, FileCache, FileStamp, NormalizedEntry, ParseError, SourceFormat,
};

fn entry(key: &str, value: &str, file: &str, format: SourceFormat) -> NormalizedEntry {
    create_entry(
        key.to_string(),
        ConfigValue::String(value.to_string()),
        file.to_string(),
        format,
    )
}

fn sorted(mut v: Vec<String>) -> Vec<String> {
    v.sort();
    v
}

#[test]
fn duplicate_in_two_files_reports_both() {
    let es = vec![
        entry("HOST", "x", ".env", SourceFormat::Env),
        entry("HOST", "x", ".env.prod", SourceFormat::Env),
        entry("ONLY", "y", ".env", SourceFormat::Env),
    ];
    let ds = find_duplicates(&es);
    assert_eq!(ds.len(), 1);
    assert_eq!(ds[0].key, "HOST");
    assert_eq!(sorted(ds[0].files.clone()), vec![".env".to_string(), ".env.prod".to_string()]);
}

#[test]
fn key_repeated_in_one_file_is_no_duplicate() {
    let es = vec![
        entry("A", "1", ".env", SourceFormat::Env),
        entry("A", "2", ".env", SourceFormat::Env),
    ];
    assert!(find_duplicates(&es).is_empty());
    assert!(find_duplicates(&[]).is_empty());
}

#[test]
fn duplicate_files_are_distinct() {
    let es = vec![
        entry("A", "1", "a.json", SourceFormat::Json),
        entry("A", "1", "a.json", SourceFormat::Json),
        entry("A", "1", "b.yaml", SourceFormat::Yaml),
        entry("B", "1", "b.yaml", SourceFormat::Yaml),
        entry("B", "1", "c.toml", SourceFormat::Toml),
        entry("A", "1", "c.toml", SourceFormat::Toml),
    ];
    let ds = find_duplicates(&es);
    assert_eq!(ds.len(), 2);
    assert_eq!(ds[0].key, "A");
    assert_eq!(
        sorted(ds[0].files.clone()),
        vec!["a.json".to_string(), "b.yaml".to_string(), "c.toml".to_string()]
    );
    assert_eq!(ds[1].key, "B");
    assert_eq!(sorted(ds[1].files.clone()), vec!["b.yaml".to_string(), "c.toml".to_string()]);
}

#[test]
fn env_file_lacking_keys_is_reported() {
    let es = vec![
        entry("A", "1", ".env", SourceFormat::Env),
        entry("B", "1", ".env", SourceFormat::Env),
        entry("A", "1", ".env.prod", SourceFormat::Env),
        entry("C", "1", "app.json", SourceFormat::Json),
    ];
    let ms = find_missing_keys(&es);
    assert_eq!(ms.len(), 2);
    assert_eq!(ms[0].file, ".env");
    assert_eq!(sorted(ms[0].missing_keys.clone()), vec!["C".to_string()]);
    assert_eq!(ms[1].file, ".env.prod");
    assert_eq!(sorted(ms[1].missing_keys.clone()), vec!["B".to_string(), "C".to_string()]);
}

#[test]
fn complete_env_file_and_structured_files_are_not_reported() {
    let es = vec![
        entry("A", "1", ".env", SourceFormat::Env),
        entry("B", "1", ".env", SourceFormat::Env),
        entry("A", "1", "app.yaml", SourceFormat::Yaml),
    ];
    assert!(find_missing_keys(&es).is_empty());
}

#[test]
fn analyze_combines_both_checks() {
    let es = vec![
        entry("A", "1", ".env", SourceFormat::Env),
        entry("A", "1", "b.json", SourceFormat::Json),
        entry("B", "1", "b.json", SourceFormat::Json),
    ];
    let issues = analyze_entries(&es);
    assert_eq!(issues.duplicates.len(), 1);
    assert_eq!(issues.missing_by_env_file.len(), 1);
    assert_eq!(issues.missing_by_env_file[0].missing_keys, vec!["B".to_string()]);
    assert!(issues.parse_errors.is_empty());
    assert_eq!(distinct_keys(&es), vec!["A".to_string(), "B".to_string()]);
}

fn file(path: &str, format: SourceFormat) -> DiscoveredFile {
    DiscoveredFile { path: path.to_string(), format, count: 0 }
}

#[test]
fn scan_counts_match_entries_per_file() {
    let files = vec![
        file(".env", SourceFormat::Env),
        file("bad.json", SourceFormat::Json),
        file("c.yaml", SourceFormat::Yaml),
    ];
    let outcomes = vec![
        Ok(vec![entry("A", "1", ".env", SourceFormat::Env), entry("B", "1", ".env", SourceFormat::Env)]),
        Err(ParseError { file: "bad.json".to_string(), message: "JSON parse error: x".to_string() }),
        Ok(vec![entry("A", "1", "c.yaml", SourceFormat::Yaml)]),
    ];
    let r = assemble_scan("/root".to_string(), files, outcomes);
    assert_eq!(r.root, "/root");
    assert_eq!(r.files.iter().map(|f| f.count).collect::<Vec<_>>(), vec![2, 0, 1]);
    for f in &r.files {
        assert_eq!(f.count, r.entries.iter().filter(|e| e.source_file == f.path).count());
    }
    assert_eq!(r.summary.total_files, 3);
    assert_eq!(r.summary.total_keys, 3);
    assert_eq!(r.summary.unique_keys, 2);
    assert_eq!(r.issues.parse_errors.len(), 1);
    assert_eq!(r.issues.parse_errors[0].file, "bad.json");
    assert_eq!(r.issues.duplicates.len(), 1);
    assert!(r.issues.missing_by_env_file.is_empty());
}

#[test]
fn empty_scan_has_zero_summary() {
    let r = assemble_scan("/x".to_string(), vec![], vec![]);
    assert_eq!(r.summary.total_files, 0);
    assert_eq!(r.summary.total_keys, 0);
    assert_eq!(r.summary.unique_keys, 0);
}

#[test]
fn cache_hit_only_at_equal_time() {
    let t = FileStamp { before_epoch: false, secs: 100, nanos: 5 };
    let cached = FileCache { modified_time: t, entries: vec![entry("A", "1", ".env", SourceFormat::Env)] };
    let hit = cached_entries(Some(cached.clone()), t, ".env").expect("hit");
    assert_eq!(hit.len(), 1);
    assert_eq!(hit[0].key, "A");
    assert!(cached_entries(Some(cached.clone()), FileStamp { before_epoch: false, secs: 100, nanos: 6 }, ".env").is_none());
    assert!(cached_entries(Some(cached), t, "b/.env").is_none());
    assert!(cached_entries(None, t, ".env").is_none());
}

struct CountingReader {
    content: String,
    reads: usize,
}

impl CountingReader {
    fn read(&mut self) -> String {
        self.reads += 1;
        self.content.clone()
    }
}

fn scan_once(
    reader: &mut CountingReader,
    cache: &mut Option<FileCache>,
    t: FileStamp,
) -> Vec<NormalizedEntry> {
    if let Some(entries) = cached_entries(cache.clone(), t, ".env") {
        return entries;
    }
    let content = reader.read();
    let entries = confscan::parser::parse_file(&content, ".env", &SourceFormat::Env).unwrap();
    *cache = Some(FileCache { modified_time: t, entries: entries.clone() });
    entries
}

#[test]
fn unmodified_file_is_read_once_across_scans() {
    let mut reader = CountingReader { content: "A=1\nB=two\n".to_string(), reads: 0 };
    let mut cache = None;
    let t = FileStamp { before_epoch: false, secs: 7, nanos: 0 };
    let first = scan_once(&mut reader, &mut cache, t);
    let second = scan_once(&mut reader, &mut cache, t);
    assert_eq!(reader.reads, 1);
    assert_eq!(format!("{:?}", first), format!("{:?}", second));
    let _third = scan_once(&mut reader, &mut cache, FileStamp { before_epoch: false, secs: 8, nanos: 0 });
    assert_eq!(reader.reads, 2);
}

#[test]
fn shared_cache_reuses_only_successful_parses() {
    let cache = ScanCacheState::new();
    let t = FileStamp { before_epoch: false, secs: 1, nanos: 2 };
    assert!(cache.reusable_entries(".env", t).is_none());
    let failed: Result<Vec<NormalizedEntry>, ParseError> =
        Err(ParseError { file: ".env".to_string(), message: "x".to_string() });
    cache.remember(".env".to_string(), t, &failed);
    assert!(cache.get(".env").is_none());
    let ok = Ok(vec![entry("A", "1", ".env", SourceFormat::Env)]);
    let shared = cache.clone();
    shared.remember(".env".to_string(), t, &ok);
    let hit = cache.reusable_entries(".env", t).expect("hit");
    assert_eq!(hit[0].key, "A");
    assert!(cache.reusable_entries(".env", FileStamp { before_epoch: false, secs: 1, nanos: 3 }).is_none());
    assert!(cache.reusable_entries("other", t).is_none());
    let early = FileStamp { before_epoch: true, secs: 1, nanos: 2 };
    assert!(cache.reusable_entries(".env", early).is_none());
}

#[test]
fn record_to_store_keeps_successes_only() {
    let t = FileStamp { before_epoch: false, secs: 3, nanos: 0 };
    let failed: Result<Vec<NormalizedEntry>, ParseError> =
        Err(ParseError { file: "a".to_string(), message: "m".to_string() });
    assert!(confscan::scan::record_to_store(t, &failed).is_none());
    let ok: Result<Vec<NormalizedEntry>, ParseError> =
        Ok(vec![entry("A", "1", ".env", SourceFormat::Env), entry("B", "2", ".env", SourceFormat::Env)]);
    let record = confscan::scan::record_to_store(t, &ok).expect("stored");
    assert_eq!(record.modified_time, t);
    assert_eq!(format!("{:?}", record.entries), format!("{:?}", ok.unwrap()));
}

#[test]
fn cache_record_from_another_file_is_not_reused() {
    let cache = ScanCacheState::new();
    let t = FileStamp { before_epoch: false, secs: 9, nanos: 0 };
    cache.insert(
        "a/.env".to_string(),
        FileCache { modified_time: t, entries: vec![entry("A", "1", "b/.env", SourceFormat::Env)] },
    );
    assert!(cache.reusable_entries("a/.env", t).is_none());
}
