use vstd::prelude::*;

verus! {

/// The format a configuration file is read in.
#[derive(Debug, Clone, Copy, PartialEq, Eq, Structural)]
pub enum SourceFormat {
    Env,
    Yaml,
    Json,
    Toml,
}

/// A target format for exporting entries.
#[derive(Debug, Clone, Copy, PartialEq, Eq, Structural)]
pub enum ExportFormat {
    Env,
    Json,
    Yaml,
}

/// The type that a value is classified as.
#[derive(Debug, Clone, Copy, PartialEq, Eq, Structural)]
pub enum InferredType {
    String,
    Number,
    Boolean,
    Null,
    Unknown,
}

/// A configuration value in one shape for every source format.
///
/// Numbers are held as their decimal text. An object member whose key is not
/// a string (possible in YAML) has no key.
#[derive(Debug)]
pub enum ConfigValue {
    Null,
    Bool(bool),
    Number(String),
    String(String),
    Array(Vec<ConfigValue>),
    Object(Vec<(Option<String>, ConfigValue)>),
}

/// `a` and `b` hold the same value: the same variant, the same characters in
/// every string, and element by element the same values in arrays and objects.
pub open spec fn same_value(a: ConfigValue, b: ConfigValue) -> bool
    decreases a,
{
    match (a, b) {
        (ConfigValue::Null, ConfigValue::Null) => true,
        (ConfigValue::Bool(x), ConfigValue::Bool(y)) => x == y,
        (ConfigValue::Number(x), ConfigValue::Number(y)) => x@ == y@,
        (ConfigValue::String(x), ConfigValue::String(y)) => x@ == y@,
        (ConfigValue::Array(xs), ConfigValue::Array(ys)) => {
            &&& xs@.len() == ys@.len()
            &&& forall|i: int| 0 <= i < xs@.len() ==> same_value(#[trigger] xs@[i], ys@[i])
        },
        (ConfigValue::Object(xs), ConfigValue::Object(ys)) => {
            &&& xs@.len() == ys@.len()
            &&& forall|i: int|
                0 <= i < xs@.len() ==> {
                    &&& same_key(#[trigger] xs@[i].0, ys@[i].0)
                    &&& same_value(xs@[i].1, ys@[i].1)
                }
        },
        _ => false,
    }
}

/// Two optional keys with the same characters, or both absent.
pub open spec fn same_key(a: Option<String>, b: Option<String>) -> bool {
    match (a, b) {
        (Some(x), Some(y)) => x@ == y@,
        (None, None) => true,
        _ => false,
    }
}

impl Clone for ConfigValue {
    fn clone(&self) -> (r: ConfigValue)
        ensures
            same_value(r, *self),
        decreases self,
    {
        match self {
            ConfigValue::Null => ConfigValue::Null,
            ConfigValue::Bool(b) => ConfigValue::Bool(*b),
            ConfigValue::Number(n) => ConfigValue::Number(n.clone()),
            ConfigValue::String(s) => ConfigValue::String(s.clone()),
            ConfigValue::Array(items) => {
                let mut out: Vec<ConfigValue> = Vec::new();
                let mut i: usize = 0;
                while i < items.len()
                    invariant
                        i <= items@.len(),
                        *self == ConfigValue::Array(*items),
                        out@.len() == i,
                        forall|k: int| 0 <= k < i ==> same_value(#[trigger] out@[k], items@[k]),
                    decreases items@.len() - i,
                {
                    proof {
                        vstd::std_specs::vec::axiom_vec_index_decreases(*items, i as int);
                    }
                    assert(decreases_to!(*self => (*self)->Array_0));
                    assert(decreases_to!(*self => items@[i as int]));
                    out.push(items[i].clone());
                    i = i + 1;
                }
                ConfigValue::Array(out)
            },
            ConfigValue::Object(members) => {
                let mut out: Vec<(Option<String>, ConfigValue)> = Vec::new();
                let mut i: usize = 0;
                while i < members.len()
                    invariant
                        i <= members@.len(),
                        *self == ConfigValue::Object(*members),
                        out@.len() == i,
                        forall|k: int|
                            0 <= k < i ==> {
                                &&& same_key(#[trigger] out@[k].0, members@[k].0)
                                &&& same_value(out@[k].1, members@[k].1)
                            },
                    decreases members@.len() - i,
                {
                    proof {
                        vstd::std_specs::vec::axiom_vec_index_decreases(*members, i as int);
                        assert(decreases_to!(members@[i as int] => members@[i as int].1));
                    }
                    assert(decreases_to!(*self => (*self)->Object_0));
                    assert(decreases_to!(*self => members@[i as int].1));
                    let key = match &members[i].0 {
                        Some(k) => Some(k.clone()),
                        None => None,
                    };
                    out.push((key, members[i].1.clone()));
                    i = i + 1;
                }
                ConfigValue::Object(out)
            },
        }
    }
}

/// One flattened key with its value and provenance.
#[derive(Debug)]
pub struct NormalizedEntry {
    pub key: String,
    pub value: Option<ConfigValue>,
    pub source_file: String,
    pub source_format: SourceFormat,
    pub inferred_type: InferredType,
    pub is_secret_guess: Option<bool>,
}

/// `a` and `b` are the same entry: the same characters in key and file, the
/// same value, format, type and guess.
pub open spec fn same_entry(a: NormalizedEntry, b: NormalizedEntry) -> bool {
    &&& a.key@ == b.key@
    &&& match (a.value, b.value) {
        (Some(x), Some(y)) => same_value(x, y),
        (None, None) => true,
        _ => false,
    }
    &&& a.source_file@ == b.source_file@
    &&& a.source_format == b.source_format
    &&& a.inferred_type == b.inferred_type
    &&& a.is_secret_guess == b.is_secret_guess
}

impl Clone for NormalizedEntry {
    fn clone(&self) -> (r: NormalizedEntry)
        ensures
            same_entry(r, *self),
    {
        let value = match &self.value {
            Some(v) => Some(v.clone()),
            None => None,
        };
        NormalizedEntry {
            key: self.key.clone(),
            value,
            source_file: self.source_file.clone(),
            source_format: self.source_format,
            inferred_type: self.inferred_type,
            is_secret_guess: self.is_secret_guess,
        }
    }
}

/// A file found under the scanned root.
#[derive(Debug, Clone)]
pub struct DiscoveredFile {
    pub path: String,
    pub format: SourceFormat,
    pub count: usize,
}

/// A key that is defined in more than one file.
#[derive(Debug, Clone)]
pub struct Duplicate {
    pub key: String,
    pub files: Vec<String>,
}

/// The keys that an environment file lacks.
#[derive(Debug, Clone)]
pub struct MissingKeys {
    pub file: String,
    pub missing_keys: Vec<String>,
}

/// A file that could not be read or parsed.
#[derive(Debug, Clone)]
pub struct ParseError {
    pub file: String,
    pub message: String,
}

/// The problems found in one scan.
#[derive(Debug, Clone)]
pub struct ScanIssues {
    pub duplicates: Vec<Duplicate>,
    pub missing_by_env_file: Vec<MissingKeys>,
    pub parse_errors: Vec<ParseError>,
}

/// Counts over one scan.
#[derive(Debug, Clone)]
pub struct ScanSummary {
    pub total_files: usize,
    pub total_keys: usize,
    pub unique_keys: usize,
}

/// Everything one scan produced.
#[derive(Debug, Clone)]
pub struct ScanResult {
    pub root: String,
    pub files: Vec<DiscoveredFile>,
    pub entries: Vec<NormalizedEntry>,
    pub issues: ScanIssues,
    pub summary: ScanSummary,
}

/// A file modification time, as the seconds and nanoseconds between it and the
/// Unix epoch, counted back from the epoch for a time before it.
#[derive(Debug, Clone, Copy, PartialEq, Eq, Structural)]
pub struct FileStamp {
    pub before_epoch: bool,
    pub secs: u64,
    pub nanos: u32,
}

/// What the cache remembers of one file.
#[derive(Debug, Clone)]
pub struct FileCache {
    pub modified_time: FileStamp,
    pub entries: Vec<NormalizedEntry>,
}

} // verus!
