use confscan::parser::{
    create_entry, has_secret_marker, infer_type_and_secret, parse_env, parse_file, parse_json,
    parse_toml, parse_yaml,
};
use confscan::types::{ConfigValue, InferredType, NormalizedEntry, SourceFormat};

fn find<'a>(entries: &'a [NormalizedEntry], key: &str) -> &'a NormalizedEntry {
    entries.iter().find(|e| e.key == key).expect("key present")
}

fn number_text(e: &NormalizedEntry) -> String {
    match &e.value {
        Some(ConfigValue::Number(n)) => n.clone(),
        other => panic!("not a number: {:?}", other),
    }
}

fn string_text(e: &NormalizedEntry) -> String {
    match &e.value {
        Some(ConfigValue::String(s)) => s.clone(),
        other => panic!("not a string: {:?}", other),
    }
}

#[test]
fn env_quoted_value_is_unwrapped() {
    let entries = parse_env("FOO=\"bar baz\"", ".env").unwrap();
    assert_eq!(entries.len(), 1);
    assert_eq!(entries[0].key, "FOO");
    assert_eq!(string_text(&entries[0]), "bar baz");
    assert_eq!(entries[0].inferred_type, InferredType::String);
    assert_eq!(entries[0].source_file, ".env");
    assert_eq!(entries[0].source_format, SourceFormat::Env);
    assert_eq!(entries[0].is_secret_guess, Some(false));
}

#[test]
fn env_skips_lines_without_equals_and_comments() {
    let content = "# heading\nNOEQUALS\n#FOO=bar\n\n   \nPORT = 8080 \nNAME='app'\r\nEMPTY=\n";
    let entries = parse_env(content, "config/.env.local").unwrap();
    let keys: Vec<&str> = entries.iter().map(|e| e.key.as_str()).collect();
    assert_eq!(keys, vec!["PORT", "NAME", "EMPTY"]);
    assert_eq!(string_text(&entries[0]), "8080");
    assert_eq!(string_text(&entries[1]), "app");
    assert_eq!(string_text(&entries[2]), "");
    assert!(entries.iter().all(|e| e.source_file == "config/.env.local"));
}

#[test]
fn env_splits_at_first_equals_and_keeps_repeated_keys() {
    let entries = parse_env("URL=a=b\nURL=c", ".env").unwrap();
    assert_eq!(entries.len(), 2);
    assert_eq!(string_text(&entries[0]), "a=b");
    assert_eq!(string_text(&entries[1]), "c");
}

#[test]
fn env_unwraps_only_one_matching_layer() {
    let entries = parse_env("A=\"'x'\"\nB=\"open\nC=\"\"", ".env").unwrap();
    assert_eq!(string_text(&entries[0]), "'x'");
    assert_eq!(string_text(&entries[1]), "\"open");
    assert_eq!(string_text(&entries[2]), "");
}

#[test]
fn secret_heuristic_flags_password_not_port() {
    let v = ConfigValue::String("x".to_string());
    assert_eq!(infer_type_and_secret("DB_PASSWORD", &v), (InferredType::String, true));
    assert_eq!(infer_type_and_secret("DB_PORT", &v), (InferredType::String, false));
}

#[test]
fn secret_heuristic_ignores_case() {
    let v = ConfigValue::Null;
    assert_eq!(infer_type_and_secret("github_token", &v), (InferredType::Null, true));
    assert_eq!(infer_type_and_secret("app.api_key", &v), (InferredType::Null, true));
    assert!(!has_secret_marker("github_token"));
    assert!(has_secret_marker("MY_CREDENTIALS_FILE"));
    assert!(has_secret_marker("PRIVATE_KEY"));
    assert!(has_secret_marker("SECRET"));
}

#[test]
fn create_entry_classifies_value() {
    let e = create_entry(
        "flag".to_string(),
        ConfigValue::Bool(true),
        "a.yaml".to_string(),
        SourceFormat::Yaml,
    );
    assert_eq!(e.inferred_type, InferredType::Boolean);
    assert_eq!(e.is_secret_guess, Some(false));
    assert!(matches!(e.value, Some(ConfigValue::Bool(true))));
    let n = create_entry("n".to_string(), ConfigValue::Number("3".to_string()), "a".to_string(), SourceFormat::Json);
    assert_eq!(n.inferred_type, InferredType::Number);
    let a = create_entry("l".to_string(), ConfigValue::Array(vec![]), "a".to_string(), SourceFormat::Json);
    assert_eq!(a.inferred_type, InferredType::Unknown);
}

#[test]
fn json_nested_objects_flatten_to_dotted_keys() {
    let entries = parse_json(r#"{"a": {"b": 1, "c": {"d": 2}}}"#, "app.json").unwrap();
    assert_eq!(entries.len(), 2);
    let b = find(&entries, "a.b");
    assert_eq!(number_text(b), "1");
    assert_eq!(b.inferred_type, InferredType::Number);
    let d = find(&entries, "a.c.d");
    assert_eq!(number_text(d), "2");
    assert_eq!(d.inferred_type, InferredType::Number);
    assert_eq!(d.source_format, SourceFormat::Json);
}

#[test]
fn json_arrays_stay_whole() {
    let entries = parse_json(r#"{"a": [1, 2, 3]}"#, "app.json").unwrap();
    assert_eq!(entries.len(), 1);
    assert_eq!(entries[0].key, "a");
    assert_eq!(entries[0].inferred_type, InferredType::Unknown);
    match &entries[0].value {
        Some(ConfigValue::Array(items)) => assert_eq!(items.len(), 3),
        other => panic!("not an array: {:?}", other),
    }
}

#[test]
fn json_scalars_and_empty_objects() {
    let entries = parse_json(r#"{"s": "x", "t": true, "n": null, "e": {}}"#, "a.json").unwrap();
    assert_eq!(entries.len(), 3);
    assert_eq!(find(&entries, "s").inferred_type, InferredType::String);
    assert_eq!(find(&entries, "t").inferred_type, InferredType::Boolean);
    assert_eq!(find(&entries, "n").inferred_type, InferredType::Null);
    let top = parse_json("[1, 2]", "a.json").unwrap();
    assert_eq!(top.len(), 0);
}

#[test]
fn json_error_names_file() {
    let err = parse_json("{not json", "bad.json").unwrap_err();
    assert_eq!(err.file, "bad.json");
    assert!(err.message.starts_with("JSON parse error: "));
    assert!(err.message.len() > "JSON parse error: ".len());
}

#[test]
fn yaml_nested_mappings_flatten() {
    let content = "a:\n  b: 1\n  c:\n    d: 2\nlist:\n  - x\n  - y\nname: demo\n";
    let entries = parse_yaml(content, "conf.yaml").unwrap();
    assert_eq!(entries.len(), 4);
    assert_eq!(number_text(find(&entries, "a.b")), "1");
    assert_eq!(number_text(find(&entries, "a.c.d")), "2");
    assert_eq!(string_text(find(&entries, "name")), "demo");
    assert!(matches!(find(&entries, "list").value, Some(ConfigValue::Array(_))));
    assert_eq!(find(&entries, "list").inferred_type, InferredType::Unknown);
}

#[test]
fn yaml_error_names_file() {
    let err = parse_yaml("a: [1, 2", "bad.yml").unwrap_err();
    assert_eq!(err.file, "bad.yml");
    assert!(err.message.starts_with("YAML parse error: "));
}

#[test]
fn toml_tables_flatten_and_dates_become_strings() {
    let content = "title = \"x\"\nwhen = 1979-05-27T07:32:00Z\nports = [80, 443]\n[server]\nhost = \"h\"\n[server.tls]\nenabled = true\n";
    let entries = parse_toml(content, "Cargo.toml").unwrap();
    assert_eq!(entries.len(), 5);
    assert_eq!(string_text(find(&entries, "server.host")), "h");
    assert_eq!(find(&entries, "server.tls.enabled").inferred_type, InferredType::Boolean);
    let when = find(&entries, "when");
    assert_eq!(when.inferred_type, InferredType::String);
    assert_eq!(string_text(when), "1979-05-27T07:32:00Z");
    assert_eq!(find(&entries, "ports").inferred_type, InferredType::Unknown);
}

#[test]
fn toml_error_names_file() {
    let err = parse_toml("a = = 1", "bad.toml").unwrap_err();
    assert_eq!(err.file, "bad.toml");
    assert!(err.message.starts_with("TOML parse error: "));
}

#[test]
fn parse_file_dispatches_on_format() {
    let env = parse_file("A=1", ".env", &SourceFormat::Env).unwrap();
    assert_eq!(env[0].source_format, SourceFormat::Env);
    let json = parse_file(r#"{"A": 1}"#, "a.json", &SourceFormat::Json).unwrap();
    assert_eq!(json[0].source_format, SourceFormat::Json);
    assert!(parse_file("A=1", "a.json", &SourceFormat::Json).is_err());
}

#[test]
fn leaf_under_prefix_keeps_its_prefix() {
    let mut out = Vec::new();
    confscan::parser::flatten_value(&"db.port".to_string(), ConfigValue::Number("5432".to_string()), &mut out);
    assert_eq!(out.len(), 1);
    assert_eq!(out[0].0, "db.port");
    assert!(matches!(&out[0].1, ConfigValue::Number(n) if n == "5432"));
    let mut top = Vec::new();
    confscan::parser::flatten_value(&String::new(), ConfigValue::Array(vec![ConfigValue::Null]), &mut top);
    assert!(top.is_empty());
    let mut arr = Vec::new();
    confscan::parser::flatten_value(&"list".to_string(), ConfigValue::Array(vec![ConfigValue::Null]), &mut arr);
    assert_eq!(arr.len(), 1);
    assert!(matches!(&arr[0].1, ConfigValue::Array(items) if items.len() == 1));
}

#[test]
fn cloned_value_is_deep_copy() {
    let v = ConfigValue::Object(vec![
        (Some("a".to_string()), ConfigValue::Array(vec![ConfigValue::Bool(true), ConfigValue::String("s".to_string())])),
        (None, ConfigValue::Number("2".to_string())),
    ]);
    assert_eq!(format!("{:?}", v.clone()), format!("{:?}", v));
    let e = create_entry("K".to_string(), v, "f.yaml".to_string(), SourceFormat::Yaml);
    assert_eq!(format!("{:?}", e.clone()), format!("{:?}", e));
}
