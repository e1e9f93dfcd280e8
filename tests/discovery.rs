use confscan::scanner::{collect_discovered, detect_format, file_extension, format_for_extension, is_ignored};
use confscan::types::SourceFormat;
use confscan::watcher::{is_relevant_path, should_notify, WatchSession};

#[test]
fn env_prefix_wins_over_extension() {
    assert_eq!(detect_format(".env"), Some(SourceFormat::Env));
    assert_eq!(detect_format(".env.local"), Some(SourceFormat::Env));
    assert_eq!(detect_format(".env.json"), Some(SourceFormat::Env));
}

#[test]
fn extensions_classify_case_insensitively() {
    assert_eq!(detect_format("config.yaml"), Some(SourceFormat::Yaml));
    assert_eq!(detect_format("config.YML"), Some(SourceFormat::Yaml));
    assert_eq!(detect_format("package.Json"), Some(SourceFormat::Json));
    assert_eq!(detect_format("Cargo.toml"), Some(SourceFormat::Toml));
    assert_eq!(detect_format("readme.md"), None);
    assert_eq!(detect_format("Makefile"), None);
    assert_eq!(detect_format(".json"), None);
    assert_eq!(format_for_extension("yml"), Some(SourceFormat::Yaml));
    assert_eq!(format_for_extension("YML"), None);
}

#[test]
fn extension_follows_last_dot() {
    assert_eq!(file_extension("a.b.toml"), Some("toml".to_string()));
    assert_eq!(file_extension("name."), Some(String::new()));
    assert_eq!(file_extension(".hidden"), None);
    assert_eq!(file_extension("plain"), None);
}

#[test]
fn ignore_list_matches_whole_names() {
    for name in ["node_modules", ".git", "dist", "build", "target", "venv", "__pycache__", ".next", ".nuxt", "coverage", ".cache"] {
        assert!(is_ignored(name), "{}", name);
    }
    assert!(!is_ignored("src"));
    assert!(!is_ignored("node_modules2"));
    assert!(!is_ignored("Build"));
}

#[test]
fn rediscovered_path_keeps_last_format() {
    let found = vec![
        ("a/.env".to_string(), SourceFormat::Env),
        ("b.json".to_string(), SourceFormat::Json),
        ("a/.env".to_string(), SourceFormat::Yaml),
    ];
    let files = collect_discovered(found);
    assert_eq!(files.len(), 2);
    assert_eq!(files[0].path, "a/.env");
    assert_eq!(files[0].format, SourceFormat::Yaml);
    assert_eq!(files[1].path, "b.json");
    assert!(files.iter().all(|f| f.count == 0));
}

#[test]
fn relevant_paths() {
    assert!(is_relevant_path("/p/.env"));
    assert!(is_relevant_path("/p/.env.local"));
    assert!(is_relevant_path("/p/a.yaml"));
    assert!(is_relevant_path("/p/a.yml"));
    assert!(is_relevant_path("/p/a.json"));
    assert!(is_relevant_path("/p/a.toml"));
    assert!(!is_relevant_path("/p/readme.md"));
    assert!(!is_relevant_path("/p/a.json.bak"));
}

#[test]
fn burst_of_env_events_notifies_once() {
    let batch: Vec<String> = (0..5).map(|_| "/p/.env".to_string()).collect();
    let notifications = if should_notify(&batch) { 1 } else { 0 };
    assert_eq!(notifications, 1);
}

#[test]
fn unrelated_change_does_not_notify() {
    assert!(!should_notify(&vec!["/p/readme.md".to_string()]));
    assert!(!should_notify(&vec![]));
    assert!(should_notify(&vec!["/p/readme.md".to_string(), "/p/x.toml".to_string()]));
}

#[test]
fn stop_twice_is_no_error() {
    let mut s = WatchSession::new();
    assert_eq!(s.status(), (false, None));
    assert!(!s.start("/a".to_string()));
    assert_eq!(s.status(), (true, Some("/a".to_string())));
    assert!(s.start("/b".to_string()));
    assert_eq!(s.status(), (true, Some("/b".to_string())));
    assert!(s.stop());
    assert!(!s.stop());
    assert_eq!(s.status(), (false, None));
}
