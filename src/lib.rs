//! Discovery, normalisation and cross-file analysis of configuration files.
//!
//! The library turns environment files and structured YAML, JSON and TOML
//! documents into one flat list of keyed entries, reports keys that are defined
//! in several files or missing from an environment file, and holds the
//! decisions of the incremental cache and of the file watcher.
pub mod types;
pub mod text;
pub mod formats;
pub mod parser;
pub mod analyzer;
pub mod scan;
pub mod scanner;
pub mod watcher;
pub mod cache;
