//! Reading YAML, JSON and TOML documents through their parser crates.
//!
//! Each parser's own value tree is carried over, variant by variant, into a
//! [`ConfigValue`]; everything after that is verified code in `parser`.
use vstd::prelude::*;
use crate::types::ConfigValue;

verus! {

#[verifier::external_type_specification]
#[verifier::external_body]
pub struct ExJsonValue(serde_json::Value);

#[verifier::external_type_specification]
#[verifier::external_body]
pub struct ExJsonError(serde_json::Error);

#[verifier::external_type_specification]
#[verifier::external_body]
pub struct ExYamlValue(serde_yaml::Value);

#[verifier::external_type_specification]
#[verifier::external_body]
pub struct ExYamlError(serde_yaml::Error);

#[verifier::external_type_specification]
#[verifier::external_body]
pub struct ExTomlValue(toml::Value);

#[verifier::external_type_specification]
#[verifier::external_body]
pub struct ExTomlError(toml::de::Error);

/// The tree that `serde_json` reads from a text, or `None` where it rejects the text.
pub uninterp spec fn json_document(text: Seq<char>) -> Option<ConfigValue>;

/// The tree that `serde_yaml` reads from a text, or `None` where it rejects the text.
pub uninterp spec fn yaml_document(text: Seq<char>) -> Option<ConfigValue>;

/// The tree that `toml` reads from a text, or `None` where it rejects the text.
pub uninterp spec fn toml_document(text: Seq<char>) -> Option<ConfigValue>;

/// Relies on `serde_json::from_str` into `serde_json::Value`: whether the text
/// parses, and into which tree, depends on the text alone.
#[verifier::external_body]
pub(crate) fn read_json(text: &str) -> (r: Result<ConfigValue, serde_json::Error>)
    ensures
        match r {
            Ok(v) => json_document(text@) == Some(v),
            Err(_) => json_document(text@) is None,
        },
{
    serde_json::from_str::<serde_json::Value>(text).map(|v| json_tree(&v))
}

/// Carries a `serde_json::Value` over into a `ConfigValue`; a number as its text.
#[verifier::external_body]
fn json_tree(v: &serde_json::Value) -> ConfigValue {
    match v {
        serde_json::Value::Null => ConfigValue::Null,
        serde_json::Value::Bool(b) => ConfigValue::Bool(*b),
        serde_json::Value::Number(n) => ConfigValue::Number(n.to_string()),
        serde_json::Value::String(s) => ConfigValue::String(s.clone()),
        serde_json::Value::Array(a) => ConfigValue::Array(a.iter().map(json_tree).collect()),
        serde_json::Value::Object(m) => ConfigValue::Object(
            m.iter().map(|(k, x)| (Some(k.clone()), json_tree(x))).collect(),
        ),
    }
}

/// Relies on `serde_yaml::from_str` into `serde_yaml::Value`: whether the text
/// parses, and into which tree, depends on the text alone.
#[verifier::external_body]
pub(crate) fn read_yaml(text: &str) -> (r: Result<ConfigValue, serde_yaml::Error>)
    ensures
        match r {
            Ok(v) => yaml_document(text@) == Some(v),
            Err(_) => yaml_document(text@) is None,
        },
{
    serde_yaml::from_str::<serde_yaml::Value>(text).map(|v| yaml_tree(&v))
}

/// Carries a `serde_yaml::Value` over into a `ConfigValue`: a number as its text,
/// a mapping key that is not a string as no key, a tagged value as its debug text.
#[verifier::external_body]
fn yaml_tree(v: &serde_yaml::Value) -> ConfigValue {
    match v {
        serde_yaml::Value::Null => ConfigValue::Null,
        serde_yaml::Value::Bool(b) => ConfigValue::Bool(*b),
        serde_yaml::Value::Number(n) => ConfigValue::Number(n.to_string()),
        serde_yaml::Value::String(s) => ConfigValue::String(s.clone()),
        serde_yaml::Value::Sequence(a) => ConfigValue::Array(a.iter().map(yaml_tree).collect()),
        serde_yaml::Value::Mapping(m) => ConfigValue::Object(
            m.iter().map(|(k, x)| (k.as_str().map(|s| s.to_string()), yaml_tree(x))).collect(),
        ),
        serde_yaml::Value::Tagged(_) => ConfigValue::String(format!("{:?}", v)),
    }
}

/// Relies on `toml::from_str` into `toml::Value`: whether the text parses, and
/// into which tree, depends on the text alone.
#[verifier::external_body]
pub(crate) fn read_toml(text: &str) -> (r: Result<ConfigValue, toml::de::Error>)
    ensures
        match r {
            Ok(v) => toml_document(text@) == Some(v),
            Err(_) => toml_document(text@) is None,
        },
{
    toml::from_str::<toml::Value>(text).map(|v| toml_tree(&v))
}

/// Carries a `toml::Value` over into a `ConfigValue`: a number as its text, a
/// date-time as a string.
#[verifier::external_body]
fn toml_tree(v: &toml::Value) -> ConfigValue {
    match v {
        toml::Value::String(s) => ConfigValue::String(s.clone()),
        toml::Value::Integer(i) => ConfigValue::Number(i.to_string()),
        toml::Value::Float(x) => ConfigValue::Number(x.to_string()),
        toml::Value::Boolean(b) => ConfigValue::Bool(*b),
        toml::Value::Datetime(d) => ConfigValue::String(d.to_string()),
        toml::Value::Array(a) => ConfigValue::Array(a.iter().map(toml_tree).collect()),
        toml::Value::Table(m) => ConfigValue::Object(
            m.iter().map(|(k, x)| (Some(k.clone()), toml_tree(x))).collect(),
        ),
    }
}

} // verus!
