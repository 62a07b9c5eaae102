//! The trusted boundary to the YAML decoder. The frontmatter block's
//! key/value syntax is decoded by `serde_yaml`; everything after the decode
//! works on the library's own `MetaValue` and is verified.

use vstd::prelude::*;
use crate::meta::{MetaNode, MetaValue};

verus! {

#[verifier::external_type_specification]
#[verifier::external_body]
pub struct ExYamlValue(serde_yaml::Value);

/// The document that the YAML decoder yields for a given text, as the
/// library's tagged value; `None` when the text is not well-formed YAML.
/// The decode depends on the text alone.
pub uninterp spec fn yaml_doc_of(s: Seq<char>) -> Option<MetaNode>;

/// What a decoded YAML node holds, as the library's tagged value.
pub uninterp spec fn yaml_node_of(v: serde_yaml::Value) -> MetaNode;

/// Relies on `serde_yaml::from_str::<serde_yaml::Value>`: it decodes a YAML
/// document into a tree of null / bool / number / string / sequence /
/// mapping nodes, and fails exactly on text that is not well-formed YAML.
#[verifier::external_body]
fn yaml_parse(s: &str) -> (r: Option<serde_yaml::Value>)
    ensures
        match r {
            Some(v) => yaml_doc_of(s@) == Some(yaml_node_of(v)),
            None => yaml_doc_of(s@) is None,
        },
{
    serde_yaml::from_str::<serde_yaml::Value>(s).ok()
}

/// Relies on the variants of `serde_yaml::Value` and on
/// `serde_yaml::to_string`: one arm per variant, moving the fields into
/// the library's tagged value; a number is carried as its decimal
/// rendering, a tagged node as its inner value, and a non-string mapping
/// key as its YAML rendering, trimmed.
#[verifier::external_body]
fn yaml_value_into_meta(v: serde_yaml::Value) -> (r: MetaValue)
    ensures
        r.model() == yaml_node_of(v),
{
    match v {
        serde_yaml::Value::Null => MetaValue::Null,
        serde_yaml::Value::Bool(b) => MetaValue::Bool(b),
        serde_yaml::Value::Number(n) => MetaValue::Num(n.to_string()),
        serde_yaml::Value::String(s) => MetaValue::Str(s),
        serde_yaml::Value::Sequence(xs) => MetaValue::List(xs.into_iter().map(yaml_value_into_meta).collect()),
        serde_yaml::Value::Mapping(m) => MetaValue::Dict(m.into_iter().map(|(k, v)| (match k { serde_yaml::Value::String(s) => s, o => serde_yaml::to_string(&o).unwrap_or_default().trim_end().to_string() }, yaml_value_into_meta(v))).collect()),
        serde_yaml::Value::Tagged(t) => yaml_value_into_meta(t.value),
    }
}

/// Decodes a metadata block: `None` exactly when the text is not
/// well-formed YAML.
pub fn decode_metadata(s: &str) -> (r: Option<MetaValue>)
    ensures
        match r {
            Some(m) => yaml_doc_of(s@) == Some(m.model()),
            None => yaml_doc_of(s@) is None,
        },
{
    match yaml_parse(s) {
        Some(v) => Some(yaml_value_into_meta(v)),
        None => None,
    }
}

} // verus!
