use vstd::prelude::*;

verus! {

/// A TOML document as the config reader sees it: strings, booleans, arrays,
/// tables (their entries in the order the parsed table holds them) and, for
/// every other kind of value (integers, floats, dates), `Other`.
#[derive(Debug)]
pub enum TomlValue {
    Str(String),
    Bool(bool),
    Array(Vec<TomlValue>),
    Table(Vec<(String, TomlValue)>),
    Other,
}

#[verifier::external_type_specification]
#[verifier::external_body]
pub struct ExTomlValue(toml::Value);

/// What `toml` makes of a document: the tree, or the text of its parse error.
pub uninterp spec fn toml_document(text: Seq<char>) -> Result<TomlValue, Seq<char>>;

/// Parses `text` with `<toml::Value as FromStr>::from_str` (toml's `from_str`).
/// The tree comes back as a `TomlValue`, a parse error as the text that
/// `toml::de::Error` displays. Nothing is claimed of which texts parse or of
/// the tree's shape beyond that it is a function of `text`.
#[verifier::external_body]
pub(crate) fn parse_toml(text: &str) -> (r: Result<TomlValue, String>)
    ensures
        match r {
            Ok(t) => toml_document(text@) == Ok::<TomlValue, Seq<char>>(t),
            Err(e) => toml_document(text@) == Err::<TomlValue, Seq<char>>(e@),
        },
{
    match text.parse::<toml::Value>() {
        Ok(v) => Ok(tree_of(v)),
        Err(e) => Err(e.to_string()),
    }
}

/// Changes a `toml::Value` into a `TomlValue`, variant for variant, moving
/// the fields (a table's entries in the order its map yields them); the kinds
/// the reader does not use become `Other`.
#[verifier::external_body]
fn tree_of(v: toml::Value) -> TomlValue {
    match v {
        toml::Value::String(s) => TomlValue::Str(s),
        toml::Value::Boolean(b) => TomlValue::Bool(b),
        toml::Value::Array(items) => TomlValue::Array(items.into_iter().map(tree_of).collect()),
        toml::Value::Table(t) => TomlValue::Table(t.into_iter().map(|(k, x)| (k, tree_of(x))).collect()),
        _ => TomlValue::Other,
    }
}

} // verus!
