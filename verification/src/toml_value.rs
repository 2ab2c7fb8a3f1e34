//! TOML documents as the edit drafts are read back: the `toml` crate
//! parses the text, and the value tree is held in a type of the library.

use vstd::prelude::*;

verus! {

/// A TOML value. Floats keep only their kind: no draft reads a float.
#[derive(Debug)]
pub enum TomlValue {
    String(String),
    Integer(i64),
    Float,
    Boolean(bool),
    Datetime(String),
    Array(Vec<TomlValue>),
    /// The entries of a table, each key once, in the order the parser
    /// lists them.
    Table(Vec<(String, TomlValue)>),
}

#[verifier::external_type_specification]
#[verifier::external_body]
pub struct ExTomlValue(toml::Value);

/// What `toml::from_str::<toml::Value>` gives for `text`: the document's
/// root table, or the parser's error message.
pub uninterp spec fn toml_document(text: Seq<char>) -> Result<TomlValue, Seq<char>>;

/// The `toml` value tree in the library's type, variant for variant.
#[verifier::external_body]
fn toml_value_of(value: toml::Value) -> TomlValue {
    match value {
        toml::Value::String(s) => TomlValue::String(s),
        toml::Value::Integer(i) => TomlValue::Integer(i),
        toml::Value::Float(_) => TomlValue::Float,
        toml::Value::Boolean(b) => TomlValue::Boolean(b),
        toml::Value::Datetime(d) => TomlValue::Datetime(d.to_string()),
        toml::Value::Array(items) => TomlValue::Array(items.into_iter().map(toml_value_of).collect()),
        toml::Value::Table(table) => TomlValue::Table(
            table.into_iter().map(|(k, v)| (k, toml_value_of(v))).collect(),
        ),
    }
}

/// `toml::from_str::<toml::Value>`: parses a TOML document. The result is
/// the one named by `toml_document`; the text of an error is the
/// parser's `Display` output.
#[verifier::external_body]
pub(crate) fn parse_toml_document(text: &str) -> (parsed: Result<TomlValue, String>)
    ensures
        match (parsed, toml_document(text@)) {
            (Ok(v), Ok(w)) => v == w,
            (Err(e), Err(m)) => e@ == m,
            _ => false,
        },
{
    match toml::from_str::<toml::Value>(text) {
        Ok(value) => Ok(toml_value_of(value)),
        Err(err) => Err(err.to_string()),
    }
}

/// The value stored under `key` in a table's entries: the first entry with
/// that key.
pub open spec fn entry_of(entries: Seq<(String, TomlValue)>, key: Seq<char>) -> Option<TomlValue>
    decreases entries.len(),
{
    if entries.len() == 0 {
        None
    } else if entries[0].0@ == key {
        Some(entries[0].1)
    } else {
        entry_of(entries.drop_first(), key)
    }
}

/// `Value::get`: the value under `key` when `value` is a table.
pub open spec fn get_spec(value: TomlValue, key: Seq<char>) -> Option<TomlValue> {
    match value {
        TomlValue::Table(entries) => entry_of(entries@, key),
        _ => None,
    }
}

impl TomlValue {
    /// `Value::get`: the value under `key` when this is a table.
    pub fn get(&self, key: &str) -> (found: Option<&TomlValue>)
        ensures
            match found {
                Some(v) => get_spec(*self, key@) == Some(*v),
                None => get_spec(*self, key@) is None,
            },
    {
        match self {
            TomlValue::Table(entries) => {
                let mut i: usize = 0;
                proof {
                    assert(entries@.skip(0) =~= entries@);
                }
                while i < entries.len()
                    invariant
                        i <= entries@.len(),
                        get_spec(*self, key@) == entry_of(entries@.skip(i as int), key@),
                    decreases entries@.len() - i,
                {
                    proof {
                        assert(entries@.skip(i as int).drop_first() =~= entries@.skip(i + 1));
                    }
                    if crate::keyed::str_eq(entries[i].0.as_str(), key) {
                        return Some(&entries[i].1);
                    }
                    i += 1;
                }
                None
            },
            _ => None,
        }
    }

    /// `Value::as_integer`.
    pub fn as_integer(&self) -> (n: Option<i64>)
        ensures
            match *self {
                TomlValue::Integer(i) => n == Some(i),
                _ => n is None,
            },
    {
        match self {
            TomlValue::Integer(i) => Some(*i),
            _ => None,
        }
    }

    /// `Value::as_str`.
    pub fn as_str(&self) -> (s: Option<&str>)
        ensures
            match *self {
                TomlValue::String(t) => s is Some && s->0@ == t@,
                _ => s is None,
            },
    {
        match self {
            TomlValue::String(t) => Some(t.as_str()),
            _ => None,
        }
    }
}

} // verus!
