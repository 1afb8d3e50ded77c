//! The configuration document model: an ordered mapping of keys to values,
//! obtained from TOML text. The logic of the crate reads only strings, arrays
//! and tables; every other kind of value is kept as its type name, which is
//! all the diagnostics need.

use vstd::prelude::*;
use crate::errors::{FieldError, SpecificFieldError};

verus! {

/// One value of a configuration document.
#[derive(Debug, PartialEq, Eq)]
pub enum ConfigValue {
    Str(String),
    Arr(Vec<ConfigValue>),
    Table(Vec<(String, ConfigValue)>),
    /// A value of any other kind, kept as its type name.
    Other(String),
}

/// The name of a value's kind, as diagnostics write it.
pub open spec fn spec_type_str(v: ConfigValue) -> Seq<char> {
    match v {
        ConfigValue::Str(_) => "string"@,
        ConfigValue::Arr(_) => "array"@,
        ConfigValue::Table(_) => "table"@,
        ConfigValue::Other(t) => t@,
    }
}

/// The first binding of `key` in a table, if any.
pub open spec fn spec_table_lookup(
    t: Seq<(String, ConfigValue)>,
    key: Seq<char>,
) -> Option<ConfigValue>
    decreases t.len(),
{
    if t.len() == 0 {
        None
    } else if t[0].0@ == key {
        Some(t[0].1)
    } else {
        spec_table_lookup(t.skip(1), key)
    }
}

impl ConfigValue {
    /// The name of this value's kind, as diagnostics write it.
    pub fn type_str(&self) -> (r: String)
        ensures
            r@ == spec_type_str(*self),
    {
        match self {
            ConfigValue::Str(_) => "string".to_owned(),
            ConfigValue::Arr(_) => "array".to_owned(),
            ConfigValue::Table(_) => "table".to_owned(),
            ConfigValue::Other(t) => t.clone(),
        }
    }
}

/// Find the first binding of `key` in a table.
pub fn table_lookup<'a>(
    t: &'a Vec<(String, ConfigValue)>,
    key: &String,
) -> (r: Option<&'a ConfigValue>)
    ensures
        match r {
            Some(v) => spec_table_lookup(t@, key@) == Some(*v),
            None => spec_table_lookup(t@, key@) is None,
        },
{
    proof {
        assert(t@.skip(0) =~= t@);
    }
    let mut i: usize = 0;
    while i < t.len()
        invariant
            0 <= i <= t@.len(),
            spec_table_lookup(t@, key@) == spec_table_lookup(t@.skip(i as int), key@),
        decreases t@.len() - i,
    {
        proof {
            assert(t@.skip(i as int)[0] == t@[i as int]);
            assert(t@.skip(i as int).skip(1) =~= t@.skip(i as int + 1));
        }
        if t[i].0 == *key {
            return Some(&t[i].1);
        }
        i = i + 1;
    }
    proof {
        assert(t@.skip(i as int).len() == 0);
    }
    None
}

/// What the TOML parser makes of a text: a document for well-formed text and
/// nothing otherwise. The outcome depends on the text alone.
pub uninterp spec fn toml_document(text: Seq<char>) -> Option<ConfigValue>;

/// Relies on `toml::Value`: only carried between the two parse helpers below.
#[verifier::external_type_specification]
#[verifier::external_body]
pub struct ExTomlValue(toml::Value);

/// Relies on the variants of `toml::Value`: each arm moves the matching
/// payload; kinds the crate's logic never reads keep their type name.
#[verifier::external_body]
fn convert_value(v: &toml::Value) -> ConfigValue {
    match v {
        toml::Value::String(s) => ConfigValue::Str(s.clone()),
        toml::Value::Array(a) => ConfigValue::Arr(a.iter().map(convert_value).collect()),
        toml::Value::Table(t) => ConfigValue::Table(
            t.iter().map(|(k, entry)| (k.clone(), convert_value(entry))).collect(),
        ),
        other => ConfigValue::Other(other.type_str().to_owned()),
    }
}

/// Relies on `toml::Table::from_str`, the `toml` crate's document parser: it
/// accepts a text if and only if the text is well-formed TOML, the document
/// it returns is a function of the text alone, and a document is always a
/// table at its top level.
#[verifier::external_body]
pub(crate) fn parse_document(text: &str) -> (r: Result<ConfigValue, String>)
    ensures
        match r {
            Ok(v) => toml_document(text@) == Some(v) && v is Table,
            Err(_) => toml_document(text@) is None,
        },
{
    match text.parse::<toml::Table>() {
        Ok(t) => Ok(convert_value(&toml::Value::Table(t))),
        Err(e) => Err(e.message().to_owned()),
    }
}

/// Read a required field of a table, as the rule compiler does.
pub fn force_get<'a>(
    t: &'a Vec<(String, ConfigValue)>,
    field: &str,
) -> (r: Result<&'a ConfigValue, FieldError>)
    ensures
        match r {
            Ok(v) => spec_table_lookup(t@, field@) == Some(*v),
            Err(e) => spec_table_lookup(t@, field@) is None && e.field@ == field@ && e.error
                == SpecificFieldError::MissingField,
        },
{
    match table_lookup(t, &field.to_owned()) {
        Some(v) => Ok(v),
        None => Err(FieldError::new(field, SpecificFieldError::MissingField)),
    }
}

/// Read a field that must hold a string, as the rule compiler does.
pub fn force_as_str<'a>(v: &'a ConfigValue, field: &str) -> (r: Result<&'a String, FieldError>)
    ensures
        match r {
            Ok(s) => *v == ConfigValue::Str(*s),
            Err(e) => {
                &&& !(*v is Str)
                &&& e.field@ == field@
                &&& e.error matches SpecificFieldError::FieldType { expected, actual }
                    && expected@ == "string"@ && actual@ == spec_type_str(*v)
            },
        },
{
    match v {
        ConfigValue::Str(s) => Ok(s),
        _ => Err(
            FieldError::new(
                field,
                SpecificFieldError::FieldType {
                    expected: "string".to_owned(),
                    actual: v.type_str(),
                },
            ),
        ),
    }
}

} // verus!
