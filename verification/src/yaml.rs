//! A YAML document tree as plain values, mirroring the node kinds of a YAML
//! loader: scalars, sequences, and mappings whose entries keep their order.

use vstd::prelude::*;

verus! {

/// One node of a loaded YAML document.
pub enum YamlValue {
    /// A floating-point scalar, kept as its text.
    Real(String),
    /// An integer scalar.
    Integer(i64),
    /// A text scalar.
    Str(String),
    /// A boolean scalar.
    Boolean(bool),
    /// A sequence.
    Array(Vec<YamlValue>),
    /// A mapping, its entries in document order.
    Hash(Vec<(YamlValue, YamlValue)>),
    /// An alias.
    Alias(usize),
    /// The null scalar.
    Null,
    /// A node that could not be read.
    BadValue,
}

/// The text of a text scalar.
pub open spec fn yaml_str(v: YamlValue) -> Option<Seq<char>> {
    match v {
        YamlValue::Str(s) => Some(s@),
        _ => None,
    }
}

/// The value of a boolean scalar.
pub open spec fn yaml_bool(v: YamlValue) -> Option<bool> {
    match v {
        YamlValue::Boolean(b) => Some(b),
        _ => None,
    }
}

/// The items of a sequence.
pub open spec fn yaml_vec(v: YamlValue) -> Option<Seq<YamlValue>> {
    match v {
        YamlValue::Array(items) => Some(items@),
        _ => None,
    }
}

/// The entries of a mapping.
pub open spec fn yaml_hash(v: YamlValue) -> Option<Seq<(YamlValue, YamlValue)>> {
    match v {
        YamlValue::Hash(entries) => Some(entries@),
        _ => None,
    }
}

impl YamlValue {
    /// The text of a text scalar, as `Yaml::as_str`.
    pub fn as_str(&self) -> (r: Option<&String>)
        ensures
            match r {
                Some(s) => yaml_str(*self) == Some(s@),
                None => yaml_str(*self) is None,
            },
    {
        match self {
            YamlValue::Str(s) => Some(s),
            _ => None,
        }
    }

    /// The value of a boolean scalar, as `Yaml::as_bool`.
    pub fn as_bool(&self) -> (r: Option<bool>)
        ensures
            r == yaml_bool(*self),
    {
        match self {
            YamlValue::Boolean(b) => Some(*b),
            _ => None,
        }
    }

    /// The items of a sequence, as `Yaml::as_vec`.
    pub fn as_vec(&self) -> (r: Option<&Vec<YamlValue>>)
        ensures
            match r {
                Some(v) => yaml_vec(*self) == Some(v@),
                None => yaml_vec(*self) is None,
            },
    {
        match self {
            YamlValue::Array(v) => Some(v),
            _ => None,
        }
    }

    /// The entries of a mapping, as `Yaml::as_hash`.
    pub fn as_hash(&self) -> (r: Option<&Vec<(YamlValue, YamlValue)>>)
        ensures
            match r {
                Some(v) => yaml_hash(*self) == Some(v@),
                None => yaml_hash(*self) is None,
            },
    {
        match self {
            YamlValue::Hash(v) => Some(v),
            _ => None,
        }
    }
}

} // verus!
