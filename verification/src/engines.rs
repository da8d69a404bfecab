//! The calls that the library makes into other crates and into the parts of
//! the standard library that vstd leaves unspecified.
//!
//! Everything here is trusted: Verus believes these contracts without proof.
//! Where an outside function's result takes pages to state (regular
//! expressions, Unicode tables, date parsing, URL parsing) its result gets a
//! name, and the contracts say only that the result is that name applied to
//! the arguments.

use vstd::prelude::*;
use vstd::utf8::*;
use unicode_normalization::UnicodeNormalization;
use base64::Engine;

use crate::yaml::YamlValue;

verus! {

/// The view of an optional text.
pub open spec fn opt_text(o: Option<String>) -> Option<Seq<char>> {
    match o {
        Some(s) => Some(s@),
        None => None,
    }
}

// ------------------------------------------------------------------------
// regex

#[verifier::external_type_specification]
#[verifier::external_body]
pub struct ExRegex(regex::Regex);

/// Whether `RegexBuilder::new(pattern)` with the three flags builds a regex.
pub uninterp spec fn regex_compiles(
    pattern: Seq<char>,
    case_insensitive: bool,
    ignore_whitespace: bool,
    multi_line: bool,
) -> bool;

/// What `Regex::is_match` answers for the regex built from the pattern and flags.
pub uninterp spec fn regex_matches(
    pattern: Seq<char>,
    case_insensitive: bool,
    ignore_whitespace: bool,
    multi_line: bool,
    text: Seq<char>,
) -> bool;

/// What `Regex::replace_all(text, replacement)` yields for the regex built
/// from the pattern and flags.
pub uninterp spec fn regex_replaced(
    pattern: Seq<char>,
    case_insensitive: bool,
    ignore_whitespace: bool,
    multi_line: bool,
    text: Seq<char>,
    replacement: Seq<char>,
) -> Seq<char>;

/// The matches that `Regex::captures_iter(text)` yields for the regex built
/// from the pattern and flags, in order; each match as its groups in the
/// order of `Captures::iter`, a group that did not take part being `None`.
pub uninterp spec fn regex_captures(
    pattern: Seq<char>,
    case_insensitive: bool,
    ignore_whitespace: bool,
    multi_line: bool,
    text: Seq<char>,
) -> Seq<Seq<Option<Seq<char>>>>;

/// A compiled regular expression together with the pattern and flags it was
/// built from. Only `compile_regex` makes one, so the flags and the pattern
/// stored here are those the regex was built with.
pub struct Pattern {
    regex: regex::Regex,
    source: String,
    case_insensitive: bool,
    ignore_whitespace: bool,
    multi_line: bool,
}

impl Pattern {
    /// The pattern text the regex was built from.
    pub closed spec fn source(&self) -> Seq<char> {
        self.source@
    }

    /// The case-insensitive flag it was built with.
    pub closed spec fn case_insensitive(&self) -> bool {
        self.case_insensitive
    }

    /// The ignore-whitespace flag it was built with.
    pub closed spec fn ignore_whitespace(&self) -> bool {
        self.ignore_whitespace
    }

    /// The multi-line flag it was built with.
    pub closed spec fn multi_line(&self) -> bool {
        self.multi_line
    }
}

/// `regex::RegexBuilder::new(pattern)` with `case_insensitive`,
/// `ignore_whitespace` and `multi_line` set, then `build()`; `Regex::new`
/// is this builder with the three flags off. The contract claims that the
/// build succeeds exactly when the named predicate holds, and that the
/// pattern and flags are recorded as given.
#[verifier::external_body]
pub(crate) fn compile_regex(
    pattern: &str,
    case_insensitive: bool,
    ignore_whitespace: bool,
    multi_line: bool,
) -> (r: Option<Pattern>)
    ensures
        r.is_some() == regex_compiles(pattern@, case_insensitive, ignore_whitespace, multi_line),
        r matches Some(p) ==> {
            &&& p.source() == pattern@
            &&& p.case_insensitive() == case_insensitive
            &&& p.ignore_whitespace() == ignore_whitespace
            &&& p.multi_line() == multi_line
        },
{
    match regex::RegexBuilder::new(pattern).case_insensitive(case_insensitive).ignore_whitespace(
        ignore_whitespace,
    ).multi_line(multi_line).build() {
        Ok(regex) => Some(
            Pattern {
                regex,
                source: pattern.to_string(),
                case_insensitive,
                ignore_whitespace,
                multi_line,
            },
        ),
        Err(_) => None,
    }
}

/// `Regex::is_match`: the contract claims the answer is the named result for
/// the pattern, flags and text.
#[verifier::external_body]
pub(crate) fn regex_is_match(p: &Pattern, text: &str) -> (b: bool)
    ensures
        b == regex_matches(
            p.source(),
            p.case_insensitive(),
            p.ignore_whitespace(),
            p.multi_line(),
            text@,
        ),
{
    p.regex.is_match(text)
}

/// `Regex::replace_all(text, replacement)`, the replacement read with `$`
/// group references as the crate documents; the contract claims the result
/// is the named result for the pattern, flags, text and replacement.
#[verifier::external_body]
pub(crate) fn regex_replace_all(p: &Pattern, text: &str, replacement: &str) -> (r: String)
    ensures
        r@ == regex_replaced(
            p.source(),
            p.case_insensitive(),
            p.ignore_whitespace(),
            p.multi_line(),
            text@,
            replacement@,
        ),
{
    p.regex.replace_all(text, replacement).into_owned()
}

/// `Regex::captures_iter(text)`, each match converted to its groups as
/// `Captures::iter` hands them out, each group's text owned. The contract
/// claims the result is the named result.
#[verifier::external_body]
pub(crate) fn regex_captures_all(p: &Pattern, text: &str) -> (r: Vec<Vec<Option<String>>>)
    ensures
        r.deep_view() == regex_captures(
            p.source(),
            p.case_insensitive(),
            p.ignore_whitespace(),
            p.multi_line(),
            text@,
        ),
{
    p.regex.captures_iter(text).map(
        |c| c.iter().map(|m| m.map(|m| m.as_str().to_string())).collect(),
    ).collect()
}

// ------------------------------------------------------------------------
// uuid

/// A lower-case hexadecimal digit.
pub open spec fn is_lower_hex(c: char) -> bool {
    ('0' <= c && c <= '9') || ('a' <= c && c <= 'f')
}

/// A random (version 4, RFC 4122 variant) UUID in the hyphenated lower-case
/// form `xxxxxxxx-xxxx-4xxx-vxxx-xxxxxxxxxxxx`, with `v` one of `8`, `9`,
/// `a`, `b`.
pub open spec fn is_uuid_text(s: Seq<char>) -> bool {
    &&& s.len() == 36
    &&& forall|i: int|
        0 <= i < 36 ==> if i == 8 || i == 13 || i == 18 || i == 23 {
            s[i] == '-'
        } else {
            is_lower_hex(#[trigger] s[i])
        }
    &&& s[14] == '4'
    &&& (s[19] == '8' || s[19] == '9' || s[19] == 'a' || s[19] == 'b')
}

/// `uuid::Uuid::new_v4().to_string()`: a random identifier. The contract
/// claims the text form that `Uuid`'s `Display` writes (hyphenated, lower
/// case) and the version and variant digits that `new_v4` sets; which
/// identifier comes back is left open.
#[verifier::external_body]
pub(crate) fn new_uuid() -> (r: String)
    ensures
        is_uuid_text(r@),
{
    uuid::Uuid::new_v4().to_string()
}

// ------------------------------------------------------------------------
// chrono

/// What `NaiveDate::parse_from_str(text, format)` followed by `to_string()`
/// gives: `None` where parsing fails.
pub uninterp spec fn date_reformatted(text: Seq<char>, format: Seq<char>) -> Option<Seq<char>>;

/// `chrono::NaiveDate::parse_from_str(text, format)`, and on success the
/// date's `Display` text; the contract claims the result is the named result.
#[verifier::external_body]
pub(crate) fn reformat_date(text: &str, format: &str) -> (r: Option<String>)
    ensures
        opt_text(r) == date_reformatted(text@, format@),
{
    match chrono::NaiveDate::parse_from_str(text, format) {
        Ok(d) => Some(d.to_string()),
        Err(_) => None,
    }
}

// ------------------------------------------------------------------------
// unicode-normalization and std's case mappings

/// The canonical decomposition (NFD) of a text.
pub uninterp spec fn nfd_text(s: Seq<char>) -> Seq<char>;

/// `UnicodeNormalization::nfd` collected into a `String`; the contract
/// claims the result is the named decomposition.
#[verifier::external_body]
pub(crate) fn decompose_nfd(s: &str) -> (r: String)
    ensures
        r@ == nfd_text(s@),
{
    s.nfd().collect::<String>()
}

/// The Unicode upper-case mapping of a text.
pub uninterp spec fn upper_text(s: Seq<char>) -> Seq<char>;

/// `str::to_uppercase`; the contract claims the result is the named mapping.
#[verifier::external_body]
pub(crate) fn to_uppercase(s: &str) -> (r: String)
    ensures
        r@ == upper_text(s@),
{
    s.to_uppercase()
}

/// The Unicode lower-case mapping of a text.
pub uninterp spec fn lower_text(s: Seq<char>) -> Seq<char>;

/// `str::to_lowercase`; the contract claims the result is the named mapping.
#[verifier::external_body]
pub(crate) fn to_lowercase(s: &str) -> (r: String)
    ensures
        r@ == lower_text(s@),
{
    s.to_lowercase()
}

// ------------------------------------------------------------------------
// std UTF-8 decoding

/// `std::str::from_utf8`, the text copied into a `String`. The contract
/// claims what the standard library documents: success exactly on valid
/// UTF-8, and then the decoded characters.
#[verifier::external_body]
pub(crate) fn utf8_text(bytes: &[u8]) -> (r: Option<String>)
    ensures
        r.is_some() == valid_utf8(bytes@),
        r matches Some(s) ==> s@ == decode_utf8(bytes@),
{
    match std::str::from_utf8(bytes) {
        Ok(s) => Some(s.to_string()),
        Err(_) => None,
    }
}

// ------------------------------------------------------------------------
// url

/// What `url::Url::parse(text)` gives: on success the decoded key/value pairs
/// of `query_pairs()`, in order; on failure the error's text.
pub uninterp spec fn url_query(text: Seq<char>) -> Result<Seq<(Seq<char>, Seq<char>)>, Seq<char>>;

/// The views of a list of text pairs.
pub open spec fn text_pairs(v: Vec<(String, String)>) -> Seq<(Seq<char>, Seq<char>)> {
    v@.map_values(|e: (String, String)| (e.0@, e.1@))
}

/// `url::Url::parse(text)`, then `query_pairs()` collected as owned pairs, or
/// the parse error's `to_string()`; the contract claims the result is the
/// named result.
#[verifier::external_body]
pub(crate) fn parse_url_query(text: &str) -> (r: Result<Vec<(String, String)>, String>)
    ensures
        match r {
            Ok(v) => url_query(text@) == Ok::<Seq<(Seq<char>, Seq<char>)>, Seq<char>>(text_pairs(v)),
            Err(e) => url_query(text@) == Err::<Seq<(Seq<char>, Seq<char>)>, Seq<char>>(e@),
        },
{
    match url::Url::parse(text) {
        Ok(u) => Ok(u.query_pairs().map(|(k, v)| (k.into_owned(), v.into_owned())).collect()),
        Err(e) => Err(e.to_string()),
    }
}

// ------------------------------------------------------------------------
// yaml-rust

#[verifier::external_type_specification]
#[verifier::external_body]
pub struct ExYaml(yaml_rust::Yaml);

/// A node of yaml-rust as the library's YAML value, one arm per variant.
#[verifier::external_body]
fn yaml_value(y: &yaml_rust::Yaml) -> YamlValue {
    match y {
        yaml_rust::Yaml::Real(s) => YamlValue::Real(s.clone()),
        yaml_rust::Yaml::Integer(i) => YamlValue::Integer(*i),
        yaml_rust::Yaml::String(s) => YamlValue::Str(s.clone()),
        yaml_rust::Yaml::Boolean(b) => YamlValue::Boolean(*b),
        yaml_rust::Yaml::Array(v) => YamlValue::Array(v.iter().map(yaml_value).collect()),
        yaml_rust::Yaml::Hash(h) => YamlValue::Hash(h.iter().map(|(k, v)| (yaml_value(k), yaml_value(v))).collect()),
        yaml_rust::Yaml::Alias(n) => YamlValue::Alias(*n),
        yaml_rust::Yaml::Null => YamlValue::Null,
        yaml_rust::Yaml::BadValue => YamlValue::BadValue,
    }
}

/// The documents that `YamlLoader::load_from_str(text)` reads, `None` where
/// it reports a scan error.
pub uninterp spec fn yaml_documents(text: Seq<char>) -> Option<Seq<YamlValue>>;

/// `yaml_rust::YamlLoader::load_from_str(text)`, each document converted to
/// the library's YAML value, the error dropped; the contract claims the
/// result is the named result.
#[verifier::external_body]
pub(crate) fn load_yaml_text(text: &str) -> (r: Option<Vec<YamlValue>>)
    ensures
        match r {
            Some(d) => yaml_documents(text@) == Some(d@),
            None => yaml_documents(text@) is None,
        },
{
    match yaml_rust::YamlLoader::load_from_str(text) {
        Ok(docs) => Some(docs.iter().map(yaml_value).collect()),
        Err(_) => None,
    }
}

// ------------------------------------------------------------------------
// serde_json

/// The JSON array text that `serde_json::to_string` writes for a list of
/// texts, the empty text should it report an error.
pub uninterp spec fn json_text_list(items: Seq<Seq<char>>) -> Seq<char>;

/// `serde_json::to_string(items)`, the error mapped to the empty text; the
/// contract claims the result is the named result.
#[verifier::external_body]
pub(crate) fn to_json_list(items: &Vec<String>) -> (r: String)
    ensures
        r@ == json_text_list(items.deep_view()),
{
    match serde_json::to_string(items) {
        Ok(text) => text,
        Err(_) => String::new(),
    }
}

// ------------------------------------------------------------------------
// base64

/// What the standard base64 engine (`general_purpose::STANDARD`, with
/// padding) encodes the bytes as.
pub uninterp spec fn base64_encoded(bytes: Seq<u8>) -> Seq<char>;

/// What the standard base64 engine decodes the text to; `None` where the
/// text is not valid padded base64.
pub uninterp spec fn base64_decoded(text: Seq<char>) -> Option<Seq<u8>>;

/// `base64::engine::general_purpose::STANDARD.encode(bytes)`; the contract
/// claims the result is the named encoding and that the same engine decodes
/// it back to the bytes.
#[verifier::external_body]
pub(crate) fn base64_encode(bytes: &[u8]) -> (r: String)
    ensures
        r@ == base64_encoded(bytes@),
        base64_decoded(r@) == Some(bytes@),
{
    base64::engine::general_purpose::STANDARD.encode(bytes)
}

/// `base64::engine::general_purpose::STANDARD.decode(text)`, the error
/// dropped; the contract claims the result is the named decoding.
#[verifier::external_body]
pub(crate) fn base64_decode(text: &str) -> (r: Option<Vec<u8>>)
    ensures
        match r {
            Some(v) => base64_decoded(text@) == Some(v@),
            None => base64_decoded(text@) is None,
        },
{
    base64::engine::general_purpose::STANDARD.decode(text).ok()
}

} // verus!
