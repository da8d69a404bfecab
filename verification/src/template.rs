//! The parse template: a named set of field expressions with options, used to
//! recognise a kind of document and to extract its fields from the raw text.

use vstd::prelude::*;

use crate::dict::{TextListMap, TextMap};
use crate::engines::{
    compile_regex, new_uuid, regex_compiles, regex_replace_all, regex_replaced, to_uppercase,
    upper_text, is_uuid_text,
};
use crate::text::{is_prefix, starts_with};

verus! {

/// One field of a template: where its value is found in the text.
pub struct ParseField {
    /// The field's name; `static_` at its start marks a constant field, and
    /// `_float` / `_date` at its end mark numbers and dates.
    pub name: String,
    /// The field's data.
    pub data: String,
    /// Regex flags of the field: `i`, `g`, `m`, `x`.
    pub modifiers: String,
    /// The expression that finds the value (the value itself for a constant field).
    pub regex: String,
    /// The field's format.
    pub format: String,
}

/// The view of a field.
pub struct FieldModel {
    pub name: Seq<char>,
    pub data: Seq<char>,
    pub modifiers: Seq<char>,
    pub regex: Seq<char>,
    pub format: Seq<char>,
}

impl View for ParseField {
    type V = FieldModel;

    open spec fn view(&self) -> FieldModel {
        FieldModel {
            name: self.name@,
            data: self.data@,
            modifiers: self.modifiers@,
            regex: self.regex@,
            format: self.format@,
        }
    }
}

/// The general parameters of the parsing.
pub struct ParseOption {
    /// The language, e.g. `de-DE`.
    pub langu: String,
    /// The format for dates.
    pub date_formats: String,
    /// Substitutions applied to the text first: (expression, replacement).
    pub replace: Vec<(String, String)>,
    /// Fields that must be found.
    pub required_fields: Vec<String>,
    /// The decimal separator of numbers.
    pub decimal_separator: String,
    /// The thousands separator of numbers.
    pub thousand_separator: String,
    /// The separator that links the groups of one match.
    pub group_separator: String,
    /// Whether accents are removed from the text.
    pub remove_accents: bool,
    /// Regex flags for all fields: `i` case insensitive, `g` global match,
    /// `m` multi-line, `x` ignore whitespace.
    pub modifiers: String,
    /// The currency.
    pub currency: String,
}

/// The view of the options.
pub struct OptionModel {
    pub langu: Seq<char>,
    pub date_formats: Seq<char>,
    pub replace: Seq<(Seq<char>, Seq<char>)>,
    pub required_fields: Seq<Seq<char>>,
    pub decimal_separator: Seq<char>,
    pub thousand_separator: Seq<char>,
    pub group_separator: Seq<char>,
    pub remove_accents: bool,
    pub modifiers: Seq<char>,
    pub currency: Seq<char>,
}

impl View for ParseOption {
    type V = OptionModel;

    open spec fn view(&self) -> OptionModel {
        OptionModel {
            langu: self.langu@,
            date_formats: self.date_formats@,
            replace: self.replace.deep_view(),
            required_fields: self.required_fields.deep_view(),
            decimal_separator: self.decimal_separator@,
            thousand_separator: self.thousand_separator@,
            group_separator: self.group_separator@,
            remove_accents: self.remove_accents,
            modifiers: self.modifiers@,
            currency: self.currency@,
        }
    }
}

/// A template for recognising and parsing one kind of document.
pub struct ParseTemplate {
    /// A unique identifier.
    pub id: String,
    /// The name, for identification.
    pub name: String,
    /// The group the template belongs to, e.g. invoices.
    pub group: String,
    /// Expressions that a text must match for the template to apply.
    pub test: Vec<String>,
    /// The general parameters of the parsing.
    pub options: ParseOption,
    /// The fields to extract.
    pub fields: Vec<ParseField>,
    /// Messages about loading and parsing.
    pub protocol: Vec<String>,
    /// The extracted value of each field.
    pub data: TextMap,
    /// Every match of each field's expression.
    pub reg_ex: TextListMap,
    /// Further messages per field.
    pub parse_protocol: TextListMap,
}

/// The views of a list of fields.
pub open spec fn fields_view(v: Seq<ParseField>) -> Seq<FieldModel> {
    v.map_values(|f: ParseField| f@)
}

/// The view of a template.
pub struct TemplateModel {
    pub id: Seq<char>,
    pub name: Seq<char>,
    pub group: Seq<char>,
    pub test: Seq<Seq<char>>,
    pub options: OptionModel,
    pub fields: Seq<FieldModel>,
    pub protocol: Seq<Seq<char>>,
    pub data: Map<Seq<char>, Seq<char>>,
    pub reg_ex: Map<Seq<char>, Seq<Seq<char>>>,
    pub parse_protocol: Map<Seq<char>, Seq<Seq<char>>>,
}

impl View for ParseTemplate {
    type V = TemplateModel;

    open spec fn view(&self) -> TemplateModel {
        TemplateModel {
            id: self.id@,
            name: self.name@,
            group: self.group@,
            test: self.test.deep_view(),
            options: self.options@,
            fields: fields_view(self.fields@),
            protocol: self.protocol.deep_view(),
            data: self.data.view(),
            reg_ex: self.reg_ex.view(),
            parse_protocol: self.parse_protocol.view(),
        }
    }
}

/// The pattern of the characters that are not field flags.
pub const NON_FLAG_PATTERN: &'static str = "[^igm]";

/// The options that hold where nothing else is given.
pub open spec fn default_options_model() -> OptionModel {
    OptionModel {
        langu: "en-UK"@,
        date_formats: "dd.MM.yyyy"@,
        replace: Seq::empty(),
        required_fields: Seq::empty(),
        decimal_separator: "."@,
        thousand_separator: ","@,
        group_separator: ","@,
        remove_accents: false,
        modifiers: "g"@,
        currency: "EUR"@,
    }
}

/// The options for German texts.
pub open spec fn german_options_model() -> OptionModel {
    OptionModel {
        langu: "de-DE"@,
        decimal_separator: ","@,
        thousand_separator: "."@,
        ..default_options_model()
    }
}

/// `given` where it is not empty, else `default`.
pub open spec fn text_or(given: Seq<char>, default: Seq<char>) -> Seq<char> {
    if given.len() > 0 {
        given
    } else {
        default
    }
}

/// The options `ParseOption::new` builds from `p`: each non-empty text of `p`
/// over the defaults, its substitutions and accent flag; the required fields
/// and the currency stay at their defaults.
pub open spec fn merged_options(p: OptionModel) -> OptionModel {
    let d = default_options_model();
    OptionModel {
        langu: text_or(p.langu, d.langu),
        date_formats: text_or(p.date_formats, d.date_formats),
        replace: p.replace,
        required_fields: Seq::empty(),
        decimal_separator: text_or(p.decimal_separator, d.decimal_separator),
        thousand_separator: text_or(p.thousand_separator, d.thousand_separator),
        group_separator: text_or(p.group_separator, d.group_separator),
        remove_accents: p.remove_accents,
        modifiers: text_or(p.modifiers, d.modifiers),
        currency: d.currency,
    }
}

/// The field `ParseField::new` builds from `f`: if the flag filter compiles,
/// the field with every character but `i`, `g`, `m` removed from its flags
/// and, where its data is empty and its expression is not, the expression as
/// its data; if the filter does not compile, the empty field.
pub open spec fn normalized_field(f: FieldModel) -> FieldModel {
    if regex_compiles(NON_FLAG_PATTERN@, false, false, false) {
        FieldModel {
            name: f.name,
            data: if f.data.len() == 0 && f.regex.len() > 0 {
                f.regex
            } else {
                f.data
            },
            modifiers: regex_replaced(NON_FLAG_PATTERN@, false, false, false, f.modifiers, ""@),
            regex: f.regex,
            format: f.format,
        }
    } else {
        FieldModel {
            name: Seq::empty(),
            data: Seq::empty(),
            modifiers: Seq::empty(),
            regex: Seq::empty(),
            format: Seq::empty(),
        }
    }
}

/// Some message of the protocol starts, upper-cased, with `ERROR` or `* ERROR`.
pub open spec fn protocol_has_error(protocol: Seq<Seq<char>>) -> bool {
    exists|i: int|
        0 <= i < protocol.len() && (is_prefix("ERROR"@, upper_text(#[trigger] protocol[i]))
            || is_prefix("* ERROR"@, upper_text(protocol[i])))
}

/// `m` equals `n` in everything but, possibly, the identifier.
pub open spec fn same_except_id(m: TemplateModel, n: TemplateModel) -> bool {
    &&& m.name == n.name
    &&& m.group == n.group
    &&& m.test == n.test
    &&& m.options == n.options
    &&& m.fields == n.fields
    &&& m.protocol == n.protocol
    &&& m.data == n.data
    &&& m.reg_ex == n.reg_ex
    &&& m.parse_protocol == n.parse_protocol
}

/// A copy of a list of text pairs.
fn clone_text_pairs(v: &Vec<(String, String)>) -> (r: Vec<(String, String)>)
    ensures
        r.deep_view() == v.deep_view(),
{
    let mut r: Vec<(String, String)> = Vec::new();
    let mut k: usize = 0;
    while k < v.len()
        invariant
            k <= v@.len(),
            r.deep_view() == v.deep_view().take(k as int),
        decreases v@.len() - k,
    {
        let ele = (v[k].0.clone(), v[k].1.clone());
        let ghost before = r.deep_view();
        r.push(ele);
        k = k + 1;
        assert(r.deep_view() =~= before.push(v.deep_view()[k - 1]));
        assert(v.deep_view().take(k as int) =~= v.deep_view().take(k - 1).push(v.deep_view()[k - 1]));
    }
    assert(v.deep_view().take(k as int) =~= v.deep_view());
    r
}

impl ParseField {
    /// Normalises a field: keeps only the flags `i`, `g`, `m`, and takes the
    /// expression as data where no data is given.
    pub fn new(parse_field: ParseField) -> (r: Self)
        ensures
            r@ == normalized_field(parse_field@),
    {
        let mut l_self = ParseField {
            name: String::new(),
            data: String::new(),
            modifiers: String::new(),
            regex: String::new(),
            format: String::new(),
        };
        match compile_regex(NON_FLAG_PATTERN, false, false, false) {
            Some(re_modifiers) => {
                let modifiers = regex_replace_all(&re_modifiers, parse_field.modifiers.as_str(), "");
                l_self.name = parse_field.name;
                l_self.data = parse_field.data;
                l_self.modifiers = modifiers;
                l_self.regex = parse_field.regex;
                if l_self.data.as_str().is_empty() && l_self.regex.as_str().is_empty() == false {
                    l_self.data = l_self.regex.clone();
                }
                l_self.format = parse_field.format;
            },
            None => {},
        }
        l_self
    }
}

impl ParseOption {
    /// Builds options from `parse_option`: every non-empty text of it replaces
    /// the default, the substitutions and the accent flag are taken over.
    pub fn new(parse_option: ParseOption) -> (r: Self)
        ensures
            r@ == merged_options(parse_option@),
    {
        let mut l_self = ParseOption {
            langu: "en-UK".to_owned(),
            date_formats: "dd.MM.yyyy".to_owned(),
            replace: Vec::new(),
            required_fields: Vec::new(),
            decimal_separator: ".".to_owned(),
            thousand_separator: ",".to_owned(),
            group_separator: ",".to_owned(),
            remove_accents: false,
            modifiers: "g".to_owned(),
            currency: "EUR".to_owned(),
        };
        if parse_option.langu.as_str().is_empty() == false {
            l_self.langu = parse_option.langu;
        }
        if parse_option.date_formats.as_str().is_empty() == false {
            l_self.date_formats = parse_option.date_formats;
        }
        l_self.replace = clone_text_pairs(&parse_option.replace);
        if parse_option.decimal_separator.as_str().is_empty() == false {
            l_self.decimal_separator = parse_option.decimal_separator;
        }
        if parse_option.thousand_separator.as_str().is_empty() == false {
            l_self.thousand_separator = parse_option.thousand_separator;
        }
        if parse_option.group_separator.as_str().is_empty() == false {
            l_self.group_separator = parse_option.group_separator;
        }
        l_self.remove_accents = parse_option.remove_accents;
        if parse_option.modifiers.as_str().is_empty() == false {
            l_self.modifiers = parse_option.modifiers;
        }
        assert(l_self.required_fields.deep_view() =~= Seq::<Seq<char>>::empty());
        l_self
    }

    /// The options for a language: German (`de...`) uses `,` as decimal and
    /// `.` as thousands separator; every other language the reverse.
    pub fn new_by_lang(langu: &str) -> (r: Self)
        ensures
            r@ == if is_prefix("de"@, langu@) {
                german_options_model()
            } else {
                default_options_model()
            },
    {
        let r = if starts_with(langu, "de") {
            ParseOption {
                langu: "de-DE".to_owned(),
                date_formats: "dd.MM.yyyy".to_owned(),
                replace: Vec::new(),
                required_fields: Vec::new(),
                decimal_separator: ",".to_owned(),
                thousand_separator: ".".to_owned(),
                group_separator: ",".to_owned(),
                remove_accents: false,
                modifiers: "g".to_owned(),
                currency: "EUR".to_owned(),
            }
        } else {
            ParseOption {
                langu: "en-UK".to_owned(),
                date_formats: "dd.MM.yyyy".to_owned(),
                replace: Vec::new(),
                required_fields: Vec::new(),
                decimal_separator: ".".to_owned(),
                thousand_separator: ",".to_owned(),
                group_separator: ",".to_owned(),
                remove_accents: false,
                modifiers: "g".to_owned(),
                currency: "EUR".to_owned(),
            }
        };
        assert(r.replace.deep_view() =~= Seq::<(Seq<char>, Seq<char>)>::empty());
        assert(r.required_fields.deep_view() =~= Seq::<Seq<char>>::empty());
        r
    }
}

impl ParseTemplate {
    /// Takes over a template, giving it a fresh identifier where it has none.
    pub fn new(parse_template: ParseTemplate) -> (r: Self)
        ensures
            same_except_id(r@, parse_template@),
            parse_template.id@.len() > 0 ==> r.id@ == parse_template.id@,
            parse_template.id@.len() == 0 ==> is_uuid_text(r.id@),
    {
        let mut l_self = parse_template;
        if l_self.id.as_str().is_empty() {
            l_self.id = new_uuid();
        }
        l_self
    }

    /// Whether an error occurred: some protocol message starts, upper-cased,
    /// with `ERROR` or `* ERROR`.
    pub fn error_occurred(&self) -> (r: bool)
        ensures
            r == protocol_has_error(self.protocol.deep_view()),
    {
        let mut k: usize = 0;
        while k < self.protocol.len()
            invariant
                k <= self.protocol@.len(),
                forall|i: int|
                    0 <= i < k ==> !(is_prefix("ERROR"@, upper_text(#[trigger] self.protocol.deep_view()[i]))
                        || is_prefix("* ERROR"@, upper_text(self.protocol.deep_view()[i]))),
            decreases self.protocol@.len() - k,
        {
            let up = to_uppercase(self.protocol[k].as_str());
            assert(self.protocol.deep_view()[k as int] == self.protocol@[k as int]@);
            if starts_with(up.as_str(), "ERROR") || starts_with(up.as_str(), "* ERROR") {
                return true;
            }
            k = k + 1;
        }
        false
    }

    /// Empties the protocol.
    pub fn clear_protocol(&mut self)
        ensures
            final(self)@ == (TemplateModel { protocol: Seq::empty(), ..old(self)@ }),
    {
        self.protocol = Vec::new();
        assert(self.protocol.deep_view() =~= Seq::<Seq<char>>::empty());
    }
}

} // verus!
