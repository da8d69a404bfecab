//! Recognising a document with a template (`perform_test`) and extracting
//! the template's fields from the document's text (`parse_data`).

use vstd::prelude::*;

use crate::engines::{
    compile_regex, date_reformatted, decompose_nfd, nfd_text, reformat_date, regex_captures,
    regex_captures_all, regex_compiles, regex_is_match, regex_matches, regex_replace_all,
    regex_replaced,
};
use crate::loader::push_msg;
use crate::template::{FieldModel, OptionModel, ParseTemplate, TemplateModel, fields_view};
use crate::text::{
    chars_match_at, chars_to_string, concat_text, contains, contains_text, ends_with, is_prefix,
    is_suffix, occurs_at, replace_text, replace_text_spec, starts_with, str_chars, text_eq,
};

verus! {

/// Strips a trailing `/flags` from a test expression.
pub const SUFFIX_PATTERN: &'static str = "\\/[xig]*$";
/// A trailing `/flags` with `i`: case insensitive.
pub const CASE_PATTERN: &'static str = "\\/[xg]*i[xg]*$";
/// A trailing `/flags` with `x`: ignore whitespace.
pub const SPACE_FLAG_PATTERN: &'static str = "\\/[ig]*x[ig]*$";
/// Runs of spaces.
pub const SPACES_PATTERN: &'static str = "[ ]*";
/// The combining diacritical marks.
pub const ACCENT_PATTERN: &'static str = "[\\u0300-\\u036f]";
/// The prefix of constant fields.
pub const STATIC_PREFIX: &'static str = "static_";
pub const MSG_TEXT_EMPTY: &'static str = "error - text is empty";
pub const MSG_FIELD_NAME_EMPTY: &'static str = "error - field name is empty";

// ------------------------------------------------------------------------
// perform_test

/// `text` with the matches of `pattern` (built without flags) removed; the
/// text itself should the pattern not compile.
pub open spec fn stripped_by(pattern: Seq<char>, text: Seq<char>) -> Seq<char> {
    if regex_compiles(pattern, false, false, false) {
        regex_replaced(pattern, false, false, false, text, ""@)
    } else {
        text
    }
}

/// `pattern` (built without flags) compiles and matches `text`.
pub open spec fn plain_match(pattern: Seq<char>, text: Seq<char>) -> bool {
    regex_compiles(pattern, false, false, false) && regex_matches(
        pattern,
        false,
        false,
        false,
        text,
    )
}

/// The outcome of the tests from index `n` on, with the flags found so far
/// (they stay set for later tests) and whether some test has passed.
///
/// Each test is an expression with optional `/flags`; `i` makes it and the
/// later ones case insensitive, `x` makes it ignore whitespace and match
/// against the text without spaces. A test whose expression does not compile,
/// or is empty under `x`, is skipped; a test that does not match fails all.
pub open spec fn test_outcome(
    tests: Seq<Seq<char>>,
    text: Seq<char>,
    n: int,
    ci: bool,
    iw: bool,
    result: bool,
) -> bool
    decreases tests.len() - n,
{
    if n < 0 || n >= tests.len() {
        result
    } else {
        let ele = tests[n];
        let extra = stripped_by(SUFFIX_PATTERN@, ele);
        let ci2 = ci || plain_match(CASE_PATTERN@, ele);
        if plain_match(SPACE_FLAG_PATTERN@, ele) {
            let extra2 = stripped_by(SPACES_PATTERN@, extra);
            if extra2.len() == 0 || !regex_compiles(extra2, ci2, true, false) {
                test_outcome(tests, text, n + 1, ci2, true, result)
            } else if !regex_matches(extra2, ci2, true, false, replace_text_spec(text, " "@, ""@)) {
                false
            } else {
                test_outcome(tests, text, n + 1, ci2, true, true)
            }
        } else {
            if !regex_compiles(extra, ci2, iw, false) {
                test_outcome(tests, text, n + 1, ci2, iw, result)
            } else if !regex_matches(extra, ci2, iw, false, text) {
                false
            } else {
                test_outcome(tests, text, n + 1, ci2, iw, true)
            }
        }
    }
}

/// The template applies to `text`: it has tests, none fails and one passes.
pub open spec fn template_applies(tests: Seq<Seq<char>>, text: Seq<char>) -> bool {
    tests.len() > 0 && test_outcome(tests, text, 0, false, false, false)
}

/// `text` with the matches of `p` removed, or `text` where `p` is missing.
fn strip_with(p: &Option<crate::engines::Pattern>, text: &str) -> (r: String)
    ensures
        match p {
            Some(p) => r@ == regex_replaced(
                p.source(),
                p.case_insensitive(),
                p.ignore_whitespace(),
                p.multi_line(),
                text@,
                ""@,
            ),
            None => r@ == text@,
        },
{
    match p {
        Some(p) => regex_replace_all(p, text, ""),
        None => text.to_owned(),
    }
}

/// Whether `p` is present and matches `text`.
fn match_with(p: &Option<crate::engines::Pattern>, text: &str) -> (b: bool)
    ensures
        match p {
            Some(p) => b == regex_matches(
                p.source(),
                p.case_insensitive(),
                p.ignore_whitespace(),
                p.multi_line(),
                text@,
            ),
            None => !b,
        },
{
    match p {
        Some(p) => regex_is_match(p, text),
        None => false,
    }
}

// ------------------------------------------------------------------------
// parse_data

/// The name under which a field's value is stored: its name without `static_`.
pub open spec fn real_name(f: FieldModel) -> Seq<char> {
    replace_text_spec(f.name, STATIC_PREFIX@, ""@)
}

/// A constant field: its expression is its value.
pub open spec fn is_static(f: FieldModel) -> bool {
    is_prefix(STATIC_PREFIX@, f.name)
}

/// The flag `c` is set in the options or in the field.
pub open spec fn flag_set(o: OptionModel, f: FieldModel, c: Seq<char>) -> bool {
    contains_text(o.modifiers, c) || contains_text(f.modifiers, c)
}

/// A field's expression compiles with its flags, where it is used at all.
pub open spec fn field_compiles(o: OptionModel, f: FieldModel) -> bool {
    real_name(f).len() > 0 && !is_static(f) ==> regex_compiles(
        f.regex,
        flag_set(o, f, "i"@),
        flag_set(o, f, "x"@),
        flag_set(o, f, "m"@),
    )
}

/// Every field's expression compiles (parsing stops with a panic otherwise).
pub open spec fn fields_compile(t: TemplateModel) -> bool {
    forall|i: int| 0 <= i < t.fields.len() ==> field_compiles(t.options, #[trigger] t.fields[i])
}

/// The text after the first `n` substitutions; empty or non-compiling
/// expressions are skipped.
pub open spec fn substituted(pairs: Seq<(Seq<char>, Seq<char>)>, text: Seq<char>, n: int) -> Seq<char>
    decreases n,
{
    if n <= 0 {
        text
    } else {
        let r = substituted(pairs, text, n - 1);
        let from = pairs[n - 1].0;
        let to = pairs[n - 1].1;
        if from.len() == 0 || !regex_compiles(from, false, false, false) {
            r
        } else {
            regex_replaced(from, false, false, false, r, to)
        }
    }
}

/// The text the fields are taken from: all substitutions, then, if asked,
/// the accents removed.
pub open spec fn prepared_text(o: OptionModel, text: Seq<char>) -> Seq<char> {
    let r = substituted(o.replace, text, o.replace.len() as int);
    if o.remove_accents {
        stripped_by(ACCENT_PATTERN@, nfd_text(r))
    } else {
        r
    }
}

/// The text of group `i` of a match: the empty text where the group did not
/// take part or the expression has no such group.
pub open spec fn group_text(g: Seq<Option<Seq<char>>>, i: int) -> Seq<char> {
    if 0 <= i < g.len() {
        match g[i] {
            Some(t) => t,
            None => Seq::empty(),
        }
    } else {
        Seq::empty()
    }
}

/// The non-empty groups 1 to `k - 1` of a match, linked by the options'
/// group separator `sep`.
pub open spec fn joined_groups(g: Seq<Option<Seq<char>>>, k: int, sep: Seq<char>) -> Seq<char>
    decreases k,
{
    if k <= 1 {
        Seq::empty()
    } else {
        let acc = joined_groups(g, k - 1, sep);
        let s = group_text(g, k - 1);
        if s.len() == 0 {
            acc
        } else if acc.len() == 0 {
            s
        } else {
            acc + sep + s
        }
    }
}

/// The text of a match: its groups 1 to 9 linked by `sep`, or the whole
/// match if they are all empty.
pub open spec fn capture_text(g: Seq<Option<Seq<char>>>, sep: Seq<char>) -> Seq<char> {
    let j = joined_groups(g, 10, sep);
    if j.len() == 0 {
        group_text(g, 0)
    } else {
        j
    }
}

/// A number written with the options' separators, in the form `1234.5`.
pub open spec fn number_text(c: Seq<char>, o: OptionModel) -> Seq<char> {
    let c1 = if o.thousand_separator.len() > 0 && o.thousand_separator != o.decimal_separator {
        replace_text_spec(c, o.thousand_separator, ""@)
    } else {
        c
    };
    if o.decimal_separator.len() > 0 {
        replace_text_spec(c1, o.decimal_separator, "."@)
    } else {
        c1
    }
}

/// The length of the date-fns token at `i` of a date pattern: `yyyy` and
/// `MMMM` are four characters, `MMM` three, `yy`, `MM` and `dd` two, anything
/// else one.
pub open spec fn date_token_len(p: Seq<char>, i: int) -> int {
    if occurs_at(p, "yyyy"@, i) || occurs_at(p, "MMMM"@, i) {
        4
    } else if occurs_at(p, "MMM"@, i) {
        3
    } else if occurs_at(p, "yy"@, i) || occurs_at(p, "MM"@, i) || occurs_at(p, "dd"@, i) {
        2
    } else {
        1
    }
}

/// What the token at `i` of a date-fns pattern is for chrono: `yyyy` and
/// `y` the year (`%Y`), `yy` the two-digit year (`%y`), `MMMM` and `MMM` the
/// month's full and short name (`%B`, `%b`), `MM` and `M` the month (`%m`),
/// `dd` and `d` the day (`%d`); `%` stands for itself (`%%`), and every other
/// character too.
pub open spec fn date_token_text(p: Seq<char>, i: int) -> Seq<char> {
    if occurs_at(p, "yyyy"@, i) {
        "%Y"@
    } else if occurs_at(p, "MMMM"@, i) {
        "%B"@
    } else if occurs_at(p, "MMM"@, i) {
        "%b"@
    } else if occurs_at(p, "yy"@, i) {
        "%y"@
    } else if occurs_at(p, "MM"@, i) {
        "%m"@
    } else if occurs_at(p, "dd"@, i) {
        "%d"@
    } else if p[i] == 'y' {
        "%Y"@
    } else if p[i] == 'M' {
        "%m"@
    } else if p[i] == 'd' {
        "%d"@
    } else if p[i] == '%' {
        "%%"@
    } else {
        seq![p[i]]
    }
}

/// The tokens of a date-fns pattern from `i` on, in the form chrono reads.
pub open spec fn chrono_format_from(p: Seq<char>, i: int) -> Seq<char>
    decreases p.len() - i,
{
    if i < 0 || i >= p.len() {
        Seq::empty()
    } else {
        let k = date_token_len(p, i);
        if i + k <= p.len() {
            date_token_text(p, i) + chrono_format_from(p, i + k)
        } else {
            date_token_text(p, i)
        }
    }
}

/// A date-fns pattern (the form the options hold dates in, e.g.
/// `dd.MM.yyyy`) in the form chrono's `parse_from_str` reads (`%d.%m.%Y`).
pub open spec fn chrono_format(p: Seq<char>) -> Seq<char> {
    chrono_format_from(p, 0)
}

fn token_here(v: &[char], i: usize, tok: &str) -> (b: bool)
    requires
        i <= v@.len(),
    ensures
        b == occurs_at(v@, tok@, i as int),
{
    let t = str_chars(tok);
    chars_match_at(v, t.as_slice(), i)
}

/// A date-fns pattern in the form chrono reads, see `chrono_format`.
fn chrono_pattern(p: &str) -> (r: String)
    ensures
        r@ == chrono_format(p@),
{
    let v = str_chars(p);
    let mut out = String::new();
    let mut i: usize = 0;
    while i < v.len()
        invariant
            i <= v@.len(),
            v@ == p@,
            chrono_format(p@) == out@ + chrono_format_from(p@, i as int),
        decreases v@.len() - i,
    {
        proof {
            reveal_strlit("yyyy");
            reveal_strlit("MMMM");
            reveal_strlit("MMM");
            reveal_strlit("yy");
            reveal_strlit("MM");
            reveal_strlit("dd");
        }
        let vs = v.as_slice();
        let (k, t): (usize, String) = if token_here(vs, i, "yyyy") {
            (4, String::from_str("%Y"))
        } else if token_here(vs, i, "MMMM") {
            (4, String::from_str("%B"))
        } else if token_here(vs, i, "MMM") {
            (3, String::from_str("%b"))
        } else if token_here(vs, i, "yy") {
            (2, String::from_str("%y"))
        } else if token_here(vs, i, "MM") {
            (2, String::from_str("%m"))
        } else if token_here(vs, i, "dd") {
            (2, String::from_str("%d"))
        } else if v[i] == 'y' {
            (1, String::from_str("%Y"))
        } else if v[i] == 'M' {
            (1, String::from_str("%m"))
        } else if v[i] == 'd' {
            (1, String::from_str("%d"))
        } else if v[i] == '%' {
            (1, String::from_str("%%"))
        } else {
            let one = vec![v[i]];
            (1, chars_to_string(one.as_slice()))
        };
        assert(k as int == date_token_len(p@, i as int));
        assert(t@ == date_token_text(p@, i as int));
        let ghost before = out@;
        out = concat_text(out.as_str(), t.as_str());
        assert(before + chrono_format_from(p@, i as int) =~= out@ + chrono_format_from(p@, i + k));
        i = i + k;
    }
    out
}

/// The value of a match: numbers normalised for `_float` fields, dates
/// re-read for `_date` fields.
pub open spec fn value_text(c: Seq<char>, name: Seq<char>, o: OptionModel) -> Seq<char> {
    let c1 = if c.len() > 0 && is_suffix("_float"@, name) {
        number_text(c, o)
    } else {
        c
    };
    if c1.len() > 0 && is_suffix("_date"@, name) && o.date_formats.len() > 0 {
        match date_reformatted(c1, chrono_format(o.date_formats)) {
            Some(d) => d,
            None => c1,
        }
    } else {
        c1
    }
}

/// The `count`-th match `g` of the field with the given name and flags
/// (stored under `slot`): its text is
/// added to the field's matches, and its value to the field's data for the
/// first match or, with the flag `g` in the options or the field, for
/// every match.
pub open spec fn capture_step(
    st: TemplateModel,
    name: Seq<char>,
    modifiers: Seq<char>,
    slot: Seq<char>,
    g: Seq<Option<Seq<char>>>,
    count: int,
) -> TemplateModel {
    let cap = capture_text(g, st.options.group_separator);
    let reg_ex = st.reg_ex.insert(slot, st.reg_ex[slot].push(cap));
    let value = value_text(cap, name, st.options);
    let before = if st.data.contains_key(slot) {
        st.data[slot]
    } else {
        Seq::empty()
    };
    let joined = if before.len() > 0 {
        before + ", "@ + value
    } else {
        value
    };
    let data = if contains_text(st.options.modifiers, "g"@) || contains_text(modifiers, "g"@) || count
        == 1 {
        st.data.insert(slot, joined)
    } else {
        st.data
    };
    TemplateModel { reg_ex, data, ..st }
}

/// The first `n` matches of the field with the given name and flags.
pub open spec fn apply_captures(
    st: TemplateModel,
    name: Seq<char>,
    modifiers: Seq<char>,
    slot: Seq<char>,
    caps: Seq<Seq<Option<Seq<char>>>>,
    n: int,
) -> TemplateModel
    decreases n,
{
    if n <= 0 {
        st
    } else {
        capture_step(
            apply_captures(st, name, modifiers, slot, caps, n - 1),
            name,
            modifiers,
            slot,
            caps[n - 1],
            n,
        )
    }
}

/// One field: a field without a name is reported; a constant field stores
/// its expression; any other field stores the matches of its expression in
/// the text (without spaces under `x`).
pub open spec fn extract_field(st: TemplateModel, f: FieldModel, e: Seq<char>, nows: Seq<char>) -> TemplateModel {
    let slot = real_name(f);
    if slot.len() == 0 {
        push_msg(st, MSG_FIELD_NAME_EMPTY@)
    } else if is_static(f) {
        TemplateModel { data: st.data.insert(slot, Seq::empty()).insert(slot, f.regex), ..st }
    } else {
        let st1 = TemplateModel {
            reg_ex: st.reg_ex.insert(slot, Seq::empty()),
            data: st.data.insert(slot, Seq::empty()),
            ..st
        };
        let ci = flag_set(st.options, f, "i"@);
        let iw = flag_set(st.options, f, "x"@);
        let ml = flag_set(st.options, f, "m"@);
        let caps = regex_captures(
            f.regex,
            ci,
            iw,
            ml,
            if iw {
                nows
            } else {
                e
            },
        );
        apply_captures(st1, f.name, f.modifiers, slot, caps, caps.len() as int)
    }
}

/// The first `n` fields.
pub open spec fn extract_fields(
    st: TemplateModel,
    fields: Seq<FieldModel>,
    e: Seq<char>,
    nows: Seq<char>,
    n: int,
) -> TemplateModel
    decreases n,
{
    if n <= 0 {
        st
    } else {
        extract_field(extract_fields(st, fields, e, nows, n - 1), fields[n - 1], e, nows)
    }
}

/// The template after parsing `text`: an empty text is reported; otherwise
/// every field is extracted from the prepared text.
pub open spec fn parsed_template(t: TemplateModel, text: Seq<char>) -> TemplateModel {
    if text.len() == 0 {
        push_msg(t, MSG_TEXT_EMPTY@)
    } else {
        let e = prepared_text(t.options, text);
        extract_fields(
            t,
            t.fields,
            e,
            replace_text_spec(e, " "@, ""@),
            t.fields.len() as int,
        )
    }
}

fn group_text_exec(g: &Vec<Option<String>>, i: usize) -> (r: String)
    ensures
        r@ == group_text(g.deep_view(), i as int),
{
    if i < g.len() {
        match &g[i] {
            Some(t) => t.clone(),
            None => String::new(),
        }
    } else {
        String::new()
    }
}

/// The non-empty groups 1 to 9 of a match linked by `sep`, or the whole
/// match.
fn capture_text_exec(g: &Vec<Option<String>>, sep: &str) -> (r: String)
    ensures
        r@ == capture_text(g.deep_view(), sep@),
{
    let ghost gv = g.deep_view();
    let mut acc = String::new();
    let mut k: usize = 1;
    while k < 10
        invariant
            1 <= k <= 10,
            gv == g.deep_view(),
            acc@ == joined_groups(gv, k as int, sep@),
        decreases 10 - k,
    {
        let s = group_text_exec(g, k);
        if !s.as_str().is_empty() {
            if !acc.as_str().is_empty() {
                acc = concat_text(acc.as_str(), sep);
            }
            acc = concat_text(acc.as_str(), s.as_str());
        }
        k = k + 1;
    }
    if acc.as_str().is_empty() {
        group_text_exec(g, 0)
    } else {
        acc
    }
}

/// The value of a match, see `value_text`.
fn value_text_exec(c: String, name: &String, o: &crate::template::ParseOption) -> (r: String)
    ensures
        r@ == value_text(c@, name@, o@),
{
    let mut c = c;
    if !c.as_str().is_empty() && ends_with(name.as_str(), "_float") {
        if !o.thousand_separator.as_str().is_empty() && !text_eq(
            o.thousand_separator.as_str(),
            o.decimal_separator.as_str(),
        ) {
            c = replace_text(c.as_str(), o.thousand_separator.as_str(), "");
        }
        if !o.decimal_separator.as_str().is_empty() {
            c = replace_text(c.as_str(), o.decimal_separator.as_str(), ".");
        }
    }
    if !c.as_str().is_empty() && ends_with(name.as_str(), "_date") {
        if !o.date_formats.as_str().is_empty() {
            let fmt = chrono_pattern(o.date_formats.as_str());
            match reformat_date(c.as_str(), fmt.as_str()) {
                Some(d) => {
                    c = d;
                },
                None => {},
            }
        }
    }
    c
}

impl ParseTemplate {
    /// Whether the template applies to `i_text`: it has tests, every test
    /// expression that compiles matches, and at least one was checked.
    pub fn perform_test(&self, i_text: &String) -> (r: bool)
        ensures
            r == template_applies(self.test.deep_view(), i_text@),
    {
        if self.test.len() == 0 {
            return false;
        }
        let ghost tests = self.test.deep_view();
        let suffix_re = compile_regex(SUFFIX_PATTERN, false, false, false);
        let case_re = compile_regex(CASE_PATTERN, false, false, false);
        let space_flag_re = compile_regex(SPACE_FLAG_PATTERN, false, false, false);
        let spaces_re = compile_regex(SPACES_PATTERN, false, false, false);
        let mut case_insensitive = false;
        let mut ignore_whitespace = false;
        let mut result = false;
        let mut k: usize = 0;
        while k < self.test.len()
            invariant
                k <= self.test@.len(),
                tests == self.test.deep_view(),
                test_outcome(tests, i_text@, 0, false, false, false) == test_outcome(
                    tests,
                    i_text@,
                    k as int,
                    case_insensitive,
                    ignore_whitespace,
                    result,
                ),
                suffix_re.is_some() == regex_compiles(SUFFIX_PATTERN@, false, false, false),
                suffix_re matches Some(p) ==> (p.source() == SUFFIX_PATTERN@ && !p.case_insensitive()
                    && !p.ignore_whitespace() && !p.multi_line()),
                case_re.is_some() == regex_compiles(CASE_PATTERN@, false, false, false),
                case_re matches Some(p) ==> (p.source() == CASE_PATTERN@ && !p.case_insensitive()
                    && !p.ignore_whitespace() && !p.multi_line()),
                space_flag_re.is_some() == regex_compiles(SPACE_FLAG_PATTERN@, false, false, false),
                space_flag_re matches Some(p) ==> (p.source() == SPACE_FLAG_PATTERN@
                    && !p.case_insensitive() && !p.ignore_whitespace() && !p.multi_line()),
                spaces_re.is_some() == regex_compiles(SPACES_PATTERN@, false, false, false),
                spaces_re matches Some(p) ==> (p.source() == SPACES_PATTERN@
                    && !p.case_insensitive() && !p.ignore_whitespace() && !p.multi_line()),
            decreases self.test@.len() - k,
        {
            let ele = self.test[k].as_str();
            assert(tests[k as int] == ele@);
            let mut extra = strip_with(&suffix_re, ele);
            if match_with(&case_re, ele) {
                case_insensitive = true;
            }
            if match_with(&space_flag_re, ele) {
                ignore_whitespace = true;
                extra = strip_with(&spaces_re, extra.as_str());
                if extra.as_str().is_empty() {
                    k = k + 1;
                    continue ;
                }
                let re = match compile_regex(extra.as_str(), case_insensitive, true, false) {
                    Some(re) => re,
                    None => {
                        k = k + 1;
                        continue ;
                    },
                };
                let compact = replace_text(i_text.as_str(), " ", "");
                if !regex_is_match(&re, compact.as_str()) {
                    return false;
                }
            } else {
                let re = match compile_regex(
                    extra.as_str(),
                    case_insensitive,
                    ignore_whitespace,
                    false,
                ) {
                    Some(re) => re,
                    None => {
                        k = k + 1;
                        continue ;
                    },
                };
                if !regex_is_match(&re, i_text.as_str()) {
                    return false;
                }
            }
            result = true;
            k = k + 1;
        }
        result
    }

    fn prepare_text(&self, i_text: &String) -> (r: String)
        ensures
            r@ == prepared_text(self.options@, i_text@),
    {
        let mut e_text = i_text.clone();
        let ghost pairs = self.options.replace.deep_view();
        let mut k: usize = 0;
        while k < self.options.replace.len()
            invariant
                k <= self.options.replace@.len(),
                pairs == self.options.replace.deep_view(),
                e_text@ == substituted(pairs, i_text@, k as int),
            decreases self.options.replace@.len() - k,
        {
            let item_from = &self.options.replace[k].0;
            let item_to = &self.options.replace[k].1;
            assert(pairs[k as int] == (item_from@, item_to@));
            if !item_from.as_str().is_empty() {
                match compile_regex(item_from.as_str(), false, false, false) {
                    Some(re) => {
                        e_text = regex_replace_all(&re, e_text.as_str(), item_to.as_str());
                    },
                    None => {},
                }
            }
            k = k + 1;
        }
        if self.options.remove_accents {
            e_text = decompose_nfd(e_text.as_str());
            let accents = compile_regex(ACCENT_PATTERN, false, false, false);
            e_text = strip_with(&accents, e_text.as_str());
        }
        e_text
    }

    fn extract_capture(&mut self, fname: &String, fmods: &String, slot: &String, g: &Vec<Option<String>>, count: usize)
        requires
            old(self)@.reg_ex.contains_key(slot@),
        ensures
            final(self)@ == capture_step(
                old(self)@,
                fname@,
                fmods@,
                slot@,
                g.deep_view(),
                count as int,
            ),
    {
        let cap = capture_text_exec(g, self.options.group_separator.as_str());
        self.reg_ex.push(slot, cap.clone());
        let value = value_text_exec(cap, fname, &self.options);
        let mut l_data_string = match self.data.get(slot.as_str()) {
            Some(d) => d,
            None => String::new(),
        };
        if !l_data_string.as_str().is_empty() {
            l_data_string = concat_text(l_data_string.as_str(), ", ");
        }
        l_data_string = concat_text(l_data_string.as_str(), value.as_str());
        if contains(self.options.modifiers.as_str(), "g") || contains(fmods.as_str(), "g") || count
            == 1 {
            self.data.insert(slot.clone(), l_data_string);
        }
    }

    fn extract_one(&mut self, i: usize, e_text: &String, nows: &String)
        requires
            i < old(self)@.fields.len(),
            field_compiles(old(self)@.options, old(self)@.fields[i as int]),
        ensures
            final(self)@ == extract_field(old(self)@, old(self)@.fields[i as int], e_text@, nows@),
            final(self)@.fields == old(self)@.fields,
            final(self)@.options == old(self)@.options,
    {
        let ghost f = self@.fields[i as int];
        assert(self.fields@[i as int]@ == f);
        let fname = self.fields[i].name.clone();
        let fmods = self.fields[i].modifiers.clone();
        let fregex = self.fields[i].regex.clone();
        let slot = replace_text(fname.as_str(), STATIC_PREFIX, "");
        if slot.as_str().is_empty() {
            let ghost before = self.protocol.deep_view();
            self.protocol.push(MSG_FIELD_NAME_EMPTY.to_owned());
            assert(self.protocol.deep_view() =~= before.push(MSG_FIELD_NAME_EMPTY@));
            return ;
        }
        self.data.insert(slot.clone(), String::new());
        if starts_with(fname.as_str(), STATIC_PREFIX) {
            self.data.insert(slot, fregex);
            return ;
        }
        let empty: Vec<String> = Vec::new();
        assert(empty.deep_view() =~= Seq::<Seq<char>>::empty());
        self.reg_ex.insert(slot.clone(), empty);
        self.data.insert(slot.clone(), String::new());
        let case_insensitive = contains(self.options.modifiers.as_str(), "i") || contains(
            fmods.as_str(),
            "i",
        );
        let ignore_whitespace = contains(self.options.modifiers.as_str(), "x") || contains(
            fmods.as_str(),
            "x",
        );
        let multi_line = contains(self.options.modifiers.as_str(), "m") || contains(
            fmods.as_str(),
            "m",
        );
        let re = match compile_regex(fregex.as_str(), case_insensitive, ignore_whitespace, multi_line) {
            Some(re) => re,
            None => {
                assert(false);
                return ;
            },
        };
        let caps = if ignore_whitespace {
            regex_captures_all(&re, nows.as_str())
        } else {
            regex_captures_all(&re, e_text.as_str())
        };
        let ghost capsv = caps.deep_view();
        let ghost st1 = self@;
        assert(self@.data =~= old(self)@.data.insert(slot@, Seq::empty()));
        assert(st1 == (TemplateModel {
            reg_ex: old(self)@.reg_ex.insert(slot@, Seq::empty()),
            data: old(self)@.data.insert(slot@, Seq::empty()),
            ..old(self)@
        }));
        let mut count: usize = 0;
        while count < caps.len()
            invariant
                count <= caps@.len(),
                capsv == caps.deep_view(),
                self@ == apply_captures(st1, fname@, fmods@, slot@, capsv, count as int),
                self@.reg_ex.contains_key(slot@),
                self@.fields == st1.fields,
                self@.options == st1.options,
            decreases caps@.len() - count,
        {
            assert(capsv[count as int] == caps@[count as int].deep_view());
            self.extract_capture(&fname, &fmods, &slot, &caps[count], count + 1);
            count = count + 1;
        }
    }

    /// Extracts all fields of the template from `i_text`, see
    /// `parsed_template`. Every field expression in use must compile.
    pub fn parse_data(&mut self, i_text: &String)
        requires
            i_text@.len() > 0 ==> fields_compile(old(self)@),
        ensures
            final(self)@ == parsed_template(old(self)@, i_text@),
    {
        if i_text.as_str().is_empty() {
            let ghost before = self.protocol.deep_view();
            self.protocol.push(MSG_TEXT_EMPTY.to_owned());
            assert(self.protocol.deep_view() =~= before.push(MSG_TEXT_EMPTY@));
            return ;
        }
        let e_text = self.prepare_text(i_text);
        let nows = replace_text(e_text.as_str(), " ", "");
        let ghost start = self@;
        let mut i: usize = 0;
        while i < self.fields.len()
            invariant
                i <= self@.fields.len(),
                self@.fields == start.fields,
                self@.options == start.options,
                fields_compile(start),
                self@ == extract_fields(start, start.fields, e_text@, nows@, i as int),
            decreases self@.fields.len() - i,
        {
            assert(self.fields@.len() == self@.fields.len());
            assert(field_compiles(start.options, start.fields[i as int]));
            self.extract_one(i, &e_text, &nows);
            i = i + 1;
        }
    }

    /// Extracts all fields when every field expression in use compiles and
    /// reports whether it did; otherwise leaves the template unchanged.
    pub fn parse_data_checked(&mut self, i_text: &String) -> (ok: bool)
        ensures
            ok == (i_text@.len() == 0 || fields_compile(old(self)@)),
            ok ==> final(self)@ == parsed_template(old(self)@, i_text@),
            !ok ==> final(self)@ == old(self)@,
    {
        if !i_text.as_str().is_empty() {
            let ghost s0 = self@;
            let mut i: usize = 0;
            while i < self.fields.len()
                invariant
                    s0 == old(self)@,
                    i_text@.len() > 0,
                    self@ == s0,
                    i <= self.fields@.len(),
                    forall|j: int| 0 <= j < i ==> field_compiles(self@.options, #[trigger] self@.fields[j]),
                decreases self.fields@.len() - i,
            {
                let f = &self.fields[i];
                assert(self@.fields[i as int] == f@);
                let slot = replace_text(f.name.as_str(), STATIC_PREFIX, "");
                if !slot.as_str().is_empty() && !starts_with(f.name.as_str(), STATIC_PREFIX) {
                    let case_insensitive = contains(self.options.modifiers.as_str(), "i")
                        || contains(f.modifiers.as_str(), "i");
                    let ignore_whitespace = contains(self.options.modifiers.as_str(), "x")
                        || contains(f.modifiers.as_str(), "x");
                    let multi_line = contains(self.options.modifiers.as_str(), "m") || contains(
                        f.modifiers.as_str(),
                        "m",
                    );
                    if compile_regex(
                        f.regex.as_str(),
                        case_insensitive,
                        ignore_whitespace,
                        multi_line,
                    ).is_none() {
                        assert(!field_compiles(self@.options, self@.fields[i as int]));
                        assert(!fields_compile(self@));
                        return false;
                    }
                }
                i = i + 1;
            }
        }
        self.parse_data(i_text);
        true
    }
}

} // verus!
