//! Properties of template loading and parsing that hold across whole runs.

use vstd::prelude::*;

use crate::extract::{
    plain_match, stripped_by, test_outcome, value_text, number_text, CASE_PATTERN, SPACES_PATTERN,
    SPACE_FLAG_PATTERN, SUFFIX_PATTERN, apply_captures, capture_step, extract_field, extract_fields, flag_set, is_static, parsed_template,
    prepared_text, real_name, template_applies, MSG_FIELD_NAME_EMPTY, MSG_TEXT_EMPTY,
};
use crate::loader::{
    first_named, initial_template, load_doc, load_docs, load_entries, load_entry, load_field_attr,
    load_field_attrs, load_field_entries, load_field_entry, load_option_entries, load_option_entry,
    load_replace_item, load_replace_items, load_required_item, load_required_items,
    loaded_template, plain_field, push_msg, wrong_key_msg, MSG_ACCENTS, MSG_CURRENCY,
    MSG_DATE_FORMATS, MSG_DECIMAL, MSG_FIELDS, MSG_FIELD_ATTR, MSG_FIELD_VALUE, MSG_GROUP,
    MSG_GROUP_SEP, MSG_LANGU, MSG_LOWERCASE, MSG_MODIFIERS, MSG_NAME, MSG_NO_HASH, MSG_OPTIONS,
    MSG_REPLACE, MSG_REQUIRED, MSG_REQUIRED_ITEM, MSG_START, MSG_STOP, MSG_TEST, MSG_THOUSAND,
    MSG_WHITESPACE,
};
use crate::template::{protocol_has_error, FieldModel, OptionModel, TemplateModel};
use crate::yaml::{yaml_hash, yaml_str, yaml_vec, YamlValue};
use crate::engines::{regex_compiles, regex_matches, upper_text};
use crate::text::{is_prefix, is_suffix};

verus! {

/// `b`'s protocol continues `a`'s: nothing is removed or changed, at most
/// messages are added at the end.
pub open spec fn protocol_grows(a: TemplateModel, b: TemplateModel) -> bool {
    &&& a.protocol.len() <= b.protocol.len()
    &&& b.protocol.subrange(0, a.protocol.len() as int) == a.protocol
}

/// `b` has `a`'s identifier, name, group, tests, options and fields, and a
/// protocol that continues `a`'s.
pub open spec fn keeps_definition(a: TemplateModel, b: TemplateModel) -> bool {
    &&& a.id == b.id
    &&& a.name == b.name
    &&& a.group == b.group
    &&& a.test == b.test
    &&& a.options == b.options
    &&& a.fields == b.fields
    &&& protocol_grows(a, b)
}

proof fn lemma_grows_refl(a: TemplateModel)
    ensures
        protocol_grows(a, a),
{
    assert(a.protocol.subrange(0, a.protocol.len() as int) =~= a.protocol);
}

proof fn lemma_grows_trans(a: TemplateModel, b: TemplateModel, c: TemplateModel)
    requires
        protocol_grows(a, b),
        protocol_grows(b, c),
    ensures
        protocol_grows(a, c),
{
    assert(c.protocol.subrange(0, a.protocol.len() as int) =~= b.protocol.subrange(
        0,
        a.protocol.len() as int,
    ));
}

proof fn lemma_grows_push(a: TemplateModel, m: Seq<char>)
    ensures
        protocol_grows(a, push_msg(a, m)),
{
    assert(push_msg(a, m).protocol.subrange(0, a.protocol.len() as int) =~= a.protocol);
}

proof fn lemma_grows_same(a: TemplateModel, b: TemplateModel)
    requires
        a.protocol == b.protocol,
    ensures
        protocol_grows(a, b),
{
    lemma_grows_refl(a);
}

/// A message that reports an error of the loaded documents.
pub open spec fn is_error_message(m: Seq<char>) -> bool {
    is_prefix("* error - "@, m)
}

/// `b`'s protocol continues `a`'s with error messages only.
pub open spec fn grows_by_errors(a: TemplateModel, b: TemplateModel) -> bool {
    &&& protocol_grows(a, b)
    &&& forall|i: int| a.protocol.len() <= i < b.protocol.len() ==> is_error_message(#[trigger] b.protocol[i])
}

proof fn lemma_messages_are_errors()
    ensures
        is_error_message(MSG_NO_HASH@),
        is_error_message(MSG_NAME@),
        is_error_message(MSG_GROUP@),
        is_error_message(MSG_TEST@),
        is_error_message(MSG_OPTIONS@),
        is_error_message(MSG_LANGU@),
        is_error_message(MSG_DECIMAL@),
        is_error_message(MSG_THOUSAND@),
        is_error_message(MSG_GROUP_SEP@),
        is_error_message(MSG_ACCENTS@),
        is_error_message(MSG_WHITESPACE@),
        is_error_message(MSG_LOWERCASE@),
        is_error_message(MSG_MODIFIERS@),
        is_error_message(MSG_CURRENCY@),
        is_error_message(MSG_DATE_FORMATS@),
        is_error_message(MSG_REPLACE@),
        is_error_message(MSG_REQUIRED_ITEM@),
        is_error_message(MSG_REQUIRED@),
        is_error_message(MSG_FIELD_ATTR@),
        is_error_message(MSG_FIELD_VALUE@),
        is_error_message(MSG_FIELDS@),
        forall|k: Seq<char>| #[trigger] is_error_message(wrong_key_msg(k)),
{
    assert(is_error_message(MSG_NO_HASH@)) by {
        reveal_strlit("* error - ");
        reveal_strlit("* error - no hash tag found");
        assert(MSG_NO_HASH@.subrange(0, 10) =~= "* error - "@);
    }
    assert(is_error_message(MSG_NAME@)) by {
        reveal_strlit("* error - ");
        reveal_strlit("* error - wrong type for tag 'name' - we need string");
        assert(MSG_NAME@.subrange(0, 10) =~= "* error - "@);
    }
    assert(is_error_message(MSG_GROUP@)) by {
        reveal_strlit("* error - ");
        reveal_strlit("* error - wrong type for tag 'group' - we need string");
        assert(MSG_GROUP@.subrange(0, 10) =~= "* error - "@);
    }
    assert(is_error_message(MSG_TEST@)) by {
        reveal_strlit("* error - ");
        reveal_strlit("* error - wrong type for tag 'test' - we need string or array of string");
        assert(MSG_TEST@.subrange(0, 10) =~= "* error - "@);
    }
    assert(is_error_message(MSG_OPTIONS@)) by {
        reveal_strlit("* error - ");
        reveal_strlit("* error - wrong type for tag 'options' - we need hash");
        assert(MSG_OPTIONS@.subrange(0, 10) =~= "* error - "@);
    }
    assert(is_error_message(MSG_LANGU@)) by {
        reveal_strlit("* error - ");
        reveal_strlit("* error - wrong type for tag 'langu' or 'languages' - we need string");
        assert(MSG_LANGU@.subrange(0, 10) =~= "* error - "@);
    }
    assert(is_error_message(MSG_DECIMAL@)) by {
        reveal_strlit("* error - ");
        reveal_strlit("* error - wrong type for tag 'decimal_separator' - we need string");
        assert(MSG_DECIMAL@.subrange(0, 10) =~= "* error - "@);
    }
    assert(is_error_message(MSG_THOUSAND@)) by {
        reveal_strlit("* error - ");
        reveal_strlit("* error - wrong type for tag 'thousand_separator' - we need string");
        assert(MSG_THOUSAND@.subrange(0, 10) =~= "* error - "@);
    }
    assert(is_error_message(MSG_GROUP_SEP@)) by {
        reveal_strlit("* error - ");
        reveal_strlit("* error - wrong type for tag 'group_separator' - we need string");
        assert(MSG_GROUP_SEP@.subrange(0, 10) =~= "* error - "@);
    }
    assert(is_error_message(MSG_ACCENTS@)) by {
        reveal_strlit("* error - ");
        reveal_strlit("* error - wrong type for tag 'remove_accents' - we need boolean");
        assert(MSG_ACCENTS@.subrange(0, 10) =~= "* error - "@);
    }
    assert(is_error_message(MSG_WHITESPACE@)) by {
        reveal_strlit("* error - ");
        reveal_strlit("* error - wrong type for tag 'remove_whitespace' - we need boolean");
        assert(MSG_WHITESPACE@.subrange(0, 10) =~= "* error - "@);
    }
    assert(is_error_message(MSG_LOWERCASE@)) by {
        reveal_strlit("* error - ");
        reveal_strlit("* error - wrong type for tag 'lowercase' - we need boolean");
        assert(MSG_LOWERCASE@.subrange(0, 10) =~= "* error - "@);
    }
    assert(is_error_message(MSG_MODIFIERS@)) by {
        reveal_strlit("* error - ");
        reveal_strlit("* error - wrong type for tag 'modifiers' - we need string");
        assert(MSG_MODIFIERS@.subrange(0, 10) =~= "* error - "@);
    }
    assert(is_error_message(MSG_CURRENCY@)) by {
        reveal_strlit("* error - ");
        reveal_strlit("* error - wrong type for tag 'currency' - we need string");
        assert(MSG_CURRENCY@.subrange(0, 10) =~= "* error - "@);
    }
    assert(is_error_message(MSG_DATE_FORMATS@)) by {
        reveal_strlit("* error - ");
        reveal_strlit("* error - wrong type for tag 'date_formats' - we need string");
        assert(MSG_DATE_FORMATS@.subrange(0, 10) =~= "* error - "@);
    }
    assert(is_error_message(MSG_REPLACE@)) by {
        reveal_strlit("* error - ");
        reveal_strlit("* error - wrong type for tag 'replace' - we need string or array of string");
        assert(MSG_REPLACE@.subrange(0, 10) =~= "* error - "@);
    }
    assert(is_error_message(MSG_REQUIRED_ITEM@)) by {
        reveal_strlit("* error - ");
        reveal_strlit("* error - wrong type for tag 'required_fields' - we need string");
        assert(MSG_REQUIRED_ITEM@.subrange(0, 10) =~= "* error - "@);
    }
    assert(is_error_message(MSG_REQUIRED@)) by {
        reveal_strlit("* error - ");
        reveal_strlit("* error - wrong type for tag 'required_fields' - we need string or array of string");
        assert(MSG_REQUIRED@.subrange(0, 10) =~= "* error - "@);
    }
    assert(is_error_message(MSG_FIELD_ATTR@)) by {
        reveal_strlit("* error - ");
        reveal_strlit("* error - wrong tag 'fields' - we need 'regex' or 'modifiers'");
        assert(MSG_FIELD_ATTR@.subrange(0, 10) =~= "* error - "@);
    }
    assert(is_error_message(MSG_FIELD_VALUE@)) by {
        reveal_strlit("* error - ");
        reveal_strlit("* error - wrong type for tag 'fields' - we need string or array");
        assert(MSG_FIELD_VALUE@.subrange(0, 10) =~= "* error - "@);
    }
    assert(is_error_message(MSG_FIELDS@)) by {
        reveal_strlit("* error - ");
        reveal_strlit("* error - wrong type for tag 'fields' - we need hash of tuple or array");
        assert(MSG_FIELDS@.subrange(0, 10) =~= "* error - "@);
    }
    reveal_strlit("* error - ");
    reveal_strlit("* error - wrong key '");
    assert forall|k: Seq<char>| #[trigger] is_error_message(wrong_key_msg(k)) by {
        assert(wrong_key_msg(k).subrange(0, 10) =~= "* error - "@);
    }
}

proof fn lemma_errors_refl(a: TemplateModel)
    ensures
        grows_by_errors(a, a),
{
    lemma_grows_refl(a);
}

proof fn lemma_errors_same(a: TemplateModel, b: TemplateModel)
    requires
        a.protocol == b.protocol,
    ensures
        grows_by_errors(a, b),
{
    lemma_grows_same(a, b);
}

proof fn lemma_errors_trans(a: TemplateModel, b: TemplateModel, c: TemplateModel)
    requires
        grows_by_errors(a, b),
        grows_by_errors(b, c),
    ensures
        grows_by_errors(a, c),
{
    lemma_grows_trans(a, b, c);
    assert forall|i: int| a.protocol.len() <= i < c.protocol.len() implies is_error_message(
        #[trigger] c.protocol[i],
    ) by {
        if i < b.protocol.len() {
            assert(c.protocol.subrange(0, b.protocol.len() as int)[i] == c.protocol[i]);
        }
    }
}

proof fn lemma_errors_push(a: TemplateModel, m: Seq<char>)
    requires
        is_error_message(m),
    ensures
        grows_by_errors(a, push_msg(a, m)),
{
    lemma_grows_push(a, m);
}

proof fn lemma_errors_step(a: TemplateModel, b: TemplateModel)
    requires
        b.protocol == a.protocol || (b.protocol.len() > 0 && b.protocol == a.protocol.push(
            b.protocol.last(),
        ) && is_error_message(b.protocol.last())),
    ensures
        grows_by_errors(a, b),
{
    lemma_grows_step(a, b);
}

proof fn lemma_replace_items_grow(st: TemplateModel, items: Seq<YamlValue>, n: int)
    ensures
        grows_by_errors(st, load_replace_items(st, items, n)),
    decreases n,
{
    lemma_messages_are_errors();
    if n <= 0 {
        lemma_errors_refl(st);
    } else {
        let p = load_replace_items(st, items, n - 1);
        lemma_replace_items_grow(st, items, n - 1);
        let q = load_replace_item(p, items[n - 1]);
        if q.protocol == p.protocol {
            lemma_errors_same(p, q);
        } else {
            lemma_errors_push(p, MSG_REPLACE@);
        }
        lemma_errors_trans(st, p, q);
    }
}

proof fn lemma_required_items_grow(st: TemplateModel, items: Seq<YamlValue>, n: int)
    ensures
        grows_by_errors(st, load_required_items(st, items, n)),
    decreases n,
{
    lemma_messages_are_errors();
    if n <= 0 {
        lemma_errors_refl(st);
    } else {
        let p = load_required_items(st, items, n - 1);
        lemma_required_items_grow(st, items, n - 1);
        let q = load_required_item(p, items[n - 1]);
        if q.protocol == p.protocol {
            lemma_errors_same(p, q);
        } else {
            lemma_errors_push(p, MSG_REQUIRED_ITEM@);
        }
        lemma_errors_trans(st, p, q);
    }
}

proof fn lemma_grows_step(a: TemplateModel, b: TemplateModel)
    requires
        b.protocol == a.protocol || (b.protocol.len() > 0 && b.protocol == a.protocol.push(
            b.protocol.last(),
        )),
    ensures
        protocol_grows(a, b),
{
    if b.protocol == a.protocol {
        lemma_grows_refl(a);
    } else {
        assert(b.protocol.subrange(0, a.protocol.len() as int) =~= a.protocol);
    }
}

proof fn lemma_option_entry_grows(st: TemplateModel, k2: YamlValue, v2: YamlValue)
    ensures
        grows_by_errors(st, load_option_entry(st, k2, v2)),
{
    lemma_messages_are_errors();
    let r = load_option_entry(st, k2, v2);
    match yaml_str(k2) {
        None => {
            lemma_errors_refl(st);
        },
        Some(k) => {
            if k == "langu"@ || k == "languages"@ || k == "decimal_separator"@ || k
                == "thousand_separator"@ || k == "group_separator"@ || k == "remove_accents"@ || k
                == "remove_whitespace"@ || k == "lowercase"@ || k == "modifiers"@ || k
                == "currency"@ || k == "date_formats"@ {
                lemma_errors_step(st, r);
            } else if k == "replace"@ {
                match yaml_vec(v2) {
                    Some(items) => {
                        lemma_replace_items_grow(st, items, items.len() as int);
                    },
                    None => {
                        lemma_errors_step(st, r);
                    },
                }
            } else if k == "required_fields"@ {
                match yaml_vec(v2) {
                    Some(items) => {
                        lemma_required_items_grow(st, items, items.len() as int);
                    },
                    None => {
                        lemma_errors_step(st, r);
                    },
                }
            } else {
                lemma_errors_step(st, r);
            }
        },
    }
}

proof fn lemma_option_entries_grow(st: TemplateModel, es: Seq<(YamlValue, YamlValue)>, n: int)
    ensures
        grows_by_errors(st, load_option_entries(st, es, n)),
    decreases n,
{
    lemma_messages_are_errors();
    if n <= 0 {
        lemma_errors_refl(st);
    } else {
        let p = load_option_entries(st, es, n - 1);
        lemma_option_entries_grow(st, es, n - 1);
        lemma_option_entry_grows(p, es[n - 1].0, es[n - 1].1);
        lemma_errors_trans(st, p, load_option_entries(st, es, n));
    }
}

proof fn lemma_field_attrs_grow(st: TemplateModel, idx: int, es: Seq<(YamlValue, YamlValue)>, n: int)
    ensures
        grows_by_errors(st, load_field_attrs(st, idx, es, n)),
    decreases n,
{
    lemma_messages_are_errors();
    if n <= 0 {
        lemma_errors_refl(st);
    } else {
        let p = load_field_attrs(st, idx, es, n - 1);
        lemma_field_attrs_grow(st, idx, es, n - 1);
        let q = load_field_attr(p, idx, es[n - 1].0, es[n - 1].1);
        if q.protocol == p.protocol {
            lemma_errors_same(p, q);
        } else {
            lemma_errors_push(p, MSG_FIELD_ATTR@);
        }
        lemma_errors_trans(st, p, q);
    }
}

proof fn lemma_field_entry_grows(st: TemplateModel, k2: YamlValue, v2: YamlValue)
    ensures
        grows_by_errors(st, load_field_entry(st, k2, v2)),
{
    lemma_messages_are_errors();
    lemma_errors_refl(st);
    match yaml_str(k2) {
        None => {},
        Some(k) => match yaml_str(v2) {
            Some(s) => {},
            None => match yaml_hash(v2) {
                Some(es) => {
                    let st1 = TemplateModel {
                        fields: st.fields.push(plain_field(k, Seq::empty())),
                        ..st
                    };
                    lemma_field_attrs_grow(st1, first_named(st1.fields, k), es, es.len() as int);
                },
                None => {
                    lemma_errors_push(st, MSG_FIELD_VALUE@);
                },
            },
        },
    }
}

proof fn lemma_field_entries_grow(st: TemplateModel, es: Seq<(YamlValue, YamlValue)>, n: int)
    ensures
        grows_by_errors(st, load_field_entries(st, es, n)),
    decreases n,
{
    lemma_messages_are_errors();
    if n <= 0 {
        lemma_errors_refl(st);
    } else {
        let p = load_field_entries(st, es, n - 1);
        lemma_field_entries_grow(st, es, n - 1);
        lemma_field_entry_grows(p, es[n - 1].0, es[n - 1].1);
        lemma_errors_trans(st, p, load_field_entries(st, es, n));
    }
}

proof fn lemma_entry_grows(st: TemplateModel, key: YamlValue, value: YamlValue)
    ensures
        grows_by_errors(st, load_entry(st, key, value)),
{
    lemma_messages_are_errors();
    let r = load_entry(st, key, value);
    match yaml_str(key) {
        None => {
            lemma_errors_refl(st);
        },
        Some(k) => {
            if k == "name"@ || k == "issuer"@ || k == "group"@ || k == "test"@ || k
                == "keywords"@ {
                lemma_errors_step(st, r);
            } else if k == "options"@ {
                match yaml_hash(value) {
                    Some(es) => {
                        lemma_option_entries_grow(st, es, es.len() as int);
                    },
                    None => {
                        lemma_errors_step(st, r);
                    },
                }
            } else if k == "fields"@ {
                match yaml_hash(value) {
                    Some(es) => {
                        lemma_field_entries_grow(st, es, es.len() as int);
                    },
                    None => {
                        lemma_errors_step(st, r);
                    },
                }
            } else {
                lemma_errors_step(st, r);
            }
        },
    }
}

proof fn lemma_entries_grow(st: TemplateModel, es: Seq<(YamlValue, YamlValue)>, n: int)
    ensures
        grows_by_errors(st, load_entries(st, es, n)),
    decreases n,
{
    lemma_messages_are_errors();
    if n <= 0 {
        lemma_errors_refl(st);
    } else {
        let p = load_entries(st, es, n - 1);
        lemma_entries_grow(st, es, n - 1);
        lemma_entry_grows(p, es[n - 1].0, es[n - 1].1);
        lemma_errors_trans(st, p, load_entries(st, es, n));
    }
}

proof fn lemma_docs_grow(st: TemplateModel, docs: Seq<YamlValue>, n: int)
    ensures
        grows_by_errors(st, load_docs(st, docs, n)),
    decreases n,
{
    lemma_messages_are_errors();
    if n <= 0 {
        lemma_errors_refl(st);
    } else {
        let p = load_docs(st, docs, n - 1);
        lemma_docs_grow(st, docs, n - 1);
        let d = docs[n - 1];
        match yaml_hash(d) {
            Some(es) => {
                lemma_entries_grow(p, es, es.len() as int);
            },
            None => {
                lemma_errors_push(p, MSG_NO_HASH@);
            },
        }
        lemma_errors_trans(st, p, load_docs(st, docs, n));
    }
}

/// Loading brackets its messages: the protocol of a loaded template starts
/// with the start message and ends with the stop message, whatever the
/// documents hold.
pub proof fn law_loading_protocol_is_bracketed(id: Seq<char>, docs: Seq<YamlValue>, langu: Seq<char>)
    ensures
        ({
            let p = loaded_template(id, docs, langu).protocol;
            &&& p.len() >= 2
            &&& p[0] == MSG_START@
            &&& p.last() == MSG_STOP@
        }),
{
    let st = initial_template(id, langu);
    lemma_docs_grow(st, docs, docs.len() as int);
    let q = load_docs(st, docs, docs.len() as int);
    assert(q.protocol.subrange(0, 1)[0] == q.protocol[0]);
}

/// Loading reports nothing but errors of the documents: between the start
/// and the stop message every message of a loaded template's protocol is a
/// `* error - ` message.
pub proof fn law_loading_reports_only_errors(id: Seq<char>, docs: Seq<YamlValue>, langu: Seq<char>)
    ensures
        ({
            let p = loaded_template(id, docs, langu).protocol;
            &&& p.len() >= 2
            &&& p[0] == MSG_START@
            &&& p.last() == MSG_STOP@
            &&& forall|i: int| 0 < i < p.len() - 1 ==> is_error_message(#[trigger] p[i])
        }),
{
    law_loading_protocol_is_bracketed(id, docs, langu);
    let st = initial_template(id, langu);
    lemma_docs_grow(st, docs, docs.len() as int);
    let q = load_docs(st, docs, docs.len() as int);
    let p = loaded_template(id, docs, langu).protocol;
    assert forall|i: int| 0 < i < p.len() - 1 implies is_error_message(#[trigger] p[i]) by {
        assert(p[i] == q.protocol[i]);
    }
}

/// Loading reports every document that is not a mapping: a list of
/// documents none of which is a mapping yields one error message per
/// document between the start and stop messages.
pub proof fn law_loading_reports_non_mappings(id: Seq<char>, docs: Seq<YamlValue>, langu: Seq<char>)
    requires
        forall|i: int| 0 <= i < docs.len() ==> yaml_hash(#[trigger] docs[i]) is None,
    ensures
        loaded_template(id, docs, langu).protocol == seq![MSG_START@] + Seq::new(
            docs.len(),
            |i: int| MSG_NO_HASH@,
        ) + seq![MSG_STOP@],
{
    let st = initial_template(id, langu);
    lemma_non_mappings(st, docs, docs.len() as int);
    assert(load_docs(st, docs, docs.len() as int).protocol.push(MSG_STOP@) =~= seq![MSG_START@]
        + Seq::new(docs.len(), |i: int| MSG_NO_HASH@) + seq![MSG_STOP@]);
}

proof fn lemma_docs_grow_between(st: TemplateModel, docs: Seq<YamlValue>, a: int, b: int)
    requires
        0 <= a <= b,
    ensures
        protocol_grows(load_docs(st, docs, a), load_docs(st, docs, b)),
    decreases b - a,
{
    if a == b {
        lemma_grows_refl(load_docs(st, docs, a));
    } else {
        lemma_docs_grow_between(st, docs, a, b - 1);
        let p = load_docs(st, docs, b - 1);
        let one = seq![docs[b - 1]];
        lemma_docs_grow(p, one, 1);
        assert(load_docs(p, one, 0) == p);
        assert(one[0] == docs[b - 1]);
        assert(load_docs(p, one, 1) == load_doc(p, docs[b - 1]));
        lemma_grows_trans(load_docs(st, docs, a), p, load_docs(st, docs, b));
    }
}

/// Loading reports every document that is not a mapping: the protocol of
/// the loaded template holds the "no hash tag" message, whatever the other
/// documents hold.
pub proof fn law_loading_reports_each_non_mapping(
    id: Seq<char>,
    docs: Seq<YamlValue>,
    langu: Seq<char>,
    i: int,
)
    requires
        0 <= i < docs.len(),
        yaml_hash(docs[i]) is None,
    ensures
        loaded_template(id, docs, langu).protocol.contains(MSG_NO_HASH@),
{
    let st = initial_template(id, langu);
    let p = load_docs(st, docs, i + 1);
    assert(p == push_msg(load_docs(st, docs, i), MSG_NO_HASH@));
    let k = p.protocol.len() - 1;
    assert(p.protocol[k] == MSG_NO_HASH@);
    lemma_docs_grow_between(st, docs, i + 1, docs.len() as int);
    let q = load_docs(st, docs, docs.len() as int);
    assert(q.protocol.subrange(0, p.protocol.len() as int)[k] == q.protocol[k]);
    let r = loaded_template(id, docs, langu).protocol;
    assert(r[k] == MSG_NO_HASH@);
}

proof fn lemma_non_mappings(st: TemplateModel, docs: Seq<YamlValue>, n: int)
    requires
        0 <= n <= docs.len(),
        forall|i: int| 0 <= i < docs.len() ==> yaml_hash(#[trigger] docs[i]) is None,
    ensures
        load_docs(st, docs, n).protocol == st.protocol + Seq::new(n as nat, |i: int| MSG_NO_HASH@),
        load_docs(st, docs, n).fields == st.fields,
    decreases n,
{
    if n == 0 {
        assert(st.protocol + Seq::new(0, |i: int| MSG_NO_HASH@) =~= st.protocol);
    } else {
        lemma_non_mappings(st, docs, n - 1);
        assert(yaml_hash(docs[n - 1]) is None);
        assert(st.protocol + Seq::new(n as nat, |i: int| MSG_NO_HASH@) =~= (st.protocol + Seq::new(
            (n - 1) as nat,
            |i: int| MSG_NO_HASH@,
        )).push(MSG_NO_HASH@));
    }
}

// ------------------------------------------------------------------------
// Parsing

proof fn lemma_captures_keep(
    st: TemplateModel,
    name: Seq<char>,
    modifiers: Seq<char>,
    slot: Seq<char>,
    caps: Seq<Seq<Option<Seq<char>>>>,
    n: int,
)
    requires
        st.reg_ex.contains_key(slot),
    ensures
        keeps_definition(st, apply_captures(st, name, modifiers, slot, caps, n)),
        apply_captures(st, name, modifiers, slot, caps, n).reg_ex.contains_key(slot),
        st.data.dom().subset_of(apply_captures(st, name, modifiers, slot, caps, n).data.dom()),
        st.reg_ex.dom().subset_of(apply_captures(st, name, modifiers, slot, caps, n).reg_ex.dom()),
    decreases n,
{
    lemma_grows_refl(st);
    if n > 0 {
        lemma_captures_keep(st, name, modifiers, slot, caps, n - 1);
        let p = apply_captures(st, name, modifiers, slot, caps, n - 1);
        lemma_grows_refl(p);
        lemma_grows_trans(st, p, capture_step(p, name, modifiers, slot, caps[n - 1], n));
    }
}

proof fn lemma_field_keeps(st: TemplateModel, f: FieldModel, e: Seq<char>, nows: Seq<char>)
    ensures
        keeps_definition(st, extract_field(st, f, e, nows)),
        st.data.dom().subset_of(extract_field(st, f, e, nows).data.dom()),
        st.reg_ex.dom().subset_of(extract_field(st, f, e, nows).reg_ex.dom()),
        real_name(f).len() > 0 ==> extract_field(st, f, e, nows).data.contains_key(real_name(f)),
        real_name(f).len() > 0 && !is_static(f) ==> extract_field(st, f, e, nows).reg_ex.contains_key(
            real_name(f),
        ),
{
    let slot = real_name(f);
    lemma_grows_refl(st);
    if slot.len() == 0 {
        lemma_grows_push(st, MSG_FIELD_NAME_EMPTY@);
    } else if is_static(f) {
    } else {
        let st1 = TemplateModel {
            reg_ex: st.reg_ex.insert(slot, Seq::empty()),
            data: st.data.insert(slot, Seq::empty()),
            ..st
        };
        let ci = flag_set(st.options, f, "i"@);
        let iw = flag_set(st.options, f, "x"@);
        let ml = flag_set(st.options, f, "m"@);
        let caps = crate::engines::regex_captures(
            f.regex,
            ci,
            iw,
            ml,
            if iw {
                nows
            } else {
                e
            },
        );
        lemma_captures_keep(st1, f.name, f.modifiers, slot, caps, caps.len() as int);
        lemma_grows_same(st, st1);
        lemma_grows_trans(st, st1, extract_field(st, f, e, nows));
    }
}

proof fn lemma_fields_keep(
    st: TemplateModel,
    fields: Seq<FieldModel>,
    e: Seq<char>,
    nows: Seq<char>,
    n: int,
)
    requires
        n <= fields.len(),
    ensures
        keeps_definition(st, extract_fields(st, fields, e, nows, n)),
        forall|i: int|
            0 <= i < n && real_name(#[trigger] fields[i]).len() > 0 ==> extract_fields(
                st,
                fields,
                e,
                nows,
                n,
            ).data.contains_key(real_name(fields[i])),
        forall|i: int|
            0 <= i < n && real_name(#[trigger] fields[i]).len() > 0 && !is_static(fields[i])
                ==> extract_fields(st, fields, e, nows, n).reg_ex.contains_key(
                real_name(fields[i]),
            ),
    decreases n,
{
    lemma_grows_refl(st);
    if n > 0 {
        lemma_fields_keep(st, fields, e, nows, n - 1);
        let p = extract_fields(st, fields, e, nows, n - 1);
        lemma_field_keeps(p, fields[n - 1], e, nows);
        lemma_grows_trans(st, p, extract_fields(st, fields, e, nows, n));
    }
}

/// The messages that parsing adds for the first `n` fields: one for each
/// field whose name is empty without `static_`.
pub open spec fn field_messages(fields: Seq<FieldModel>, n: int) -> Seq<Seq<char>>
    decreases n,
{
    if n <= 0 {
        Seq::empty()
    } else {
        let r = field_messages(fields, n - 1);
        if real_name(fields[n - 1]).len() == 0 {
            r.push(MSG_FIELD_NAME_EMPTY@)
        } else {
            r
        }
    }
}

/// The keys under which parsing stores the values of the first `n` fields:
/// the names without `static_` that are not empty.
pub open spec fn data_slots(fields: Seq<FieldModel>, n: int) -> Set<Seq<char>>
    decreases n,
{
    if n <= 0 {
        Set::empty()
    } else {
        let r = data_slots(fields, n - 1);
        if real_name(fields[n - 1]).len() > 0 {
            r.insert(real_name(fields[n - 1]))
        } else {
            r
        }
    }
}

/// The keys under which parsing stores the matches of the first `n` fields:
/// those of the named fields that are not constant.
pub open spec fn match_slots(fields: Seq<FieldModel>, n: int) -> Set<Seq<char>>
    decreases n,
{
    if n <= 0 {
        Set::empty()
    } else {
        let r = match_slots(fields, n - 1);
        if real_name(fields[n - 1]).len() > 0 && !is_static(fields[n - 1]) {
            r.insert(real_name(fields[n - 1]))
        } else {
            r
        }
    }
}

proof fn lemma_captures_exact(
    st: TemplateModel,
    name: Seq<char>,
    modifiers: Seq<char>,
    slot: Seq<char>,
    caps: Seq<Seq<Option<Seq<char>>>>,
    n: int,
)
    requires
        st.reg_ex.contains_key(slot),
        st.data.contains_key(slot),
    ensures
        ({
            let r = apply_captures(st, name, modifiers, slot, caps, n);
            &&& r.protocol == st.protocol
            &&& r.parse_protocol == st.parse_protocol
            &&& r.data.dom() == st.data.dom()
            &&& r.reg_ex.dom() == st.reg_ex.dom()
        }),
    decreases n,
{
    if n > 0 {
        lemma_captures_exact(st, name, modifiers, slot, caps, n - 1);
        lemma_captures_keep(st, name, modifiers, slot, caps, n - 1);
        let p = apply_captures(st, name, modifiers, slot, caps, n - 1);
        let r = capture_step(p, name, modifiers, slot, caps[n - 1], n);
        assert(r.data.dom() =~= p.data.dom());
        assert(r.reg_ex.dom() =~= p.reg_ex.dom());
    }
}

proof fn lemma_field_exact(st: TemplateModel, f: FieldModel, e: Seq<char>, nows: Seq<char>)
    ensures
        ({
            let r = extract_field(st, f, e, nows);
            let slot = real_name(f);
            &&& r.parse_protocol == st.parse_protocol
            &&& r.protocol == if slot.len() == 0 {
                st.protocol.push(MSG_FIELD_NAME_EMPTY@)
            } else {
                st.protocol
            }
            &&& r.data.dom() == if slot.len() > 0 {
                st.data.dom().insert(slot)
            } else {
                st.data.dom()
            }
            &&& r.reg_ex.dom() == if slot.len() > 0 && !is_static(f) {
                st.reg_ex.dom().insert(slot)
            } else {
                st.reg_ex.dom()
            }
        }),
{
    let slot = real_name(f);
    let r = extract_field(st, f, e, nows);
    if slot.len() == 0 {
    } else if is_static(f) {
        assert(r.data.dom() =~= st.data.dom().insert(slot));
    } else {
        let st1 = TemplateModel {
            reg_ex: st.reg_ex.insert(slot, Seq::empty()),
            data: st.data.insert(slot, Seq::empty()),
            ..st
        };
        let ci = flag_set(st.options, f, "i"@);
        let iw = flag_set(st.options, f, "x"@);
        let ml = flag_set(st.options, f, "m"@);
        let caps = crate::engines::regex_captures(
            f.regex,
            ci,
            iw,
            ml,
            if iw {
                nows
            } else {
                e
            },
        );
        lemma_captures_exact(st1, f.name, f.modifiers, slot, caps, caps.len() as int);
        assert(st1.data.dom() =~= st.data.dom().insert(slot));
        assert(st1.reg_ex.dom() =~= st.reg_ex.dom().insert(slot));
    }
}

proof fn lemma_fields_exact(
    st: TemplateModel,
    fields: Seq<FieldModel>,
    e: Seq<char>,
    nows: Seq<char>,
    n: int,
)
    requires
        n <= fields.len(),
    ensures
        ({
            let r = extract_fields(st, fields, e, nows, n);
            &&& r.parse_protocol == st.parse_protocol
            &&& r.protocol == st.protocol + field_messages(fields, n)
            &&& r.data.dom() == st.data.dom().union(data_slots(fields, n))
            &&& r.reg_ex.dom() == st.reg_ex.dom().union(match_slots(fields, n))
        }),
    decreases n,
{
    if n <= 0 {
        assert(st.protocol + field_messages(fields, n) =~= st.protocol);
        assert(st.data.dom().union(data_slots(fields, n)) =~= st.data.dom());
        assert(st.reg_ex.dom().union(match_slots(fields, n)) =~= st.reg_ex.dom());
    } else {
        lemma_fields_exact(st, fields, e, nows, n - 1);
        let p = extract_fields(st, fields, e, nows, n - 1);
        lemma_field_exact(p, fields[n - 1], e, nows);
        let r = extract_fields(st, fields, e, nows, n);
        assert(r.protocol =~= st.protocol + field_messages(fields, n));
        assert(r.data.dom() =~= st.data.dom().union(data_slots(fields, n)));
        assert(r.reg_ex.dom() =~= st.reg_ex.dom().union(match_slots(fields, n)));
    }
}

/// Parsing a non-empty text adds exactly this: one `error - field name is
/// empty` message per field whose name is empty without `static_`, a value
/// under each named field's name, and a list of matches under each named
/// field that is not constant; the further messages per field are untouched.
pub proof fn law_parsing_adds_exactly(t: TemplateModel, text: Seq<char>)
    requires
        text.len() > 0,
    ensures
        ({
            let r = parsed_template(t, text);
            let n = t.fields.len() as int;
            &&& keeps_definition(t, r)
            &&& r.parse_protocol == t.parse_protocol
            &&& r.protocol == t.protocol + field_messages(t.fields, n)
            &&& r.data.dom() == t.data.dom().union(data_slots(t.fields, n))
            &&& r.reg_ex.dom() == t.reg_ex.dom().union(match_slots(t.fields, n))
        }),
{
    law_parsing_keeps_template(t, text);
    let e = prepared_text(t.options, text);
    lemma_fields_exact(
        t,
        t.fields,
        e,
        crate::text::replace_text_spec(e, " "@, ""@),
        t.fields.len() as int,
    );
}

/// Parsing changes only what it extracts: the identifier, name, group,
/// tests, options and fields stay, and the protocol only grows.
pub proof fn law_parsing_keeps_template(t: TemplateModel, text: Seq<char>)
    ensures
        keeps_definition(t, parsed_template(t, text)),
{
    if text.len() == 0 {
        lemma_grows_push(t, MSG_TEXT_EMPTY@);
    } else {
        let e = prepared_text(t.options, text);
        lemma_fields_keep(
            t,
            t.fields,
            e,
            crate::text::replace_text_spec(e, " "@, ""@),
            t.fields.len() as int,
        );
    }
}

/// Parsing a non-empty text gives every named field a value (possibly
/// empty) under its name without `static_`, and every named field with an
/// expression a list of matches.
pub proof fn law_parsing_stores_every_named_field(t: TemplateModel, text: Seq<char>)
    requires
        text.len() > 0,
    ensures
        forall|i: int|
            0 <= i < t.fields.len() && real_name(#[trigger] t.fields[i]).len() > 0
                ==> parsed_template(t, text).data.contains_key(real_name(t.fields[i])),
        forall|i: int|
            0 <= i < t.fields.len() && real_name(#[trigger] t.fields[i]).len() > 0 && !is_static(
                t.fields[i],
            ) ==> parsed_template(t, text).reg_ex.contains_key(real_name(t.fields[i])),
{
    let e = prepared_text(t.options, text);
    lemma_fields_keep(
        t,
        t.fields,
        e,
        crate::text::replace_text_spec(e, " "@, ""@),
        t.fields.len() as int,
    );
}

/// A cleared protocol reports no error.
pub proof fn law_cleared_protocol_has_no_error(t: TemplateModel)
    ensures
        !protocol_has_error(TemplateModel { protocol: Seq::empty(), ..t }.protocol),
{
}

/// A template without tests applies to no text.
pub proof fn law_no_tests_no_match(text: Seq<char>)
    ensures
        !template_applies(Seq::empty(), text),
{
}


/// An error once reported stays reported: parsing never removes the
/// message that made the template report an error.
pub proof fn law_parsing_keeps_reported_errors(t: TemplateModel, text: Seq<char>)
    requires
        protocol_has_error(t.protocol),
    ensures
        protocol_has_error(parsed_template(t, text).protocol),
{
    law_parsing_keeps_template(t, text);
    let p = parsed_template(t, text).protocol;
    let i = choose|i: int|
        0 <= i < t.protocol.len() && (is_prefix("ERROR"@, upper_text(#[trigger] t.protocol[i]))
            || is_prefix("* ERROR"@, upper_text(t.protocol[i])));
    assert(p.subrange(0, t.protocol.len() as int)[i] == p[i]);
    assert(p[i] == t.protocol[i]);
}

// ------------------------------------------------------------------------
// Recognising a document

/// Some test before `n` carries the flag `i`.
pub open spec fn case_flag_upto(tests: Seq<Seq<char>>, n: int) -> bool {
    exists|j: int| 0 <= j < n && #[trigger] plain_match(CASE_PATTERN@, tests[j])
}

/// Some test before `n` carries the flag `x`.
pub open spec fn space_flag_upto(tests: Seq<Seq<char>>, n: int) -> bool {
    exists|j: int| 0 <= j < n && #[trigger] plain_match(SPACE_FLAG_PATTERN@, tests[j])
}

/// The test at `i` is a valid expression that does not match: with the
/// flags in effect (`i` once any test up to it had it, `x` for itself or
/// once an earlier test had it), its expression without the `/flags` suffix
/// (and, under `x`, without spaces; then it must not be empty) compiles and
/// does not match the text (under its own `x`: the text without spaces).
pub open spec fn test_fails(tests: Seq<Seq<char>>, text: Seq<char>, i: int) -> bool {
    let ele = tests[i];
    let ci = case_flag_upto(tests, i + 1);
    let extra = stripped_by(SUFFIX_PATTERN@, ele);
    if plain_match(SPACE_FLAG_PATTERN@, ele) {
        let e2 = stripped_by(SPACES_PATTERN@, extra);
        &&& e2.len() > 0
        &&& regex_compiles(e2, ci, true, false)
        &&& !regex_matches(e2, ci, true, false, crate::text::replace_text_spec(text, " "@, ""@))
    } else {
        let iw = space_flag_upto(tests, i);
        &&& regex_compiles(extra, ci, iw, false)
        &&& !regex_matches(extra, ci, iw, false, text)
    }
}

proof fn lemma_flags_step(tests: Seq<Seq<char>>, n: int)
    requires
        0 <= n < tests.len(),
    ensures
        case_flag_upto(tests, n + 1) == (case_flag_upto(tests, n) || plain_match(CASE_PATTERN@, tests[n])),
        space_flag_upto(tests, n + 1) == (space_flag_upto(tests, n) || plain_match(
            SPACE_FLAG_PATTERN@,
            tests[n],
        )),
{
    if plain_match(CASE_PATTERN@, tests[n]) {
        assert(case_flag_upto(tests, n + 1));
    }
    if case_flag_upto(tests, n) {
        let j = choose|j: int| 0 <= j < n && #[trigger] plain_match(CASE_PATTERN@, tests[j]);
        assert(0 <= j < n + 1 && plain_match(CASE_PATTERN@, tests[j]));
    }
    if case_flag_upto(tests, n + 1) && !plain_match(CASE_PATTERN@, tests[n]) {
        let j = choose|j: int| 0 <= j < n + 1 && #[trigger] plain_match(CASE_PATTERN@, tests[j]);
        assert(j != n);
        assert(0 <= j < n && plain_match(CASE_PATTERN@, tests[j]));
    }
    if plain_match(SPACE_FLAG_PATTERN@, tests[n]) {
        assert(space_flag_upto(tests, n + 1));
    }
    if space_flag_upto(tests, n) {
        let j = choose|j: int| 0 <= j < n && #[trigger] plain_match(SPACE_FLAG_PATTERN@, tests[j]);
        assert(0 <= j < n + 1 && plain_match(SPACE_FLAG_PATTERN@, tests[j]));
    }
    if space_flag_upto(tests, n + 1) && !plain_match(SPACE_FLAG_PATTERN@, tests[n]) {
        let j = choose|j: int| 0 <= j < n + 1 && #[trigger] plain_match(SPACE_FLAG_PATTERN@, tests[j]);
        assert(j != n);
        assert(0 <= j < n && plain_match(SPACE_FLAG_PATTERN@, tests[j]));
    }
}

proof fn lemma_failing_test_stops(tests: Seq<Seq<char>>, text: Seq<char>, i: int, n: int, ci: bool, iw: bool, r: bool)
    requires
        0 <= n <= i < tests.len(),
        test_fails(tests, text, i),
        ci == case_flag_upto(tests, n),
        iw || !space_flag_upto(tests, n),
        !iw || space_flag_upto(tests, n),
    ensures
        !test_outcome(tests, text, n, ci, iw, r),
    decreases i - n,
{
    lemma_flags_step(tests, n);
    if n < i {
        let ele = tests[n];
        let ci2 = ci || plain_match(CASE_PATTERN@, ele);
        if plain_match(SPACE_FLAG_PATTERN@, ele) {
            lemma_failing_test_stops(tests, text, i, n + 1, ci2, true, r);
            lemma_failing_test_stops(tests, text, i, n + 1, ci2, true, true);
        } else {
            lemma_failing_test_stops(tests, text, i, n + 1, ci2, iw, r);
            lemma_failing_test_stops(tests, text, i, n + 1, ci2, iw, true);
        }
    }
}

/// One failing test decides: a template does not apply to a text where any
/// of its tests is a valid expression that does not match it (see
/// `test_fails`), whatever the other tests give; only tests whose
/// expression does not compile, or is empty under `x`, are passed over.
pub proof fn law_failing_test_rejects(tests: Seq<Seq<char>>, text: Seq<char>, i: int)
    requires
        0 <= i < tests.len(),
        test_fails(tests, text, i),
    ensures
        !template_applies(tests, text),
{
    assert(!case_flag_upto(tests, 0));
    assert(!space_flag_upto(tests, 0));
    lemma_failing_test_stops(tests, text, i, 0, false, false, false);
}

// ------------------------------------------------------------------------
// Numbers

/// No character of `s` is `c`.
pub open spec fn free_of(s: Seq<char>, c: char) -> bool {
    forall|i: int| 0 <= i < s.len() ==> s[i] != c
}

proof fn lemma_free_concat(a: Seq<char>, b: Seq<char>, c: char)
    requires
        free_of(a, c),
        free_of(b, c),
    ensures
        free_of(a + b, c),
{
    assert forall|i: int| 0 <= i < (a + b).len() implies (a + b)[i] != c by {
        if i < a.len() {
            assert((a + b)[i] == a[i]);
        } else {
            assert((a + b)[i] == b[i - a.len()]);
        }
    }
}

proof fn lemma_free_skip(s: Seq<char>, k: int, c: char)
    requires
        free_of(s, c),
        0 <= k <= s.len(),
    ensures
        free_of(s.skip(k), c),
{
    assert forall|i: int| 0 <= i < s.skip(k).len() implies s.skip(k)[i] != c by {
        assert(s.skip(k)[i] == s[i + k]);
    }
}

proof fn lemma_replace_keeps_free(s: Seq<char>, from: Seq<char>, to: Seq<char>, c: char)
    requires
        free_of(s, c),
        free_of(to, c),
    ensures
        free_of(crate::text::replace_text_spec(s, from, to), c),
    decreases s.len(),
{
    if from.len() == 0 || s.len() < from.len() {
    } else if s.subrange(0, from.len() as int) == from {
        lemma_free_skip(s, from.len() as int, c);
        lemma_replace_keeps_free(s.skip(from.len() as int), from, to, c);
        lemma_free_concat(to, crate::text::replace_text_spec(s.skip(from.len() as int), from, to), c);
    } else {
        lemma_free_skip(s, 1, c);
        lemma_replace_keeps_free(s.skip(1), from, to, c);
        lemma_free_concat(seq![s[0]], crate::text::replace_text_spec(s.skip(1), from, to), c);
    }
}

proof fn lemma_remove_char(s: Seq<char>, c: char)
    ensures
        free_of(crate::text::replace_text_spec(s, seq![c], Seq::empty()), c),
    decreases s.len(),
{
    if s.len() < 1 {
    } else if s.subrange(0, 1) == seq![c] {
        lemma_remove_char(s.skip(1), c);
        assert(Seq::<char>::empty() + crate::text::replace_text_spec(s.skip(1), seq![c], Seq::empty())
            =~= crate::text::replace_text_spec(s.skip(1), seq![c], Seq::empty()));
    } else {
        assert(s.subrange(0, 1) =~= seq![s[0]]);
        lemma_remove_char(s.skip(1), c);
        lemma_free_concat(seq![s[0]], crate::text::replace_text_spec(s.skip(1), seq![c], Seq::empty()), c);
    }
}

/// A number read for a `_float` field has lost every thousands separator,
/// whether or not it has a decimal part: where the thousands separator is a
/// single character other than `.` and differs from the decimal separator,
/// the field's value holds no such character.
pub proof fn law_float_values_drop_thousands(c: Seq<char>, name: Seq<char>, o: OptionModel, t: char)
    requires
        is_suffix("_float"@, name),
        o.thousand_separator == seq![t],
        t != '.',
        o.thousand_separator != o.decimal_separator,
    ensures
        free_of(value_text(c, name, o), t),
        !crate::text::contains_text(value_text(c, name, o), o.thousand_separator),
{
    reveal_strlit("_float");
    reveal_strlit("_date");
    reveal_strlit(".");
    reveal_strlit("");
    assert(name[name.len() - 1] == name.subrange(name.len() - 6, name.len() as int)[5]);
    if is_suffix("_date"@, name) {
        assert(name[name.len() - 1] == name.subrange(name.len() - 5, name.len() as int)[4]);
    }
    assert(!is_suffix("_date"@, name));
    if c.len() > 0 {
        lemma_remove_char(c, t);
        let c1 = crate::text::replace_text_spec(c, seq![t], ""@);
        assert(""@ =~= Seq::<char>::empty());
        assert(free_of("."@, t));
        lemma_replace_keeps_free(c1, o.decimal_separator, "."@, t);
        assert(value_text(c, name, o) == number_text(c, o));
    }
    let v = value_text(c, name, o);
    if crate::text::contains_text(v, o.thousand_separator) {
        let i = choose|i: int| crate::text::occurs_at(v, o.thousand_separator, i);
        assert(v.subrange(i, i + 1)[0] == v[i]);
    }
}

// ------------------------------------------------------------------------
// Tests of a loaded template

/// A `test` (or `keywords`) entry whose value is a text adds exactly that
/// text after the tests so far, and changes nothing else of the template.
pub proof fn law_test_entry_adds_its_text(st: TemplateModel, key: YamlValue, value: YamlValue, s: Seq<char>)
    requires
        yaml_str(key) == Some("test"@) || yaml_str(key) == Some("keywords"@),
        yaml_str(value) == Some(s),
    ensures
        load_entry(st, key, value) == (TemplateModel { test: st.test.push(s), ..st }),
{
    reveal_strlit("name");
    reveal_strlit("issuer");
    reveal_strlit("group");
    reveal_strlit("test");
    reveal_strlit("keywords");
    let k = yaml_str(key)->0;
    assert(k != "name"@ && k != "issuer"@ && k != "group"@) by {
        assert(k.len() == 4 ==> k[0] == 't');
        assert("name"@[0] == 'n' && "group"@.len() == 5 && "issuer"@.len() == 6);
    }
}

/// The texts of a list of document entries, in order.
pub open spec fn entry_texts(es: Seq<(YamlValue, YamlValue)>) -> Seq<Seq<char>> {
    es.map_values(|e: (YamlValue, YamlValue)| yaml_str(e.1)->0)
}

proof fn lemma_test_entries(st: TemplateModel, es: Seq<(YamlValue, YamlValue)>, n: int)
    requires
        0 <= n <= es.len(),
        forall|i: int|
            0 <= i < es.len() ==> yaml_str((#[trigger] es[i]).0) == Some("test"@) && yaml_str(es[i].1) is Some,
    ensures
        load_entries(st, es, n) == (TemplateModel { test: st.test + entry_texts(es).take(n), ..st }),
    decreases n,
{
    if n == 0 {
        assert(st.test + entry_texts(es).take(0) =~= st.test);
        assert(load_entries(st, es, 0) == st);
    } else {
        lemma_test_entries(st, es, n - 1);
        let p = load_entries(st, es, n - 1);
        let e = es[n - 1];
        law_test_entry_adds_its_text(p, e.0, e.1, yaml_str(e.1)->0);
        assert(st.test + entry_texts(es).take(n) =~= (st.test + entry_texts(es).take(n - 1)).push(
            yaml_str(e.1)->0,
        ));
    }
}

/// A template loaded from one mapping of `test` entries with texts has
/// exactly those texts as its tests, in the order given.
pub proof fn law_loaded_tests_are_the_given_texts(id: Seq<char>, docs: Seq<YamlValue>, langu: Seq<char>)
    requires
        docs.len() == 1,
        yaml_hash(docs[0]) is Some,
        forall|i: int|
            0 <= i < yaml_hash(docs[0])->0.len() ==> yaml_str((#[trigger] yaml_hash(docs[0])->0[i]).0)
                == Some("test"@) && yaml_str(yaml_hash(docs[0])->0[i].1) is Some,
    ensures
        loaded_template(id, docs, langu).test == entry_texts(yaml_hash(docs[0])->0),
{
    let es = yaml_hash(docs[0])->0;
    let st = initial_template(id, langu);
    lemma_test_entries(st, es, es.len() as int);
    assert(load_docs(st, docs, 0) == st);
    assert(load_docs(st, docs, 1) == load_doc(st, docs[0]));
    assert(entry_texts(es).take(es.len() as int) =~= entry_texts(es));
    assert(st.test + entry_texts(es) =~= entry_texts(es));
}

} // verus!
