//! Loading a parse template from YAML documents.
//!
//! Every document must be a mapping. Its keys `name`/`issuer`, `group`,
//! `test`/`keywords`, `options` and `fields` fill the template; every other
//! key, and every value of the wrong kind, leaves a message in the protocol.

use vstd::prelude::*;

use crate::dict::{TextListMap, TextMap};
use crate::engines::{is_uuid_text, load_yaml_text, new_uuid, yaml_documents};
use crate::template::{
    default_options_model, fields_view, german_options_model, FieldModel, OptionModel, ParseField,
    ParseOption, ParseTemplate, TemplateModel,
};
use crate::text::{concat_text, text_eq};
use crate::yaml::{yaml_bool, yaml_hash, yaml_str, yaml_vec, YamlValue};

verus! {

pub const MSG_START: &'static str = "start yaml loading";
pub const MSG_STOP: &'static str = "stop yaml loading";
pub const MSG_NO_HASH: &'static str = "* error - no hash tag found";
pub const MSG_NAME: &'static str = "* error - wrong type for tag 'name' - we need string";
pub const MSG_GROUP: &'static str = "* error - wrong type for tag 'group' - we need string";
pub const MSG_TEST: &'static str =
    "* error - wrong type for tag 'test' - we need string or array of string";
pub const MSG_OPTIONS: &'static str = "* error - wrong type for tag 'options' - we need hash";
pub const MSG_LANGU: &'static str =
    "* error - wrong type for tag 'langu' or 'languages' - we need string";
pub const MSG_DECIMAL: &'static str =
    "* error - wrong type for tag 'decimal_separator' - we need string";
pub const MSG_THOUSAND: &'static str =
    "* error - wrong type for tag 'thousand_separator' - we need string";
pub const MSG_GROUP_SEP: &'static str =
    "* error - wrong type for tag 'group_separator' - we need string";
pub const MSG_ACCENTS: &'static str =
    "* error - wrong type for tag 'remove_accents' - we need boolean";
pub const MSG_WHITESPACE: &'static str =
    "* error - wrong type for tag 'remove_whitespace' - we need boolean";
pub const MSG_LOWERCASE: &'static str = "* error - wrong type for tag 'lowercase' - we need boolean";
pub const MSG_MODIFIERS: &'static str = "* error - wrong type for tag 'modifiers' - we need string";
pub const MSG_CURRENCY: &'static str = "* error - wrong type for tag 'currency' - we need string";
pub const MSG_DATE_FORMATS: &'static str =
    "* error - wrong type for tag 'date_formats' - we need string";
pub const MSG_REPLACE: &'static str =
    "* error - wrong type for tag 'replace' - we need string or array of string";
pub const MSG_REQUIRED_ITEM: &'static str =
    "* error - wrong type for tag 'required_fields' - we need string";
pub const MSG_REQUIRED: &'static str =
    "* error - wrong type for tag 'required_fields' - we need string or array of string";
pub const MSG_FIELD_ATTR: &'static str =
    "* error - wrong tag 'fields' - we need 'regex' or 'modifiers'";
pub const MSG_FIELD_VALUE: &'static str =
    "* error - wrong type for tag 'fields' - we need string or array";
pub const MSG_FIELDS: &'static str =
    "* error - wrong type for tag 'fields' - we need hash of tuple or array";
pub const WRONG_KEY_START: &'static str = "* error - wrong key '";
pub const WRONG_KEY_END: &'static str = "'";

// ------------------------------------------------------------------------
// What the loader demands of its input

/// A `replace` item that is a list of two or more starts with two texts.
pub open spec fn replace_item_ok(item: YamlValue) -> bool {
    match yaml_vec(item) {
        Some(v) => v.len() > 1 ==> (yaml_str(v[0]) is Some && yaml_str(v[1]) is Some),
        None => true,
    }
}

/// Every item of a `replace` list is acceptable.
pub open spec fn replace_items_ok(items: Seq<YamlValue>) -> bool {
    forall|i: int| 0 <= i < items.len() ==> replace_item_ok(#[trigger] items[i])
}

/// An entry of `options` whose key is `replace` holds acceptable items.
pub open spec fn option_entry_ok(e: (YamlValue, YamlValue)) -> bool {
    yaml_str(e.0) == Some("replace"@) && yaml_vec(e.1) is Some ==> replace_items_ok(
        yaml_vec(e.1)->Some_0,
    )
}

/// Every entry of an `options` mapping is acceptable.
pub open spec fn option_entries_ok(es: Seq<(YamlValue, YamlValue)>) -> bool {
    forall|j: int| 0 <= j < es.len() ==> option_entry_ok(#[trigger] es[j])
}

/// A top-level entry whose key is `options` holds acceptable entries.
pub open spec fn top_entry_ok(e: (YamlValue, YamlValue)) -> bool {
    yaml_str(e.0) == Some("options"@) && yaml_hash(e.1) is Some ==> option_entries_ok(
        yaml_hash(e.1)->Some_0,
    )
}

/// Every top-level entry of a mapping is acceptable.
pub open spec fn top_entries_ok(es: Seq<(YamlValue, YamlValue)>) -> bool {
    forall|j: int| 0 <= j < es.len() ==> top_entry_ok(#[trigger] es[j])
}

/// Every top-level entry of a document is acceptable.
pub open spec fn doc_ok(d: YamlValue) -> bool {
    yaml_hash(d) is Some ==> top_entries_ok(yaml_hash(d)->Some_0)
}

/// The documents can be loaded: every `replace` item that is a list of two
/// or more starts with two texts (loading stops with a panic otherwise).
pub open spec fn docs_loadable(docs: Seq<YamlValue>) -> bool {
    forall|i: int| 0 <= i < docs.len() ==> doc_ok(#[trigger] docs[i])
}

// ------------------------------------------------------------------------
// What loading does

/// `st` with one more protocol message.
pub open spec fn push_msg(st: TemplateModel, m: Seq<char>) -> TemplateModel {
    TemplateModel { protocol: st.protocol.push(m), ..st }
}

/// `st` with other options.
pub open spec fn with_options(st: TemplateModel, o: OptionModel) -> TemplateModel {
    TemplateModel { options: o, ..st }
}

/// The message for a key that is not known.
pub open spec fn wrong_key_msg(k: Seq<char>) -> Seq<char> {
    WRONG_KEY_START@ + k + WRONG_KEY_END@
}

/// The last text among `items`, or `d` where there is none.
pub open spec fn last_text_in(items: Seq<YamlValue>, d: Seq<char>) -> Seq<char>
    decreases items.len(),
{
    if items.len() == 0 {
        d
    } else {
        match yaml_str(items.last()) {
            Some(s) => s,
            None => last_text_in(items.drop_last(), d),
        }
    }
}

/// The texts among `items`, in order.
pub open spec fn texts_in(items: Seq<YamlValue>) -> Seq<Seq<char>>
    decreases items.len(),
{
    if items.len() == 0 {
        Seq::empty()
    } else {
        match yaml_str(items.last()) {
            Some(s) => texts_in(items.drop_last()).push(s),
            None => texts_in(items.drop_last()),
        }
    }
}

/// One `replace` item: a pair of texts is added, anything else is reported.
pub open spec fn load_replace_item(st: TemplateModel, item: YamlValue) -> TemplateModel {
    match yaml_vec(item) {
        Some(v) => if v.len() > 1 {
            with_options(
                st,
                OptionModel {
                    replace: st.options.replace.push(
                        (yaml_str(v[0])->Some_0, yaml_str(v[1])->Some_0),
                    ),
                    ..st.options
                },
            )
        } else {
            push_msg(st, MSG_REPLACE@)
        },
        None => push_msg(st, MSG_REPLACE@),
    }
}

/// The first `n` items of `replace`.
pub open spec fn load_replace_items(st: TemplateModel, items: Seq<YamlValue>, n: int) -> TemplateModel
    decreases n,
{
    if n <= 0 {
        st
    } else {
        load_replace_item(load_replace_items(st, items, n - 1), items[n - 1])
    }
}

/// One `required_fields` item: a text is added, anything else is reported.
pub open spec fn load_required_item(st: TemplateModel, item: YamlValue) -> TemplateModel {
    match yaml_str(item) {
        Some(s) => with_options(
            st,
            OptionModel { required_fields: st.options.required_fields.push(s), ..st.options },
        ),
        None => push_msg(st, MSG_REQUIRED_ITEM@),
    }
}

/// The first `n` items of `required_fields`.
pub open spec fn load_required_items(st: TemplateModel, items: Seq<YamlValue>, n: int) -> TemplateModel
    decreases n,
{
    if n <= 0 {
        st
    } else {
        load_required_item(load_required_items(st, items, n - 1), items[n - 1])
    }
}

/// A text option: the text is taken, anything else reported with `msg`.
pub open spec fn text_option(
    st: TemplateModel,
    v: YamlValue,
    msg: Seq<char>,
    set: spec_fn(OptionModel, Seq<char>) -> OptionModel,
) -> TemplateModel {
    match yaml_str(v) {
        Some(s) => with_options(st, set(st.options, s)),
        None => push_msg(st, msg),
    }
}

/// An option that is a text or a list: a text is taken, of a list the last
/// text; anything else is reported with `msg`.
pub open spec fn text_or_list_option(
    st: TemplateModel,
    v: YamlValue,
    msg: Seq<char>,
    get: spec_fn(OptionModel) -> Seq<char>,
    set: spec_fn(OptionModel, Seq<char>) -> OptionModel,
) -> TemplateModel {
    match yaml_str(v) {
        Some(s) => with_options(st, set(st.options, s)),
        None => match yaml_vec(v) {
            Some(items) => with_options(st, set(st.options, last_text_in(items, get(st.options)))),
            None => push_msg(st, msg),
        },
    }
}

/// A switch that, when true, adds `flag` to the modifiers.
pub open spec fn flag_option(st: TemplateModel, v: YamlValue, msg: Seq<char>, flag: Seq<char>) -> TemplateModel {
    match yaml_bool(v) {
        Some(b) => if b {
            with_options(st, OptionModel { modifiers: st.options.modifiers + flag, ..st.options })
        } else {
            st
        },
        None => push_msg(st, msg),
    }
}

/// One entry of `options`.
pub open spec fn load_option_entry(st: TemplateModel, k2: YamlValue, v2: YamlValue) -> TemplateModel {
    match yaml_str(k2) {
        None => st,
        Some(k) => if k == "langu"@ || k == "languages"@ {
            text_or_list_option(
                st,
                v2,
                MSG_LANGU@,
                |o: OptionModel| o.langu,
                |o: OptionModel, s: Seq<char>| OptionModel { langu: s, ..o },
            )
        } else if k == "decimal_separator"@ {
            text_option(
                st,
                v2,
                MSG_DECIMAL@,
                |o: OptionModel, s: Seq<char>| OptionModel { decimal_separator: s, ..o },
            )
        } else if k == "thousand_separator"@ {
            text_option(
                st,
                v2,
                MSG_THOUSAND@,
                |o: OptionModel, s: Seq<char>| OptionModel { thousand_separator: s, ..o },
            )
        } else if k == "group_separator"@ {
            text_option(
                st,
                v2,
                MSG_GROUP_SEP@,
                |o: OptionModel, s: Seq<char>| OptionModel { group_separator: s, ..o },
            )
        } else if k == "remove_accents"@ {
            match yaml_bool(v2) {
                Some(b) => with_options(st, OptionModel { remove_accents: b, ..st.options }),
                None => push_msg(st, MSG_ACCENTS@),
            }
        } else if k == "remove_whitespace"@ {
            flag_option(st, v2, MSG_WHITESPACE@, "x"@)
        } else if k == "lowercase"@ {
            flag_option(st, v2, MSG_LOWERCASE@, "i"@)
        } else if k == "modifiers"@ {
            text_option(
                st,
                v2,
                MSG_MODIFIERS@,
                |o: OptionModel, s: Seq<char>| OptionModel { modifiers: s, ..o },
            )
        } else if k == "currency"@ {
            text_option(
                st,
                v2,
                MSG_CURRENCY@,
                |o: OptionModel, s: Seq<char>| OptionModel { currency: s, ..o },
            )
        } else if k == "date_formats"@ {
            text_or_list_option(
                st,
                v2,
                MSG_DATE_FORMATS@,
                |o: OptionModel| o.date_formats,
                |o: OptionModel, s: Seq<char>| OptionModel { date_formats: s, ..o },
            )
        } else if k == "replace"@ {
            match yaml_vec(v2) {
                Some(items) => load_replace_items(st, items, items.len() as int),
                None => push_msg(st, MSG_REPLACE@),
            }
        } else if k == "required_fields"@ {
            match yaml_vec(v2) {
                Some(items) => load_required_items(st, items, items.len() as int),
                None => push_msg(st, MSG_REQUIRED@),
            }
        } else {
            push_msg(st, wrong_key_msg(k))
        },
    }
}

/// The first `n` entries of `options`.
pub open spec fn load_option_entries(
    st: TemplateModel,
    es: Seq<(YamlValue, YamlValue)>,
    n: int,
) -> TemplateModel
    decreases n,
{
    if n <= 0 {
        st
    } else {
        let e = es[n - 1];
        load_option_entry(load_option_entries(st, es, n - 1), e.0, e.1)
    }
}

/// A field with the given name and expression, everything else empty.
pub open spec fn plain_field(name: Seq<char>, regex: Seq<char>) -> FieldModel {
    FieldModel {
        name,
        data: Seq::empty(),
        modifiers: Seq::empty(),
        regex,
        format: Seq::empty(),
    }
}

/// `i` is the first index of a field named `name`.
pub open spec fn is_first_named(fields: Seq<FieldModel>, name: Seq<char>, i: int) -> bool {
    &&& 0 <= i < fields.len()
    &&& fields[i].name == name
    &&& forall|j: int| 0 <= j < i ==> fields[j].name != name
}

/// The index of the first field named `name`.
pub open spec fn first_named(fields: Seq<FieldModel>, name: Seq<char>) -> int {
    choose|i: int| is_first_named(fields, name, i)
}

/// One attribute of a field given as a mapping: `regex` and `modifiers` with
/// a text set the field at `idx`, anything else is reported.
pub open spec fn load_field_attr(st: TemplateModel, idx: int, k3: YamlValue, v3: YamlValue) -> TemplateModel {
    if yaml_str(k3) == Some("regex"@) && yaml_str(v3) is Some {
        TemplateModel {
            fields: st.fields.update(idx, FieldModel { regex: yaml_str(v3)->Some_0, ..st.fields[idx] }),
            ..st
        }
    } else if yaml_str(k3) == Some("modifiers"@) && yaml_str(v3) is Some {
        TemplateModel {
            fields: st.fields.update(
                idx,
                FieldModel { modifiers: yaml_str(v3)->Some_0, ..st.fields[idx] },
            ),
            ..st
        }
    } else {
        push_msg(st, MSG_FIELD_ATTR@)
    }
}

/// The first `n` attributes of a field given as a mapping.
pub open spec fn load_field_attrs(
    st: TemplateModel,
    idx: int,
    es: Seq<(YamlValue, YamlValue)>,
    n: int,
) -> TemplateModel
    decreases n,
{
    if n <= 0 {
        st
    } else {
        let e = es[n - 1];
        load_field_attr(load_field_attrs(st, idx, es, n - 1), idx, e.0, e.1)
    }
}

/// One entry of `fields`: a text is the field's expression; a mapping adds
/// an empty field and sets the attributes of the first field of that name.
pub open spec fn load_field_entry(st: TemplateModel, k2: YamlValue, v2: YamlValue) -> TemplateModel {
    match yaml_str(k2) {
        None => st,
        Some(k) => match yaml_str(v2) {
            Some(s) => TemplateModel { fields: st.fields.push(plain_field(k, s)), ..st },
            None => match yaml_hash(v2) {
                Some(es) => {
                    let st1 = TemplateModel {
                        fields: st.fields.push(plain_field(k, Seq::empty())),
                        ..st
                    };
                    load_field_attrs(st1, first_named(st1.fields, k), es, es.len() as int)
                },
                None => push_msg(st, MSG_FIELD_VALUE@),
            },
        },
    }
}

/// The first `n` entries of `fields`.
pub open spec fn load_field_entries(
    st: TemplateModel,
    es: Seq<(YamlValue, YamlValue)>,
    n: int,
) -> TemplateModel
    decreases n,
{
    if n <= 0 {
        st
    } else {
        let e = es[n - 1];
        load_field_entry(load_field_entries(st, es, n - 1), e.0, e.1)
    }
}

/// One top-level entry of a document.
pub open spec fn load_entry(st: TemplateModel, key: YamlValue, value: YamlValue) -> TemplateModel {
    match yaml_str(key) {
        None => st,
        Some(k) => if k == "name"@ || k == "issuer"@ {
            match yaml_str(value) {
                Some(s) => TemplateModel { name: s, ..st },
                None => push_msg(st, MSG_NAME@),
            }
        } else if k == "group"@ {
            match yaml_str(value) {
                Some(s) => TemplateModel { group: s, ..st },
                None => push_msg(st, MSG_GROUP@),
            }
        } else if k == "test"@ || k == "keywords"@ {
            match yaml_str(value) {
                Some(s) => TemplateModel { test: st.test.push(s), ..st },
                None => match yaml_vec(value) {
                    Some(items) => TemplateModel { test: st.test + texts_in(items), ..st },
                    None => push_msg(st, MSG_TEST@),
                },
            }
        } else if k == "options"@ {
            match yaml_hash(value) {
                Some(es) => load_option_entries(st, es, es.len() as int),
                None => push_msg(st, MSG_OPTIONS@),
            }
        } else if k == "fields"@ {
            match yaml_hash(value) {
                Some(es) => load_field_entries(st, es, es.len() as int),
                None => push_msg(st, MSG_FIELDS@),
            }
        } else {
            push_msg(st, wrong_key_msg(k))
        },
    }
}

/// The first `n` entries of a document.
pub open spec fn load_entries(st: TemplateModel, es: Seq<(YamlValue, YamlValue)>, n: int) -> TemplateModel
    decreases n,
{
    if n <= 0 {
        st
    } else {
        let e = es[n - 1];
        load_entry(load_entries(st, es, n - 1), e.0, e.1)
    }
}

/// One document: a mapping is loaded entry by entry, anything else reported.
pub open spec fn load_doc(st: TemplateModel, doc: YamlValue) -> TemplateModel {
    match yaml_hash(doc) {
        Some(es) => load_entries(st, es, es.len() as int),
        None => push_msg(st, MSG_NO_HASH@),
    }
}

/// The first `n` documents.
pub open spec fn load_docs(st: TemplateModel, docs: Seq<YamlValue>, n: int) -> TemplateModel
    decreases n,
{
    if n <= 0 {
        st
    } else {
        load_doc(load_docs(st, docs, n - 1), docs[n - 1])
    }
}

/// The template before any document is read: the identifier, the options for
/// the language, everything else empty, and the start message.
pub open spec fn initial_template(id: Seq<char>, langu: Seq<char>) -> TemplateModel {
    TemplateModel {
        id,
        name: Seq::empty(),
        group: Seq::empty(),
        test: Seq::empty(),
        options: if crate::text::is_prefix("de"@, langu) {
            german_options_model()
        } else {
            default_options_model()
        },
        fields: Seq::empty(),
        protocol: seq![MSG_START@],
        data: Map::empty(),
        reg_ex: Map::empty(),
        parse_protocol: Map::empty(),
    }
}

/// The template with identifier `id` loaded from `docs`: all documents in
/// order, then the stop message.
pub open spec fn loaded_template(id: Seq<char>, docs: Seq<YamlValue>, langu: Seq<char>) -> TemplateModel {
    push_msg(load_docs(initial_template(id, langu), docs, docs.len() as int), MSG_STOP@)
}

// ------------------------------------------------------------------------
// Executable loading

/// Adds a message to the protocol.
fn push_message(t: &mut ParseTemplate, m: String)
    ensures
        final(t).id == old(t).id,
        final(t)@ == push_msg(old(t)@, m@),
{
    let ghost before = t.protocol.deep_view();
    t.protocol.push(m);
    assert(t.protocol.deep_view() =~= before.push(m@));
}

/// The last text among `items`, or `d`.
fn last_text(items: &Vec<YamlValue>, d: &String) -> (r: String)
    ensures
        r@ == last_text_in(items@, d@),
{
    let mut cur = d.clone();
    let mut k: usize = 0;
    while k < items.len()
        invariant
            k <= items@.len(),
            cur@ == last_text_in(items@.take(k as int), d@),
        decreases items@.len() - k,
    {
        assert(items@.take(k + 1).drop_last() =~= items@.take(k as int));
        match items[k].as_str() {
            Some(s) => {
                cur = s.clone();
            },
            None => {},
        }
        k = k + 1;
    }
    assert(items@.take(k as int) =~= items@);
    cur
}

/// Appends the texts among `items` to the test expressions.
fn push_texts(t: &mut ParseTemplate, items: &Vec<YamlValue>)
    ensures
        final(t).id == old(t).id,
        final(t)@ == (TemplateModel { test: old(t)@.test + texts_in(items@), ..old(t)@ }),
{
    let ghost start = t@;
    let ghost id0 = t.id;
    let mut k: usize = 0;
    assert(texts_in(items@.take(0)) =~= Seq::<Seq<char>>::empty());
    assert(start.test + Seq::<Seq<char>>::empty() =~= start.test);
    while k < items.len()
        invariant
            t.id == id0,
            k <= items@.len(),
            t@ == (TemplateModel { test: start.test + texts_in(items@.take(k as int)), ..start }),
        decreases items@.len() - k,
    {
        assert(items@.take(k + 1).drop_last() =~= items@.take(k as int));
        match items[k].as_str() {
            Some(s) => {
                let ghost before = t.test.deep_view();
                t.test.push(s.clone());
                assert(t.test.deep_view() =~= before.push(s@));
                assert(start.test + texts_in(items@.take(k + 1)) =~= before.push(s@));
            },
            None => {},
        }
        k = k + 1;
    }
    assert(items@.take(k as int) =~= items@);
}

fn load_replace(t: &mut ParseTemplate, items: &Vec<YamlValue>)
    requires
        replace_items_ok(items@),
    ensures
        final(t).id == old(t).id,
        final(t)@ == load_replace_items(old(t)@, items@, items@.len() as int),
{
    let ghost start = t@;
    let ghost id0 = t.id;
    let mut k: usize = 0;
    while k < items.len()
        invariant
            t.id == id0,
            k <= items@.len(),
            replace_items_ok(items@),
            t@ == load_replace_items(start, items@, k as int),
        decreases items@.len() - k,
    {
        assert(replace_item_ok(items@[k as int]));
        match items[k].as_vec() {
            Some(v) => {
                if v.len() > 1 {
                    let first = v[0].as_str().unwrap().clone();
                    let second = v[1].as_str().unwrap().clone();
                    let ghost before = t.options.replace.deep_view();
                    let ghost pair = (first@, second@);
                    t.options.replace.push((first, second));
                    assert(t.options.replace.deep_view() =~= before.push(pair));
                } else {
                    push_message(t, MSG_REPLACE.to_owned());
                }
            },
            None => {
                push_message(t, MSG_REPLACE.to_owned());
            },
        }
        k = k + 1;
    }
}

fn load_required(t: &mut ParseTemplate, items: &Vec<YamlValue>)
    ensures
        final(t).id == old(t).id,
        final(t)@ == load_required_items(old(t)@, items@, items@.len() as int),
{
    let ghost start = t@;
    let ghost id0 = t.id;
    let mut k: usize = 0;
    while k < items.len()
        invariant
            t.id == id0,
            k <= items@.len(),
            t@ == load_required_items(start, items@, k as int),
        decreases items@.len() - k,
    {
        match items[k].as_str() {
            Some(s) => {
                let ghost before = t.options.required_fields.deep_view();
                t.options.required_fields.push(s.clone());
                assert(t.options.required_fields.deep_view() =~= before.push(s@));
            },
            None => {
                push_message(t, MSG_REQUIRED_ITEM.to_owned());
            },
        }
        k = k + 1;
    }
}

fn wrong_key(k: &str) -> (r: String)
    ensures
        r@ == wrong_key_msg(k@),
{
    let a = concat_text(WRONG_KEY_START, k);
    concat_text(a.as_str(), WRONG_KEY_END)
}

fn load_option(t: &mut ParseTemplate, e: &(YamlValue, YamlValue))
    requires
        option_entry_ok(*e),
    ensures
        final(t).id == old(t).id,
        final(t)@ == load_option_entry(old(t)@, e.0, e.1),
{
    let key = &e.0;
    let value = &e.1;
    let k = match key.as_str() {
        Some(k) => k,
        None => {
            return ;
        },
    };
    let k = k.as_str();
    if text_eq(k, "langu") || text_eq(k, "languages") {
        match value.as_str() {
            Some(s) => {
                t.options.langu = s.clone();
            },
            None => match value.as_vec() {
                Some(items) => {
                    t.options.langu = last_text(items, &t.options.langu);
                },
                None => {
                    push_message(t, MSG_LANGU.to_owned());
                },
            },
        }
    } else if text_eq(k, "decimal_separator") {
        match value.as_str() {
            Some(s) => {
                t.options.decimal_separator = s.clone();
            },
            None => {
                push_message(t, MSG_DECIMAL.to_owned());
            },
        }
    } else if text_eq(k, "thousand_separator") {
        match value.as_str() {
            Some(s) => {
                t.options.thousand_separator = s.clone();
            },
            None => {
                push_message(t, MSG_THOUSAND.to_owned());
            },
        }
    } else if text_eq(k, "group_separator") {
        match value.as_str() {
            Some(s) => {
                t.options.group_separator = s.clone();
            },
            None => {
                push_message(t, MSG_GROUP_SEP.to_owned());
            },
        }
    } else if text_eq(k, "remove_accents") {
        match value.as_bool() {
            Some(b) => {
                t.options.remove_accents = b;
            },
            None => {
                push_message(t, MSG_ACCENTS.to_owned());
            },
        }
    } else if text_eq(k, "remove_whitespace") {
        match value.as_bool() {
            Some(b) => {
                if b {
                    t.options.modifiers = concat_text(t.options.modifiers.as_str(), "x");
                }
            },
            None => {
                push_message(t, MSG_WHITESPACE.to_owned());
            },
        }
    } else if text_eq(k, "lowercase") {
        match value.as_bool() {
            Some(b) => {
                if b {
                    t.options.modifiers = concat_text(t.options.modifiers.as_str(), "i");
                }
            },
            None => {
                push_message(t, MSG_LOWERCASE.to_owned());
            },
        }
    } else if text_eq(k, "modifiers") {
        match value.as_str() {
            Some(s) => {
                t.options.modifiers = s.clone();
            },
            None => {
                push_message(t, MSG_MODIFIERS.to_owned());
            },
        }
    } else if text_eq(k, "currency") {
        match value.as_str() {
            Some(s) => {
                t.options.currency = s.clone();
            },
            None => {
                push_message(t, MSG_CURRENCY.to_owned());
            },
        }
    } else if text_eq(k, "date_formats") {
        match value.as_str() {
            Some(s) => {
                t.options.date_formats = s.clone();
            },
            None => match value.as_vec() {
                Some(items) => {
                    t.options.date_formats = last_text(items, &t.options.date_formats);
                },
                None => {
                    push_message(t, MSG_DATE_FORMATS.to_owned());
                },
            },
        }
    } else if text_eq(k, "replace") {
        match value.as_vec() {
            Some(items) => {
                assert(yaml_str(*key) == Some("replace"@));
                assert(yaml_vec(*value) == Some(items@));
                load_replace(t, items);
            },
            None => {
                push_message(t, MSG_REPLACE.to_owned());
            },
        }
    } else if text_eq(k, "required_fields") {
        match value.as_vec() {
            Some(items) => {
                load_required(t, items);
            },
            None => {
                push_message(t, MSG_REQUIRED.to_owned());
            },
        }
    } else {
        push_message(t, wrong_key(k));
    }
}

fn load_options(t: &mut ParseTemplate, es: &Vec<(YamlValue, YamlValue)>)
    requires
        option_entries_ok(es@),
    ensures
        final(t).id == old(t).id,
        final(t)@ == load_option_entries(old(t)@, es@, es@.len() as int),
{
    let ghost start = t@;
    let ghost id0 = t.id;
    let mut k: usize = 0;
    while k < es.len()
        invariant
            t.id == id0,
            k <= es@.len(),
            option_entries_ok(es@),
            t@ == load_option_entries(start, es@, k as int),
        decreases es@.len() - k,
    {
        assert(option_entry_ok(es@[k as int]));
        load_option(t, &es[k]);
        k = k + 1;
    }
}

/// The index of the first field named `name`, which must exist.
fn first_field_named(fields: &Vec<ParseField>, name: &String) -> (r: usize)
    requires
        exists|i: int| 0 <= i < fields_view(fields@).len() && #[trigger] fields_view(fields@)[i].name == name@,
    ensures
        is_first_named(fields_view(fields@), name@, r as int),
        r as int == first_named(fields_view(fields@), name@),
{
    let ghost fv = fields_view(fields@);
    let mut i: usize = 0;
    while i < fields.len()
        invariant
            i <= fields@.len(),
            fv == fields_view(fields@),
            exists|j: int| i <= j < fv.len() && #[trigger] fv[j].name == name@,
            forall|j: int| 0 <= j < i ==> fv[j].name != name@,
        decreases fields@.len() - i,
    {
        if fields[i].name == *name {
            assert(is_first_named(fv, name@, i as int));
            let ghost c = first_named(fv, name@);
            assert(is_first_named(fv, name@, c));
            assert(c == i as int) by {
                if c < i {
                    assert(fv[c].name != name@);
                } else if c > i {
                    assert(fv[i as int].name != name@);
                }
            }
            return i;
        }
        i = i + 1;
    }
    assert(false);
    0
}

fn load_field_attrs_exec(t: &mut ParseTemplate, idx: usize, es: &Vec<(YamlValue, YamlValue)>)
    requires
        idx < old(t)@.fields.len(),
    ensures
        final(t).id == old(t).id,
        final(t)@ == load_field_attrs(old(t)@, idx as int, es@, es@.len() as int),
{
    let ghost start = t@;
    let ghost id0 = t.id;
    let mut k: usize = 0;
    while k < es.len()
        invariant
            t.id == id0,
            k <= es@.len(),
            idx < t@.fields.len(),
            t@ == load_field_attrs(start, idx as int, es@, k as int),
        decreases es@.len() - k,
    {
        assert(t.fields@.len() == t@.fields.len());
        let key = &es[k].0;
        let value = &es[k].1;
        let is_regex = match key.as_str() {
            Some(s) => text_eq(s.as_str(), "regex"),
            None => false,
        };
        let is_modifiers = match key.as_str() {
            Some(s) => text_eq(s.as_str(), "modifiers"),
            None => false,
        };
        let text = value.as_str();
        if is_regex && text.is_some() {
            let ghost before = fields_view(t.fields@);
            let mut f = t.fields.remove(idx);
            f.regex = text.unwrap().clone();
            let ghost fm = f@;
            t.fields.insert(idx, f);
            assert(fields_view(t.fields@) =~= before.update(idx as int, fm));
        } else if is_modifiers && text.is_some() {
            let ghost before = fields_view(t.fields@);
            let mut f = t.fields.remove(idx);
            f.modifiers = text.unwrap().clone();
            let ghost fm = f@;
            t.fields.insert(idx, f);
            assert(fields_view(t.fields@) =~= before.update(idx as int, fm));
        } else {
            push_message(t, MSG_FIELD_ATTR.to_owned());
        }
        k = k + 1;
    }
}

fn push_field(t: &mut ParseTemplate, f: ParseField)
    ensures
        final(t).id == old(t).id,
        final(t)@ == (TemplateModel { fields: old(t)@.fields.push(f@), ..old(t)@ }),
{
    let ghost before = fields_view(t.fields@);
    let ghost fm = f@;
    t.fields.push(f);
    assert(fields_view(t.fields@) =~= before.push(fm));
}

fn load_field(t: &mut ParseTemplate, key: &YamlValue, value: &YamlValue)
    ensures
        final(t).id == old(t).id,
        final(t)@ == load_field_entry(old(t)@, *key, *value),
{
    let k = match key.as_str() {
        Some(k) => k,
        None => {
            return ;
        },
    };
    match value.as_str() {
        Some(s) => {
            push_field(
                t,
                ParseField {
                    name: k.clone(),
                    data: String::new(),
                    modifiers: String::new(),
                    regex: s.clone(),
                    format: String::new(),
                },
            );
        },
        None => match value.as_hash() {
            Some(es) => {
                push_field(
                    t,
                    ParseField {
                        name: k.clone(),
                        data: String::new(),
                        modifiers: String::new(),
                        regex: String::new(),
                        format: String::new(),
                    },
                );
                assert(t@.fields[t@.fields.len() - 1].name == k@);
                let idx = first_field_named(&t.fields, k);
                load_field_attrs_exec(t, idx, es);
            },
            None => {
                push_message(t, MSG_FIELD_VALUE.to_owned());
            },
        },
    }
}

fn load_fields(t: &mut ParseTemplate, es: &Vec<(YamlValue, YamlValue)>)
    ensures
        final(t).id == old(t).id,
        final(t)@ == load_field_entries(old(t)@, es@, es@.len() as int),
{
    let ghost start = t@;
    let ghost id0 = t.id;
    let mut k: usize = 0;
    while k < es.len()
        invariant
            t.id == id0,
            k <= es@.len(),
            t@ == load_field_entries(start, es@, k as int),
        decreases es@.len() - k,
    {
        load_field(t, &es[k].0, &es[k].1);
        k = k + 1;
    }
}

fn load_top_entry(t: &mut ParseTemplate, e: &(YamlValue, YamlValue))
    requires
        top_entry_ok(*e),
    ensures
        final(t).id == old(t).id,
        final(t)@ == load_entry(old(t)@, e.0, e.1),
{
    let key = &e.0;
    let value = &e.1;
    let k = match key.as_str() {
        Some(k) => k,
        None => {
            return ;
        },
    };
    let k = k.as_str();
    if text_eq(k, "name") || text_eq(k, "issuer") {
        match value.as_str() {
            Some(s) => {
                t.name = s.clone();
            },
            None => {
                push_message(t, MSG_NAME.to_owned());
            },
        }
    } else if text_eq(k, "group") {
        match value.as_str() {
            Some(s) => {
                t.group = s.clone();
            },
            None => {
                push_message(t, MSG_GROUP.to_owned());
            },
        }
    } else if text_eq(k, "test") || text_eq(k, "keywords") {
        match value.as_str() {
            Some(s) => {
                let ghost before = t.test.deep_view();
                t.test.push(s.clone());
                assert(t.test.deep_view() =~= before.push(s@));
            },
            None => match value.as_vec() {
                Some(items) => {
                    push_texts(t, items);
                },
                None => {
                    push_message(t, MSG_TEST.to_owned());
                },
            },
        }
    } else if text_eq(k, "options") {
        match value.as_hash() {
            Some(es) => {
                assert(yaml_str(*key) == Some("options"@));
                assert(yaml_hash(*value) == Some(es@));
                load_options(t, es);
            },
            None => {
                push_message(t, MSG_OPTIONS.to_owned());
            },
        }
    } else if text_eq(k, "fields") {
        match value.as_hash() {
            Some(es) => {
                load_fields(t, es);
            },
            None => {
                push_message(t, MSG_FIELDS.to_owned());
            },
        }
    } else {
        push_message(t, wrong_key(k));
    }
}

fn load_document(t: &mut ParseTemplate, doc: &YamlValue)
    requires
        doc_ok(*doc),
    ensures
        final(t).id == old(t).id,
        final(t)@ == load_doc(old(t)@, *doc),
{
    match doc.as_hash() {
        Some(es) => {
            let ghost start = t@;
    let ghost id0 = t.id;
            let mut k: usize = 0;
            while k < es.len()
                invariant
                    t.id == id0,
                    k <= es@.len(),
                    yaml_hash(*doc) == Some(es@),
                    doc_ok(*doc),
                    t@ == load_entries(start, es@, k as int),
                decreases es@.len() - k,
            {
                assert(top_entry_ok(es@[k as int]));
                load_top_entry(t, &es[k]);
                k = k + 1;
            }
        },
        None => {
            push_message(t, MSG_NO_HASH.to_owned());
        },
    }
}

/// Checks `docs_loadable`.
pub fn yaml_docs_loadable(docs: &Vec<YamlValue>) -> (r: bool)
    ensures
        r == docs_loadable(docs@),
{
    let mut i: usize = 0;
    while i < docs.len()
        invariant
            i <= docs@.len(),
            forall|j: int| 0 <= j < i ==> doc_ok(#[trigger] docs@[j]),
        decreases docs@.len() - i,
    {
        if !doc_loadable(&docs[i]) {
            return false;
        }
        i = i + 1;
    }
    true
}

#[verifier::loop_isolation(false)]
fn doc_loadable(doc: &YamlValue) -> (r: bool)
    ensures
        r == doc_ok(*doc),
{
    match doc.as_hash() {
        Some(es) => {
            let mut j: usize = 0;
            while j < es.len()
                invariant
                    j <= es@.len(),
                    forall|m: int| 0 <= m < j ==> top_entry_ok(#[trigger] es@[m]),
                decreases es@.len() - j,
            {
                if !top_entry_loadable(&es[j]) {
                    assert(!top_entry_ok(es@[j as int]));
                    assert(yaml_hash(*doc)->Some_0 == es@);
                    return false;
                }
                j = j + 1;
            }
            true
        },
        None => true,
    }
}

#[verifier::loop_isolation(false)]
fn top_entry_loadable(e: &(YamlValue, YamlValue)) -> (r: bool)
    ensures
        r == top_entry_ok(*e),
{
    let k = &e.0;
    let v = &e.1;
    let is_options = match k.as_str() {
        Some(s) => text_eq(s.as_str(), "options"),
        None => false,
    };
    if !is_options {
        return true;
    }
    match v.as_hash() {
        Some(es) => {
            let mut j: usize = 0;
            while j < es.len()
                invariant
                    j <= es@.len(),
                    forall|m: int| 0 <= m < j ==> option_entry_ok(#[trigger] es@[m]),
                decreases es@.len() - j,
            {
                if !option_entry_loadable(&es[j]) {
                    assert(!option_entry_ok(es@[j as int]));
                    assert(yaml_hash(*v)->Some_0 == es@);
                    return false;
                }
                j = j + 1;
            }
            true
        },
        None => true,
    }
}

#[verifier::loop_isolation(false)]
fn option_entry_loadable(e: &(YamlValue, YamlValue)) -> (r: bool)
    ensures
        r == option_entry_ok(*e),
{
    let k = &e.0;
    let v = &e.1;
    let is_replace = match k.as_str() {
        Some(s) => text_eq(s.as_str(), "replace"),
        None => false,
    };
    if !is_replace {
        return true;
    }
    match v.as_vec() {
        Some(items) => {
            let mut j: usize = 0;
            while j < items.len()
                invariant
                    j <= items@.len(),
                    forall|m: int| 0 <= m < j ==> replace_item_ok(#[trigger] items@[m]),
                decreases items@.len() - j,
            {
                let ok = match items[j].as_vec() {
                    Some(pair) => pair.len() <= 1 || (pair[0].as_str().is_some()
                        && pair[1].as_str().is_some()),
                    None => true,
                };
                if !ok {
                    assert(!replace_item_ok(items@[j as int]));
                    assert(yaml_vec(*v)->Some_0 == items@);
                    return false;
                }
                j = j + 1;
            }
            true
        },
        None => true,
    }
}

impl ParseTemplate {
    /// Loads a template from YAML documents, with the options of `langu` as
    /// the starting point; see `loaded_template` for what each key does.
    pub fn load_from_yaml(docs: Vec<YamlValue>, langu: &str) -> (r: Self)
        requires
            docs_loadable(docs@),
        ensures
            is_uuid_text(r.id@),
            r@ == loaded_template(r.id@, docs@, langu@),
    {
        let mut l_self = ParseTemplate {
            id: new_uuid(),
            name: String::new(),
            group: String::new(),
            test: Vec::new(),
            options: ParseOption::new_by_lang(langu),
            fields: Vec::new(),
            protocol: Vec::new(),
            data: TextMap::new(),
            reg_ex: TextListMap::new(),
            parse_protocol: TextListMap::new(),
        };
        let ghost id = l_self.id@;
        assert(l_self.test.deep_view() =~= Seq::<Seq<char>>::empty());
        assert(l_self.protocol.deep_view() =~= Seq::<Seq<char>>::empty());
        assert(fields_view(l_self.fields@) =~= Seq::<FieldModel>::empty());
        push_message(&mut l_self, MSG_START.to_owned());
        let ghost start = l_self@;
        assert(start == initial_template(id, langu@));
        let mut i: usize = 0;
        while i < docs.len()
            invariant
                i <= docs@.len(),
                docs_loadable(docs@),
                l_self.id@ == id,
                l_self@ == load_docs(initial_template(id, langu@), docs@, i as int),
            decreases docs@.len() - i,
        {
            assert(doc_ok(docs@[i as int]));
            load_document(&mut l_self, &docs[i]);
            i = i + 1;
        }
        push_message(&mut l_self, MSG_STOP.to_owned());
        l_self
    }
}

/// Reads a template from the text of a YAML file, with the options of
/// `langu` as the starting point: `None` where the text is not YAML or a
/// `replace` item is not a pair of texts; else the template
/// `load_from_yaml` loads from its documents.
pub fn template_from_yaml_text(yaml_text: &str, langu: &str) -> (r: Option<ParseTemplate>)
    ensures
        r is Some <==> (yaml_documents(yaml_text@) matches Some(d) && docs_loadable(d)),
        r matches Some(t) ==> (yaml_documents(yaml_text@) matches Some(d) && is_uuid_text(t.id@)
            && t@ == loaded_template(t.id@, d, langu@)),
{
    match load_yaml_text(yaml_text) {
        None => None,
        Some(docs) => {
            if yaml_docs_loadable(&docs) {
                Some(ParseTemplate::load_from_yaml(docs, langu))
            } else {
                None
            }
        },
    }
}

} // verus!
