use archive_cat::dict::{TextListMap, TextMap};
use archive_cat::template::{ParseField, ParseOption, ParseTemplate};
use archive_cat::yaml::YamlValue;

fn s(x: &str) -> String {
    x.to_string()
}

fn field(name: &str, regex: &str, modifiers: &str) -> ParseField {
    ParseField { name: s(name), data: s(""), modifiers: s(modifiers), regex: s(regex), format: s("") }
}

fn template(tests: Vec<&str>, options: ParseOption, fields: Vec<ParseField>) -> ParseTemplate {
    ParseTemplate {
        id: s("t1"),
        name: s("test"),
        group: s(""),
        test: tests.into_iter().map(s).collect(),
        options,
        fields,
        protocol: Vec::new(),
        data: TextMap::new(),
        reg_ex: TextListMap::new(),
        parse_protocol: TextListMap::new(),
    }
}

fn ystr(x: &str) -> YamlValue {
    YamlValue::Str(s(x))
}

fn is_uuid(id: &str) -> bool {
    let b = id.as_bytes();
    b.len() == 36
        && b.iter().enumerate().all(|(i, c)| {
            if i == 8 || i == 13 || i == 18 || i == 23 {
                *c == b'-'
            } else {
                c.is_ascii_digit() || (b'a'..=b'f').contains(c)
            }
        })
        && b[14] == b'4'
        && matches!(b[19], b'8' | b'9' | b'a' | b'b')
}

#[test]
fn options_by_language() {
    let de = ParseOption::new_by_lang("de-DE");
    assert_eq!(de.langu, "de-DE");
    assert_eq!(de.decimal_separator, ",");
    assert_eq!(de.thousand_separator, ".");
    assert_eq!(de.group_separator, ",");
    assert_eq!(de.date_formats, "dd.MM.yyyy");
    assert_eq!(de.modifiers, "g");
    assert_eq!(de.currency, "EUR");
    assert!(!de.remove_accents);
    assert!(de.replace.is_empty() && de.required_fields.is_empty());

    let en = ParseOption::new_by_lang("en-US");
    assert_eq!(en.langu, "en-UK");
    assert_eq!(en.decimal_separator, ".");
    assert_eq!(en.thousand_separator, ",");

    let other = ParseOption::new_by_lang("");
    assert_eq!(other.langu, "en-UK");
    assert_eq!(ParseOption::new_by_lang("deutsch").langu, "de-DE");
}

#[test]
fn options_keep_given_values() {
    let given = ParseOption {
        langu: s(""),
        date_formats: s("%d.%m.%Y"),
        replace: vec![(s("a"), s("b"))],
        required_fields: vec![s("x")],
        decimal_separator: s(""),
        thousand_separator: s("'"),
        group_separator: s(""),
        remove_accents: true,
        modifiers: s(""),
        currency: s("CHF"),
    };
    let o = ParseOption::new(given);
    assert_eq!(o.langu, "en-UK");
    assert_eq!(o.date_formats, "%d.%m.%Y");
    assert_eq!(o.replace, vec![(s("a"), s("b"))]);
    assert!(o.required_fields.is_empty());
    assert_eq!(o.decimal_separator, ".");
    assert_eq!(o.thousand_separator, "'");
    assert_eq!(o.group_separator, ",");
    assert!(o.remove_accents);
    assert_eq!(o.modifiers, "g");
    assert_eq!(o.currency, "EUR");
}

#[test]
fn field_keeps_only_known_flags() {
    let f = ParseField::new(field("amount", "([0-9]+)", "ixgmz"));
    assert_eq!(f.name, "amount");
    assert_eq!(f.modifiers, "igm");
    assert_eq!(f.regex, "([0-9]+)");
    assert_eq!(f.data, "([0-9]+)");

    let g = ParseField::new(ParseField { name: s("n"), data: s("d"), modifiers: s(""), regex: s("r"), format: s("f") });
    assert_eq!(g.data, "d");
    assert_eq!(g.format, "f");
    assert_eq!(g.modifiers, "");
}

#[test]
fn template_gets_an_identifier() {
    let mut t = template(vec![], ParseOption::new_by_lang("de"), vec![]);
    t.id = s("");
    let t = ParseTemplate::new(t);
    assert!(is_uuid(&t.id));
    let kept = ParseTemplate::new(template(vec![], ParseOption::new_by_lang("de"), vec![]));
    assert_eq!(kept.id, "t1");
    assert_eq!(kept.name, "test");
}

#[test]
fn error_detection_and_clearing() {
    let mut t = template(vec![], ParseOption::new_by_lang("de"), vec![]);
    assert!(!t.error_occurred());
    t.protocol = vec![s("start yaml loading"), s("no error here")];
    assert!(!t.error_occurred());
    t.protocol.push(s("* error - wrong key 'x'"));
    assert!(t.error_occurred());
    t.protocol = vec![s("Error - text is empty")];
    assert!(t.error_occurred());
    t.clear_protocol();
    assert!(t.protocol.is_empty());
    assert!(!t.error_occurred());
    assert_eq!(t.id, "t1");
}

#[test]
fn template_without_tests_matches_nothing() {
    let t = template(vec![], ParseOption::new_by_lang("de"), vec![]);
    assert!(!t.perform_test(&s("anything at all")));
}

#[test]
fn all_tests_must_match() {
    let t = template(vec!["Rechnung", "Betrag"], ParseOption::new_by_lang("de"), vec![]);
    assert!(t.perform_test(&s("Ihre Rechnung, Betrag 12,00")));
    assert!(!t.perform_test(&s("Ihre Rechnung")));
    assert!(!t.perform_test(&s("")));
}

#[test]
fn test_flags_in_suffix() {
    let ci = template(vec!["rechnung/i"], ParseOption::new_by_lang("de"), vec![]);
    assert!(ci.perform_test(&s("RECHNUNG Nr. 5")));
    let cs = template(vec!["rechnung"], ParseOption::new_by_lang("de"), vec![]);
    assert!(!cs.perform_test(&s("RECHNUNG Nr. 5")));
    let spaces = template(vec!["Rech nung/x"], ParseOption::new_by_lang("de"), vec![]);
    assert!(spaces.perform_test(&s("R e c h n u n g")));
}

#[test]
fn broken_test_expressions_are_skipped() {
    let only_broken = template(vec!["("], ParseOption::new_by_lang("de"), vec![]);
    assert!(!only_broken.perform_test(&s("(")));
    let mixed = template(vec!["(", "Rechnung"], ParseOption::new_by_lang("de"), vec![]);
    assert!(mixed.perform_test(&s("Rechnung")));
}

fn sample_docs() -> Vec<YamlValue> {
    let options = YamlValue::Hash(vec![
        (ystr("decimal_separator"), ystr(",")),
        (ystr("thousand_separator"), ystr(".")),
        (ystr("date_formats"), YamlValue::Array(vec![ystr("yyyy"), ystr("dd.MM.yyyy")])),
        (ystr("lowercase"), YamlValue::Boolean(true)),
        (ystr("replace"), YamlValue::Array(vec![YamlValue::Array(vec![ystr("EUR"), ystr("Euro")])])),
        (ystr("required_fields"), YamlValue::Array(vec![ystr("amount_float")])),
    ]);
    let fields = YamlValue::Hash(vec![
        (ystr("amount_float"), ystr("Betrag: ([0-9.,]+)")),
        (ystr("static_currency"), ystr("EUR")),
        (
            ystr("invoice_date"),
            YamlValue::Hash(vec![(ystr("regex"), ystr("Datum: ([0-9.]+)")), (ystr("modifiers"), ystr("g"))]),
        ),
    ]);
    vec![YamlValue::Hash(vec![
        (ystr("name"), ystr("ACME")),
        (ystr("group"), ystr("invoice")),
        (ystr("keywords"), YamlValue::Array(vec![ystr("Rechnung"), YamlValue::Integer(3)])),
        (ystr("options"), options),
        (ystr("fields"), fields),
    ])]
}

#[test]
fn loading_a_template() {
    let docs = sample_docs();
    assert!(archive_cat::loader::yaml_docs_loadable(&docs));
    let t = ParseTemplate::load_from_yaml(docs, "de-DE");
    assert!(is_uuid(&t.id));
    assert_eq!(t.name, "ACME");
    assert_eq!(t.group, "invoice");
    assert_eq!(t.test, vec![s("Rechnung")]);
    assert_eq!(t.options.langu, "de-DE");
    assert_eq!(t.options.decimal_separator, ",");
    assert_eq!(t.options.date_formats, "dd.MM.yyyy");
    assert_eq!(t.options.modifiers, "gi");
    assert_eq!(t.options.replace, vec![(s("EUR"), s("Euro"))]);
    assert_eq!(t.options.required_fields, vec![s("amount_float")]);
    assert_eq!(t.fields.len(), 3);
    assert_eq!(t.fields[0].name, "amount_float");
    assert_eq!(t.fields[0].regex, "Betrag: ([0-9.,]+)");
    assert_eq!(t.fields[1].name, "static_currency");
    assert_eq!(t.fields[2].name, "invoice_date");
    assert_eq!(t.fields[2].regex, "Datum: ([0-9.]+)");
    assert_eq!(t.fields[2].modifiers, "g");
    assert_eq!(t.protocol, vec![s("start yaml loading"), s("stop yaml loading")]);
    assert!(!t.error_occurred());
}

#[test]
fn loading_reports_wrong_input() {
    let docs = vec![
        ystr("just text"),
        YamlValue::Hash(vec![
            (ystr("colour"), ystr("red")),
            (ystr("name"), YamlValue::Integer(1)),
            (YamlValue::Integer(5), ystr("ignored")),
            (ystr("options"), YamlValue::Hash(vec![(ystr("size"), ystr("x")), (ystr("remove_accents"), ystr("yes"))])),
        ]),
    ];
    assert!(archive_cat::loader::yaml_docs_loadable(&docs));
    let t = ParseTemplate::load_from_yaml(docs, "en");
    assert_eq!(
        t.protocol,
        vec![
            s("start yaml loading"),
            s("* error - no hash tag found"),
            s("* error - wrong key 'colour'"),
            s("* error - wrong type for tag 'name' - we need string"),
            s("* error - wrong key 'size'"),
            s("* error - wrong type for tag 'remove_accents' - we need boolean"),
            s("stop yaml loading"),
        ]
    );
    assert!(t.error_occurred());
    assert_eq!(t.options.langu, "en-UK");
}

#[test]
fn replace_items_that_would_panic_are_refused() {
    let docs = vec![YamlValue::Hash(vec![(
        ystr("options"),
        YamlValue::Hash(vec![(ystr("replace"), YamlValue::Array(vec![YamlValue::Array(vec![YamlValue::Integer(1), ystr("b")])]))]),
    )])];
    assert!(!archive_cat::loader::yaml_docs_loadable(&docs));
}

#[test]
fn parsing_extracts_fields() {
    let docs = sample_docs();
    let mut t = ParseTemplate::load_from_yaml(docs, "de-DE");
    let text = s("Rechnung\nBetrag: 1.234,56 EUR\nDatum: 01.02.2023 Datum: 03.04.2024");
    assert!(t.perform_test(&text));
    assert!(t.parse_data_checked(&text));
    assert_eq!(t.data.get("amount_float"), Some(s("1234.56")));
    assert_eq!(t.data.get("currency"), Some(s("EUR")));
    assert_eq!(t.data.get("invoice_date"), Some(s("2023-02-01, 2024-04-03")));
    assert_eq!(t.reg_ex.get("amount_float"), Some(vec![s("1.234,56")]));
    assert_eq!(t.reg_ex.get("invoice_date"), Some(vec![s("01.02.2023"), s("03.04.2024")]));
    assert_eq!(t.reg_ex.get("currency"), None);
    assert!(!t.error_occurred());
}

#[test]
fn dates_are_reformatted() {
    let options = ParseOption::new_by_lang("de");
    let mut t = template(vec![], options, vec![field("due_date", "am ([0-9.]+)", "")]);
    t.parse_data(&s("zahlbar am 01.02.2023 oder am 05.06.2023"));
    assert_eq!(t.data.get("due_date"), Some(s("2023-02-01, 2023-06-05")));
    assert_eq!(t.reg_ex.get("due_date"), Some(vec![s("01.02.2023"), s("05.06.2023")]));
}

#[test]
fn whole_match_without_groups_and_joined_groups() {
    let mut t = template(
        vec![],
        ParseOption::new_by_lang("en"),
        vec![field("word", "[A-Z][a-z]+", "g"), field("pair", "([a-z]+)=([0-9]+)", "")],
    );
    t.parse_data(&s("Hello World a=1 b=2"));
    assert_eq!(t.data.get("word"), Some(s("Hello, World")));
    assert_eq!(t.data.get("pair"), Some(s("a,1, b,2")));
}

#[test]
fn substitutions_and_accents_apply_first() {
    let mut options = ParseOption::new_by_lang("en");
    options.replace = vec![(s("Sum"), s("Total")), (s(""), s("x"))];
    options.remove_accents = true;
    let mut t = template(vec![], options, vec![field("total", "Total ([a-z]+)", "")]);
    t.parse_data(&s("Sum café"));
    assert_eq!(t.data.get("total"), Some(s("cafe")));
}

#[test]
fn ignore_space_flag_reads_text_without_spaces() {
    let mut t = template(vec![], ParseOption::new_by_lang("en"), vec![field("code", "AB([0-9]+)", "x")]);
    t.parse_data(&s("A B 1 2 3"));
    assert_eq!(t.data.get("code"), Some(s("123")));
}

#[test]
fn empty_text_is_an_error() {
    let mut t = template(vec![], ParseOption::new_by_lang("de"), vec![field("x", "(", "")]);
    t.parse_data(&s(""));
    assert_eq!(t.protocol, vec![s("error - text is empty")]);
    assert!(t.error_occurred());
}

#[test]
fn empty_field_name_is_reported() {
    let mut t = template(vec![], ParseOption::new_by_lang("de"), vec![field("static_", "x", ""), field("a", "(b)", "")]);
    t.parse_data(&s("abc"));
    assert_eq!(t.protocol, vec![s("error - field name is empty")]);
    assert_eq!(t.data.get("a"), Some(s("b")));
}

#[test]
fn broken_field_expression_is_refused() {
    let mut t = template(vec![], ParseOption::new_by_lang("de"), vec![field("a", "(", "")]);
    assert!(!t.parse_data_checked(&s("abc")));
    assert!(t.protocol.is_empty());
    assert_eq!(t.data.get("a"), None);
    assert!(t.parse_data_checked(&s("")));
    assert_eq!(t.protocol, vec![s("error - text is empty")]);
}

#[test]
fn unmatched_field_stays_empty() {
    let mut t = template(vec![], ParseOption::new_by_lang("de"), vec![field("a", "(zzz)", "")]);
    t.parse_data(&s("abc"));
    assert_eq!(t.data.get("a"), Some(s("")));
    assert_eq!(t.reg_ex.get("a"), Some(vec![]));
}

#[test]
fn every_non_mapping_document_is_reported() {
    let docs = vec![ystr("a"), YamlValue::Integer(2), YamlValue::Array(vec![]), YamlValue::Null];
    let t = ParseTemplate::load_from_yaml(docs, "de");
    assert_eq!(t.protocol.len(), 6);
    assert_eq!(t.protocol[0], "start yaml loading");
    for m in &t.protocol[1..5] {
        assert_eq!(m, "* error - no hash tag found");
    }
    assert_eq!(t.protocol[5], "stop yaml loading");
}

#[test]
fn parsing_keeps_the_template() {
    let mut t = ParseTemplate::load_from_yaml(sample_docs(), "de-DE");
    t.protocol.push(s("earlier message"));
    let before_protocol = t.protocol.clone();
    let (id, name, group, test) = (t.id.clone(), t.name.clone(), t.group.clone(), t.test.clone());
    let fields: Vec<(String, String, String)> =
        t.fields.iter().map(|f| (f.name.clone(), f.regex.clone(), f.modifiers.clone())).collect();
    t.parse_data(&s("Betrag: 5,00"));
    t.parse_data(&s(""));
    assert_eq!((t.id.clone(), t.name.clone(), t.group.clone(), t.test.clone()), (id, name, group, test));
    let after: Vec<(String, String, String)> =
        t.fields.iter().map(|f| (f.name.clone(), f.regex.clone(), f.modifiers.clone())).collect();
    assert_eq!(after, fields);
    assert_eq!(&t.protocol[..before_protocol.len()], &before_protocol[..]);
    assert_eq!(t.protocol.last().map(|x| x.as_str()), Some("error - text is empty"));
    assert_eq!(t.data.get("amount_float"), Some(s("5.00")));
    assert_eq!(t.data.get("invoice_date"), Some(s("")));
}

#[test]
fn reported_errors_stay_reported() {
    let docs = vec![YamlValue::Hash(vec![(ystr("name"), ystr("A"))]), ystr("not a mapping")];
    let mut t = ParseTemplate::load_from_yaml(docs, "de");
    assert!(t.protocol.contains(&s("* error - no hash tag found")));
    assert!(t.error_occurred());
    t.parse_data(&s("some text"));
    assert!(t.error_occurred());
}

#[test]
fn global_flag_in_the_options_applies_to_every_field() {
    let mut t = template(vec![], ParseOption::new_by_lang("en"), vec![field("total", "T ([0-9]+)", "")]);
    t.parse_data(&s("T 1 T 22"));
    assert_eq!(t.data.get("total"), Some(s("1, 22")));
    assert_eq!(t.reg_ex.get("total"), Some(vec![s("1"), s("22")]));
    let mut options = ParseOption::new_by_lang("en");
    options.modifiers = s("i");
    let mut first_only = template(vec![], options, vec![field("total", "t ([0-9]+)", "")]);
    first_only.parse_data(&s("T 1 T 22"));
    assert_eq!(first_only.data.get("total"), Some(s("1")));
}

#[test]
fn date_fns_patterns_are_read() {
    let mut t = template(
        vec![],
        ParseOption::new_by_lang("de-DE"),
        vec![field("due_date", "([0-9]{2}[.][0-9]{2}[.][0-9]{4})", "")],
    );
    t.parse_data(&s("due 05.03.2024"));
    assert_eq!(t.reg_ex.get("due_date"), Some(vec![s("05.03.2024")]));
    assert_eq!(t.data.get("due_date"), Some(s("2024-03-05")));
    let mut options = ParseOption::new_by_lang("en");
    options.date_formats = s("yyyy/M/d");
    let mut u = template(vec![], options, vec![field("x_date", "([0-9/]+)", "")]);
    u.parse_data(&s("2024/3/5"));
    assert_eq!(u.data.get("x_date"), Some(s("2024-03-05")));
}

#[test]
fn group_separator_links_the_groups() {
    let mut options = ParseOption::new_by_lang("en");
    options.group_separator = s(" / ");
    let mut t = template(vec![], options, vec![field("pair", "([a-z]+)=([0-9]+)", "")]);
    t.parse_data(&s("a=1"));
    assert_eq!(t.data.get("pair"), Some(s("a / 1")));
}

#[test]
fn template_from_yaml_text_loads_or_refuses() {
    let yaml = "name: ACME\nkeywords:\n  - Rechnung\nfields:\n  total_float: \"Summe ([0-9.,]+)\"\n";
    let t = match archive_cat::loader::template_from_yaml_text(yaml, "de-DE") {
        Some(t) => t,
        None => panic!("expected a template"),
    };
    assert!(is_uuid(&t.id));
    assert_eq!(t.name, "ACME");
    assert_eq!(t.test, vec![s("Rechnung")]);
    assert_eq!(t.fields.len(), 1);
    assert_eq!(t.protocol, vec![s("start yaml loading"), s("stop yaml loading")]);
    assert!(archive_cat::loader::template_from_yaml_text("a: [1, 2", "de").is_none());
    assert!(archive_cat::loader::template_from_yaml_text("options:\n  replace:\n    - [1, b]\n", "de").is_none());
    let empty = archive_cat::loader::template_from_yaml_text("", "en").unwrap();
    assert_eq!(empty.protocol, vec![s("start yaml loading"), s("stop yaml loading")]);
    assert_eq!(empty.options.langu, "en-UK");
}

#[test]
fn loading_reports_only_errors_between_start_and_stop() {
    let t = ParseTemplate::load_from_yaml(
        vec![ystr("x"), YamlValue::Hash(vec![(ystr("foo"), ystr("y")), (ystr("group"), YamlValue::Null)])],
        "de",
    );
    let n = t.protocol.len();
    assert_eq!(n, 5);
    for m in &t.protocol[1..n - 1] {
        assert!(m.starts_with("* error - "));
    }
}

#[test]
fn parsing_adds_exactly_the_named_slots() {
    let mut t = template(
        vec![],
        ParseOption::new_by_lang("en"),
        vec![field("static_", "x", ""), field("static_kind", "invoice", ""), field("n", "([0-9]+)", ""), field("", "y", "")],
    );
    t.data.insert(s("old"), s("v"));
    t.parse_data(&s("no 7"));
    assert_eq!(t.protocol, vec![s("error - field name is empty"), s("error - field name is empty")]);
    let mut keys: Vec<String> = t.data.entries().iter().map(|e| e.0.clone()).collect();
    keys.sort();
    assert_eq!(keys, vec![s("kind"), s("n"), s("old")]);
    let rkeys: Vec<String> = t.reg_ex.entries().iter().map(|e| e.0.clone()).collect();
    assert_eq!(rkeys, vec![s("n")]);
}
