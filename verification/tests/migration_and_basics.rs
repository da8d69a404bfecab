use archive_cat::dict::{TextListMap, TextMap};
use archive_cat::migrate::{
    category_array, conv_obj_to_array, get_deleted_at, migrated_files, partners_of, Attachment, Email,
};
use archive_cat::schema::{info_response, table_statements};
use archive_cat::text::{contains, decimal_text, ends_with, replace_text, starts_with, text_eq};

fn s(x: &str) -> String {
    x.to_string()
}

fn attachment(id: i32, filename: &str, jpg: Option<&str>) -> Attachment {
    Attachment {
        id,
        filename: Some(s(filename)),
        file: Some(format!("{}.pdf", id)),
        ocr_data: None,
        jpg_file: jpg.map(s),
        record_refer: s("r1"),
    }
}

fn email(name: Option<&str>, address: Option<&str>) -> Email {
    Email { id: 1, name: name.map(s), email_partner: address.map(s), id_partner: None, record_refer: s("r1") }
}

#[test]
fn deletion_dates() {
    assert_eq!(get_deleted_at(None), None);
    assert_eq!(get_deleted_at(Some(s("0001-01-01 00:00:00"))), None);
    assert_eq!(get_deleted_at(Some(s("2023-05-01 10:00:00"))), Some(s("2023-05-01 10:00:00")));
    assert_eq!(get_deleted_at(Some(s(""))), Some(s("")));
}

#[test]
fn object_lists_become_arrays() {
    assert_eq!(conv_obj_to_array(s("{\"a\",\"b\"}")), "[\"a\",\"b\"]");
    assert_eq!(conv_obj_to_array(s("plain")), "plain");
    assert_eq!(conv_obj_to_array(s("")), "");
    assert_eq!(category_array(None), "[]");
    assert_eq!(category_array(Some(s("{x}"))), "[x]");
}

#[test]
fn sender_and_recipient() {
    let (from, to) = partners_of(&vec![email(Some("Anna"), Some("a@x.de")), email(None, Some("b@y.de")), email(Some("C"), None)]);
    assert_eq!((from.name.as_str(), from.email.as_str()), ("Anna", "a@x.de"));
    assert_eq!((to.name.as_str(), to.email.as_str()), ("", "b@y.de"));
    let (from, to) = partners_of(&vec![]);
    assert_eq!((from.name.as_str(), from.email.as_str(), to.name.as_str(), to.email.as_str()), ("", "", "", ""));
}

#[test]
fn record_without_files_becomes_one_document() {
    let docs = migrated_files(&s("r1"), &vec![]);
    assert_eq!(docs.len(), 1);
    assert_eq!(docs[0].id, "r1");
    assert_eq!(docs[0].parent_document, None);
    assert_eq!(docs[0].filename, None);
    assert_eq!(docs[0].file, None);
    assert_eq!(docs[0].jpg_file, "[]");
}

#[test]
fn record_files_are_taken_from_the_last_one() {
    let atts = vec![attachment(1, "first.pdf", Some("{p1}")), attachment(2, "second.pdf", None), attachment(3, "third.pdf", Some("{p3,p4}"))];
    let docs = migrated_files(&s("r1"), &atts);
    assert_eq!(docs.len(), 2);
    let ids: Vec<&str> = docs.iter().map(|d| d.id.as_str()).collect();
    assert_eq!(ids, vec!["r1", "r12"]);
    assert_eq!(docs[0].parent_document, None);
    assert_eq!(docs[1].parent_document, Some(s("r1")));
    assert_eq!(docs[0].filename, Some(s("third.pdf")));
    assert_eq!(docs[0].file, Some(s("3.pdf")));
    assert_eq!(docs[0].jpg_file, "[p3,p4]");
    assert_eq!(docs[1].filename, Some(s("second.pdf")));
    assert_eq!(docs[1].jpg_file, "[]");
}

#[test]
fn half_of_the_files_rounded_up_become_documents() {
    for (k, expected) in [(1, 1), (2, 1), (3, 2), (4, 2), (5, 3)] {
        let atts: Vec<Attachment> = (0..k).map(|i| attachment(i, "f.pdf", None)).collect();
        assert_eq!(migrated_files(&s("r"), &atts).len(), expected);
    }
}

#[test]
fn migrated_ids_stay_distinct() {
    let atts: Vec<Attachment> = (0..24).map(|i| attachment(i, "f.pdf", None)).collect();
    let docs = migrated_files(&s("r"), &atts);
    let mut ids: Vec<String> = docs.iter().map(|d| d.id.clone()).collect();
    assert_eq!(ids.len(), 12);
    assert_eq!(ids[11], "r12");
    ids.sort();
    ids.dedup();
    assert_eq!(ids.len(), 12);
}

#[test]
fn database_setup_statements() {
    let st = table_statements();
    assert_eq!(st.len(), 3);
    assert!(st[0].starts_with("CREATE TABLE IF NOT EXISTS `document` ("));
    assert!(st[1].starts_with("CREATE TABLE IF NOT EXISTS `ftp_data` ("));
    assert!(st[2].starts_with("CREATE TABLE IF NOT EXISTS `mail_data` ("));
    assert!(st.iter().all(|x| x.ends_with(";")));
}

#[test]
fn info_messages() {
    let r = info_response(s("Loop ends."));
    assert_eq!(r.dataname, "info");
    assert_eq!(r.data, "Loop ends.");
    assert_eq!(r.error, "");
}

#[test]
fn text_helpers() {
    assert!(contains("Rechnung Nr. 5", "Nr."));
    assert!(contains("abc", ""));
    assert!(!contains("abc", "abcd"));
    assert!(starts_with("de-DE", "de"));
    assert!(!starts_with("d", "de"));
    assert!(ends_with("file.pdf", ".pdf"));
    assert!(text_eq("a", "a") && !text_eq("a", "A"));
    assert_eq!(replace_text("a-b-c", "-", "+"), "a+b+c");
    assert_eq!(replace_text("aaa", "aa", "b"), "ba");
    assert_eq!(replace_text("abc", "", "z"), "abc");
    assert_eq!(decimal_text(0), "0");
    assert_eq!(decimal_text(1234), "1234");
    assert_eq!(decimal_text(u64::MAX), "18446744073709551615");
    assert_eq!(archive_cat::text::concat_text("ab", "cd"), "abcd");
}

#[test]
fn text_maps() {
    let mut m = TextMap::new();
    assert_eq!(m.get("a"), None);
    m.insert(s("a"), s("1"));
    m.insert(s("b"), s("2"));
    m.insert(s("a"), s("3"));
    assert_eq!(m.get("a"), Some(s("3")));
    assert_eq!(m.get("b"), Some(s("2")));

    let mut l = TextListMap::new();
    l.insert(s("k"), vec![]);
    l.push(&s("k"), s("x"));
    l.push(&s("k"), s("y"));
    assert_eq!(l.get("k"), Some(vec![s("x"), s("y")]));
    l.insert(s("k"), vec![s("z")]);
    assert_eq!(l.get("k"), Some(vec![s("z")]));
    assert_eq!(l.get("other"), None);
}
