use archive_cat::files::{
    scan_document, scan_documents,
    database_url, document_dir_path, document_file_path, extension_of, json_file_path, owner_pattern,
    pdf_payload, pdf_request_complete, plan_upload, renamed_scan_path, scan_entry_selected, sorted_paths, scan_pattern,
    scan_regex, stored_file_name,
};
use archive_cat::mail::{
    attachment_entry, attachment_file_name, mail_parts, MailPart,
    mail_documents, owner_of, processed_attachment, processed_text, redirect_reply, ut8_str, vec_str,
    Attachment, GmailOAuth2, MailAddress,
};
use archive_cat::query::{colon_split, document_query, first_two_words, parse_i64, FilterField, SortField};
use archive_cat::status::{
    clear_step, ocr_failed_step, ocr_pages_step, ocr_render_failed_step, ocr_start_step, parse_step,
    status_run, OcrOutcome, StatusRecord,
    body_after_ocr, gs_command, jpeg_page_selected, ocr_source, status_after_run, status_stages, tesseract_command, OcrSource,
};

fn s(x: &str) -> String {
    x.to_string()
}

fn is_uuid(id: &str) -> bool {
    let b = id.as_bytes();
    b.len() == 36
        && b.iter().enumerate().all(|(i, c)| {
            if i == 8 || i == 13 || i == 18 || i == 23 {
                *c == b'-'
            } else {
                c.is_ascii_digit() || (b'a'..=b'f').contains(c)
            }
        })
        && b[14] == b'4'
        && matches!(b[19], b'8' | b'9' | b'a' | b'b')
}

// ---------------------------------------------------------------- mail

#[test]
fn xoauth2_login_text() {
    let auth = GmailOAuth2 { user: s("jan@example.com"), access_token: s("tok") };
    assert_eq!(auth.process(b"challenge"), "user=jan@example.com\x01auth=Bearer tok\x01\x01");
}

#[test]
fn utf8_bytes_or_empty() {
    assert_eq!(ut8_str("Grüße".as_bytes()), "Grüße");
    assert_eq!(ut8_str(&[0xff, 0x41]), "");
    assert_eq!(ut8_str(&[]), "");
}

fn addr(name: Option<&str>, mailbox: Option<&str>, host: Option<&str>) -> MailAddress {
    MailAddress {
        name: name.map(|x| x.as_bytes().to_vec()),
        mailbox: mailbox.map(|x| x.as_bytes().to_vec()),
        host: host.map(|x| x.as_bytes().to_vec()),
    }
}

#[test]
fn address_lists() {
    let one = vec![addr(Some("Jan"), Some("jan"), Some("x.de"))];
    assert_eq!(vec_str(&one), "[{\"name\":\"Jan\", \"email\": \"jan@x.de\"}]");
    let two = vec![addr(Some("A"), Some("a"), Some("h")), addr(Some("B"), Some("b"), Some("k"))];
    assert_eq!(
        vec_str(&two),
        "[{\"name\":\"A\", \"email\": \"a@h\"},{\"name\":\"B\", \"email\": \"b@k\"}]"
    );
    let cut = vec![addr(Some("A"), Some("a"), Some("h")), addr(None, Some("b"), Some("k")), addr(Some("C"), Some("c"), Some("m"))];
    assert_eq!(vec_str(&cut), "[{\"name\":\"A\", \"email\": \"a@h\"}]");
    assert_eq!(vec_str(&vec![]), "[]");
}

#[test]
fn text_parts_collect_the_body() {
    assert_eq!(processed_text(Some(s("Hallo ")), "text/plain", Some(s("Welt"))), Some(s("Hallo Welt")));
    assert_eq!(processed_text(None, "text/html", None), Some(s("")));
    assert_eq!(processed_text(Some(s("a")), "image/png", Some(s("b"))), Some(s("a")));
    assert_eq!(processed_text(None, "application/pdf", Some(s("b"))), None);
}

#[test]
fn attachment_headers() {
    let pdf = vec![s("text/plain"), s("attachment; filename=\"Rechnung.PDF\""), s("attachment; filename=b.txt")];
    match processed_attachment(&pdf) {
        Attachment::Pdf(n) => assert_eq!(n, "Rechnung.PDF"),
        _ => panic!("expected a PDF attachment"),
    }
    let other = vec![s("attachment; filename=\"notes.txt\"")];
    match processed_attachment(&other) {
        Attachment::Other(n) => assert_eq!(n, "notes.txt"),
        _ => panic!("expected another attachment"),
    }
    let twice = vec![s("attachment; filename=a.pdf; x filename=b")];
    match processed_attachment(&twice) {
        Attachment::Pdf(n) => assert_eq!(n, "a.pdf; x filename=b"),
        _ => panic!("expected a PDF attachment"),
    }
    let none = vec![s("inline; filename=a.pdf"), s("attachment;")];
    assert!(matches!(processed_attachment(&none), Attachment::NoAttachment));
}

#[test]
fn a_mail_without_attachments_is_one_document() {
    let docs = mail_documents(s("id0"), None, vec![]);
    assert_eq!(docs.len(), 1);
    assert_eq!(docs[0].id, "id0");
    assert!(docs[0].parent_document.is_none());
    assert!(docs[0].file.is_none() && docs[0].filename.is_none());
    assert!(docs[0].file_extension.is_none());
}

#[test]
fn further_attachments_become_child_documents() {
    let docs = mail_documents(
        s("id0"),
        None,
        vec![(Some(s("a.pdf")), Some(s("u1.pdf"))), (Some(s("b.pdf")), Some(s("u2.pdf")))],
    );
    assert_eq!(docs.len(), 2);
    assert_eq!(docs[0].id, "id0");
    assert_eq!(docs[0].file, Some(s("u1.pdf")));
    assert_eq!(docs[0].file_extension, Some(s("PDF")));
    assert!(is_uuid(&docs[1].id));
    assert_eq!(docs[1].parent_document, Some(s("id0")));
    assert_eq!(docs[1].filename, Some(s("b.pdf")));
    assert_eq!(docs[1].file_extension, Some(s("PDF")));
}

#[test]
fn owner_is_lower_case() {
    assert_eq!(owner_of("Jan.Doe@Example.COM"), "jan.doe@example.com");
}

#[test]
fn login_redirect() {
    match redirect_reply("GET /?state=abc&code=4%2F0Ab&scope=email HTTP/1.1") {
        Some(Ok(r)) => {
            assert_eq!(r.code, "4/0Ab");
            assert_eq!(r.state, "abc");
            assert_eq!(r.error, "");
        },
        _ => panic!("expected a reply"),
    }
    match redirect_reply("GET /?error=access_denied&code=1&code=2 HTTP/1.1") {
        Some(Ok(r)) => {
            assert_eq!(r.error, "access_denied");
            assert_eq!(r.code, "1");
        },
        _ => panic!("expected a reply"),
    }
    assert!(redirect_reply("GET").is_none());
    assert!(redirect_reply("").is_none());
    assert!(matches!(redirect_reply("GET :99999 HTTP/1.1"), Some(Err(_))));
}

// ---------------------------------------------------------------- files

#[test]
fn archive_paths() {
    assert_eq!(database_url("/home/u", "archive_cat.db"), "sqlite:///home/u/archive_cat.db");
    assert_eq!(document_dir_path("/home/u", &Some(s("2024/"))), "/home/u/archive_cat/data/2024/");
    assert_eq!(document_dir_path("/home/u", &None), "/home/u/archive_cat/data/");
    assert_eq!(
        document_file_path("/home/u", &Some(s("2024/")), &Some(s("x.pdf"))),
        "/home/u/archive_cat/data/2024/x.pdf"
    );
    assert_eq!(json_file_path("/h", &None, "id7"), "/h/archive_cat/data/id7.json");
}

#[test]
fn owner_filter() {
    assert_eq!(owner_pattern(true, "A@B.de"), "%");
    assert_eq!(owner_pattern(false, "A@B.de"), "a@b.de");
}

#[test]
fn file_extensions() {
    assert_eq!(extension_of("a.b.PDF"), "PDF");
    assert_eq!(extension_of("noext"), "noext");
    assert_eq!(extension_of("x."), "");
    assert_eq!(extension_of(""), "");
    assert_eq!(stored_file_name("id1", "pdf"), "id1.pdf");
}

#[test]
fn scan_filter_expression() {
    assert_eq!(scan_pattern("/scan", "*.pdf"), "\\/scan\\/[[:alnum:]]*\\.pdf");
    assert_eq!(scan_pattern("/s", "a?b+c"), "\\/s\\/a\\.b\\.c");
    assert_eq!(renamed_scan_path("/scan", "id.pdf"), "/scan/id.pdf");
}

#[test]
fn scan_selects_pdf_files() {
    let re = match scan_regex("/scan", "*.pdf") {
        Some(re) => re,
        None => panic!("expected a valid expression"),
    };
    assert!(scan_entry_selected(&re, "/scan/abc1.pdf", false));
    assert!(!scan_entry_selected(&re, "/scan/abc1.pdf", true));
    assert!(!scan_entry_selected(&re, "/scan/a-b.pdf", false));
    assert!(!scan_entry_selected(&re, "/scan/abc.txt", false));
    assert!(!scan_entry_selected(&re, "", false));
    assert!(scan_regex("/scan", "[").is_none());
}

#[test]
fn uploads() {
    match plan_upload("scan.pdf", "aGVsbG8=", "id1", 2024) {
        Ok(p) => {
            assert_eq!(p.file_extension, "pdf");
            assert_eq!(p.file, "id1.pdf");
            assert_eq!(p.sub_path, "2024/");
            assert_eq!(p.data, b"hello".to_vec());
        },
        Err(e) => panic!("unexpected error {}", e),
    }
    assert!(matches!(plan_upload("", "aGVsbG8=", "id1", 2024), Err(e) if e == "no filenames found (1)"));
    assert!(matches!(plan_upload("a.pdf", "", "id1", 2024), Err(e) if e == "no filenames found (1)"));
    assert!(matches!(plan_upload("a.pdf", "!!!", "id1", 2024), Err(e) if e == "no data found (4)"));
}

#[test]
fn pdf_delivery() {
    assert_eq!(pdf_payload(b"hello"), Some(s("aGVsbG8=")));
    assert_eq!(pdf_payload(&[]), None);
    assert!(pdf_request_complete("id", "a.pdf"));
    assert!(!pdf_request_complete("", "a.pdf"));
    assert!(!pdf_request_complete("id", ""));
}

// ---------------------------------------------------------------- status

#[test]
fn processing_steps_by_state() {
    let st = status_stages("01_Leer");
    assert!(st.clear && st.ocr && st.parse);
    let st = status_stages("11_Rohdaten");
    assert!(st.clear && st.ocr && st.parse);
    let st = status_stages("12_Rohdaten_bereinigt");
    assert!(!st.clear && st.ocr && st.parse);
    let st = status_stages("21_OCR");
    assert!(!st.clear && !st.ocr && st.parse);
    let st = status_stages("31_Parse");
    assert!(!st.clear && !st.ocr && !st.parse);
    assert_eq!(status_after_run("01_Leer"), "31_Parse");
    assert_eq!(status_after_run("21_OCR"), "31_Parse");
    assert_eq!(status_after_run("99_Done"), "99_Done");
}

#[test]
fn recognition_source() {
    assert!(matches!(ocr_source(&None, &None), OcrSource::NoFile));
    assert!(matches!(ocr_source(&Some(s("")), &Some(s("pdf"))), OcrSource::NoFile));
    assert!(matches!(ocr_source(&Some(s("a.pdf")), &None), OcrSource::Pdf(e) if e == "pdf"));
    assert!(matches!(ocr_source(&Some(s("a.pdf")), &Some(s("jpg"))), OcrSource::NotPdf(e) if e == "jpg"));
    assert!(matches!(ocr_source(&Some(s("scan")), &Some(s(""))), OcrSource::NotPdf(e) if e == "scan"));
}

#[test]
fn recognition_commands() {
    assert_eq!(
        gs_command("/p/", "id1", &Some(s("id1.pdf"))),
        "gs -dSAFER -dBATCH -dNOPAUSE -r1200 -sDEVICE=jpeg  -sOutputFile=/p/id1page%03d.jpg  /p/id1.pdf"
    );
    assert_eq!(
        tesseract_command("/p/a.jpg", "/tmp/d", "cfg"),
        "tesseract /p/a.jpg /p/a.jpg -l deu -c debug_file=/tmp/d cfg"
    );
    assert!(jpeg_page_selected("/p/id1page001.jpg", "id1page"));
    assert!(!jpeg_page_selected("/p/id1page001.jpg.txt", "id1page"));
    assert!(!jpeg_page_selected("/p/other001.jpg", "id1page"));
}

// ---------------------------------------------------------------- query

#[test]
fn integers() {
    assert_eq!(parse_i64("42"), Some(42));
    assert_eq!(parse_i64("-7"), Some(-7));
    assert_eq!(parse_i64("+5"), Some(5));
    assert_eq!(parse_i64("9223372036854775807"), Some(i64::MAX));
    assert_eq!(parse_i64("-9223372036854775808"), Some(i64::MIN));
    assert_eq!(parse_i64("9223372036854775808"), None);
    assert_eq!(parse_i64(""), None);
    assert_eq!(parse_i64("-"), None);
    assert_eq!(parse_i64("1a"), None);
}

#[test]
fn words_and_pieces() {
    assert_eq!(first_two_words("  subject   desc extra"), (s("subject"), s("desc")));
    assert_eq!(first_two_words("date"), (s("date"), s("")));
    assert_eq!(colon_split("subject:Rech*:x"), (s("subject"), s("Rech*")));
    assert_eq!(colon_split("plain"), (s("plain"), s("")));
}

#[test]
fn list_request_query() {
    let q = match document_query("?rows=10&sort=subject desc&q=subject:Rech*&q=nothing:x") {
        Ok(q) => q,
        Err(e) => panic!("unexpected error {}", e),
    };
    assert_eq!(q.limit, 10);
    assert_eq!(q.sort, Some((SortField::Subject, true)));
    assert_eq!(q.filters, vec![(FilterField::Subject, s("Rech%"))]);

    let d = match document_query("") {
        Ok(q) => q,
        Err(e) => panic!("unexpected error {}", e),
    };
    assert_eq!(d.limit, 50);
    assert_eq!(d.sort, None);
    assert!(d.filters.is_empty());

    let odd = match document_query("?rows=many&sort=colour") {
        Ok(q) => q,
        Err(e) => panic!("unexpected error {}", e),
    };
    assert_eq!(odd.limit, 50);
    assert_eq!(odd.sort, Some((SortField::Date, true)));
}

#[test]
fn a_second_run_changes_nothing() {
    for st in ["01_Leer", "11_Rohdaten", "12_Rohdaten_bereinigt", "21_OCR", "31_Parse", "other"] {
        let once = status_after_run(st);
        assert_eq!(status_after_run(&once), once);
        let stages = status_stages(&once);
        assert!(!stages.clear && !stages.ocr && !stages.parse);
    }
}

#[test]
fn scanned_files_are_taken_in_path_order() {
    let paths = vec![s("/s/b.pdf"), s("/s/a.pdf"), s("/s/B.pdf"), s("/s/é.pdf"), s("/s/a.pdf"), s("/s/ab.pdf")];
    let sorted = sorted_paths(paths.clone());
    assert_eq!(sorted, vec![s("/s/B.pdf"), s("/s/a.pdf"), s("/s/a.pdf"), s("/s/ab.pdf"), s("/s/b.pdf"), s("/s/é.pdf")]);
    let mut expected = paths;
    expected.sort();
    assert_eq!(sorted, expected);
    assert!(sorted_paths(vec![]).is_empty());
}

#[test]
fn recognised_text_fills_an_empty_body() {
    assert_eq!(body_after_ocr(None, Some(s("ocr"))), Some(s("ocr")));
    assert_eq!(body_after_ocr(Some(s("")), Some(s("ocr"))), Some(s("ocr")));
    assert_eq!(body_after_ocr(Some(s("mail text")), Some(s("ocr"))), Some(s("mail text")));
    assert_eq!(body_after_ocr(None, None), None);
}

#[test]
fn question_mark_in_the_filter_is_a_literal_dot() {
    let re = match scan_regex("/s", "scan?.pdf") {
        Some(re) => re,
        None => panic!("expected a valid expression"),
    };
    assert!(scan_entry_selected(&re, "/s/scan..pdf", false));
    assert!(!scan_entry_selected(&re, "/s/scan1.pdf", false));
    let docs = match scan_documents("/s", "scan?.pdf", "Jan@X.de", &vec![(s("/s/scan1.pdf"), false)]) {
        Some(d) => d,
        None => panic!("expected documents"),
    };
    assert!(docs.is_empty());
}

#[test]
fn scan_folder_documents() {
    let entries = vec![
        (s("/s/b.pdf"), false),
        (s("/s/notes.txt"), false),
        (s("/s/a.PDF"), false),
        (s("/s/sub.pdf"), true),
    ];
    let docs = match scan_documents("/s", "*.*", "Jan@X.de", &entries) {
        Some(d) => d,
        None => panic!("expected documents"),
    };
    let names: Vec<&str> = docs.iter().map(|d| d.subject.as_str()).collect();
    assert_eq!(names, vec!["/s/a.PDF", "/s/b.pdf"]);
    let d = &docs[0];
    assert!(is_uuid(&d.id));
    assert_eq!(d.filename, "/s/a.PDF");
    assert_eq!(d.input_path, "01_upload");
    assert_eq!(d.owner, "jan@x.de");
    assert_eq!(d.file_extension, "PDF");
    assert_eq!(d.file, format!("{}.PDF", d.id));
    assert_eq!(d.renamed_path, format!("/s/{}.PDF", d.id));
    assert!(scan_documents("/s", "[", "a", &entries).is_none());
    let one = scan_document("/x/y.pdf", "A", "/x");
    assert_eq!(one.file, format!("{}.pdf", one.id));
}

#[test]
fn stored_attachment_names() {
    let n = attachment_file_name();
    assert_eq!(n.len(), 40);
    assert!(is_uuid(&n[..36]) && n.ends_with(".pdf"));
    let (name, file) = attachment_entry(Attachment::Pdf(s("R.pdf")));
    assert_eq!(name, Some(s("R.pdf")));
    assert!(file.map(|f| is_uuid(&f[..36]) && f.ends_with(".pdf")).unwrap_or(false));
    assert_eq!(attachment_entry(Attachment::Other(s("n.txt"))), (Some(s("n.txt")), None));
    assert_eq!(attachment_entry(Attachment::NoAttachment), (None, None));
}

#[test]
fn uploaded_document_record() {
    let p = match plan_upload("scan.pdf", "aGVsbG8=", "id1", 2024) {
        Ok(p) => p,
        Err(e) => panic!("unexpected error {}", e),
    };
    assert_eq!(p.subject, "scan.pdf");
    assert_eq!(p.filename, "scan.pdf");
    assert_eq!(p.status, "01_Leer");
    assert_eq!(p.input_path, "01_upload");
    assert_eq!(p.document_type, "PDF");
    assert_eq!(p.langu, "DE");
}

fn record(status: &str, file: Option<&str>, ext: Option<&str>) -> StatusRecord {
    StatusRecord {
        status: s(status),
        sender_name: Some(s("S")),
        sender_addr: None,
        recipient_name: None,
        recipient_addr: None,
        from: None,
        to: None,
        body: None,
        metadata: None,
        category: Some(s("[]")),
        currency: None,
        template_name: None,
        doc_data: None,
        base64: None,
        ocr_data: None,
        jpg_file: None,
        num_pages: None,
        protocol: s("old"),
        file: file.map(s),
        file_extension: ext.map(s),
    }
}

#[test]
fn a_run_on_a_file_that_is_not_a_pdf() {
    let r = clear_step(record("11_Rohdaten", Some("scan.tif"), None), "T");
    assert_eq!(r.status, "12_Rohdaten_bereinigt");
    assert_eq!(r.sender_name, None);
    assert_eq!(r.category, None);
    assert_eq!(r.protocol, "\nT - init or clear data");
    let (r, src) = ocr_start_step(r, "T");
    assert!(matches!(src, OcrSource::NotPdf(ref e) if e == "tif"));
    assert_eq!(r.status, "21_OCR");
    assert_eq!(r.file_extension, Some(s("tif")));
    assert_eq!(r.protocol, "\nT - init or clear data\nT - start OCR\nT - no PDF file");
    let r = parse_step(r, "T");
    assert_eq!(r.status, "31_Parse");
    assert_eq!(r.protocol, "\nT - init or clear data\nT - start OCR\nT - no PDF file\nT - start parse\nT - end OCR");
    assert_eq!(r.ocr_data, None);
}

#[test]
fn recognised_pages_fill_the_record() {
    let (r, src) = ocr_start_step(record("12_Rohdaten_bereinigt", Some("d.pdf"), Some("")), "T");
    assert!(matches!(src, OcrSource::Pdf(ref e) if e == "pdf"));
    assert_eq!(r.protocol, "old\nT - start OCR\nT - start gs");
    let pages = vec![(s("/p/dpage001.jpg"), s("Seite 1 ")), (s("/p/dpage002.jpg"), s("Seite 2"))];
    let r = ocr_pages_step(r, &pages, "U");
    assert_eq!(r.num_pages, Some(2));
    assert_eq!(r.ocr_data, Some(s("Seite 1 Seite 2")));
    assert_eq!(r.body, Some(s("Seite 1 Seite 2")));
    assert_eq!(r.jpg_file, Some(s("[\"/p/dpage001.jpg\",\"/p/dpage002.jpg\"]")));
    assert_eq!(
        r.protocol,
        "old\nT - start OCR\nT - start gs\nU - start tesseract file /p/dpage001.jpg\nU - start tesseract file /p/dpage002.jpg\nU - end OCR"
    );
    let none = ocr_pages_step(record("21_OCR", Some("d.pdf"), None), &vec![], "V");
    assert_eq!(none.protocol, "old\nV - no JPG files");
    assert_eq!(none.num_pages, None);
    let (r, src) = ocr_start_step(record("12_Rohdaten_bereinigt", None, None), "T");
    assert!(matches!(src, OcrSource::NoFile));
    assert_eq!(r.protocol, "old\nT - start OCR");
}

fn part(mime: &str, body: Option<&str>, headers: Vec<&str>, subparts: Vec<MailPart>) -> MailPart {
    MailPart { mimetype: s(mime), body: body.map(s), headers: headers.into_iter().map(s).collect(), subparts }
}

#[test]
fn reading_the_parts_of_a_mail() {
    let inner = part("text/html", Some("<p>x</p>"), vec![], vec![]);
    let pdf = part("application/pdf", None, vec!["attachment; filename=\"a.pdf\""], vec![]);
    let deep = part("text/plain", Some("deep"), vec![], vec![part("text/plain", Some("too deep"), vec![], vec![])]);
    let alt = part("multipart/alternative", None, vec![], vec![inner, deep]);
    let root = part("multipart/mixed", Some("preamble "), vec![], vec![alt, pdf]);
    let (body, atts) = mail_parts(&root, None);
    assert_eq!(body, Some(s("<p>x</p>deep")));
    assert_eq!(atts.len(), 4);
    assert!(matches!(atts[0], Attachment::NoAttachment));
    assert!(matches!(atts[3], Attachment::Pdf(ref n) if n == "a.pdf"));
    let plain = part("text/plain", Some("Hallo"), vec![], vec![]);
    let (body, atts) = mail_parts(&plain, Some(s("> ")));
    assert_eq!(body, Some(s("> Hallo")));
    assert!(atts.is_empty());
}

#[test]
fn status_runs_end_in_parse_whatever_the_outcome() {
    let outcomes = || {
        vec![
            OcrOutcome::RenderFailed(s("Ok(\"boom\")")),
            OcrOutcome::Recognised(vec![], None),
            OcrOutcome::Recognised(vec![(s("/p/1.jpg"), s("a"))], None),
            OcrOutcome::Recognised(vec![(s("/p/1.jpg"), s("a"))], Some((s("/p/2.jpg"), s("Ok(\"bad\")")))),
        ]
    };
    for st in ["01_Leer", "11_Rohdaten", "12_Rohdaten_bereinigt", "21_OCR"] {
        for file in [None, Some("d.tif"), Some("d.pdf")] {
            for o in outcomes() {
                let r = status_run(record(st, file, None), "T", o);
                assert_eq!(r.status, "31_Parse");
                assert!(r.protocol.ends_with("\nT - start parse\nT - end OCR"));
                assert_eq!(r.file, file.map(s));
            }
        }
    }
    let done = status_run(record("31_Parse", Some("d.pdf"), None), "T", OcrOutcome::Recognised(vec![], None));
    assert_eq!(done.protocol, "old");
    assert_eq!(done.sender_name, Some(s("S")));
}

#[test]
fn failing_tools_are_reported() {
    let r = ocr_render_failed_step(record("21_OCR", Some("d.pdf"), None), "Ok(\"x\")", "T");
    assert_eq!(r.protocol, "old\nT - gs Error Ok(\"x\")");
    let pages = vec![(s("/p/1.jpg"), s("eins "))];
    let r = ocr_failed_step(record("21_OCR", Some("d.pdf"), None), &pages, "/p/2.jpg", "Ok(\"y\")", "T");
    assert_eq!(
        r.protocol,
        "old\nT - start tesseract file /p/1.jpg\nT - start tesseract file /p/2.jpg\nT - tesseract Error Ok(\"y\")"
    );
    assert_eq!(r.num_pages, Some(2));
    assert_eq!(r.ocr_data, Some(s("eins ")));
    assert_eq!(r.jpg_file, None);
    assert_eq!(r.body, None);
}
