//! The processing states of a document and the decisions taken on the way:
//! a raw document is cleared (`12`), its PDF turned into page images and
//! recognised text (`21`), and it is then marked for parsing (`31`).

use vstd::prelude::*;

use crate::engines::{json_text_list, to_json_list, to_uppercase, upper_text};
use crate::files::{extension_of, extension_spec, or_empty};
use crate::text::{concat_text, contains, contains_text, is_prefix, is_suffix, text_eq};

verus! {

pub const STATUS_EMPTY: &'static str = "01_Leer";
pub const STATUS_RAW: &'static str = "11_Rohdaten";
pub const STATUS_CLEARED: &'static str = "12_Rohdaten_bereinigt";
pub const STATUS_OCR: &'static str = "21_OCR";
pub const STATUS_PARSE: &'static str = "31_Parse";

/// Which steps one processing run takes for a document in a given state.
pub struct StatusStages {
    /// The data is cleared (state `01` or `11`).
    pub clear: bool,
    /// Text recognition runs (state `12`, or after clearing).
    pub ocr: bool,
    /// The document is marked for parsing (state `21`, or after recognition).
    pub parse: bool,
}

/// The steps of one run from `status`: each step leads into the next.
pub open spec fn stages_of(status: Seq<char>) -> (bool, bool, bool) {
    let clear = status == STATUS_EMPTY@ || status == STATUS_RAW@;
    let ocr = clear || status == STATUS_CLEARED@;
    let parse = ocr || status == STATUS_OCR@;
    (clear, ocr, parse)
}

/// The steps of one processing run, see `stages_of`.
pub fn status_stages(status: &str) -> (r: StatusStages)
    ensures
        (r.clear, r.ocr, r.parse) == stages_of(status@),
{
    let clear = text_eq(status, STATUS_EMPTY) || text_eq(status, STATUS_RAW);
    let ocr = clear || text_eq(status, STATUS_CLEARED);
    let parse = ocr || text_eq(status, STATUS_OCR);
    StatusStages { clear, ocr, parse }
}

/// The state after one run: `31_Parse` when any step ran, else unchanged.
pub open spec fn state_after_run(status: Seq<char>) -> Seq<char> {
    if stages_of(status).2 {
        STATUS_PARSE@
    } else {
        status
    }
}

/// The state after one run, see `state_after_run`.
pub fn status_after_run(status: &str) -> (r: String)
    ensures
        r@ == state_after_run(status@),
{
    let stages = status_stages(status);
    if stages.parse {
        STATUS_PARSE.to_owned()
    } else {
        status.to_owned()
    }
}

/// A run leaves a state from which a further run takes no step, so running
/// twice gives the state of running once.
pub proof fn law_second_run_takes_no_step(status: Seq<char>)
    ensures
        stages_of(state_after_run(status)) == (false, false, false),
        state_after_run(state_after_run(status)) == state_after_run(status),
{
    reveal_strlit("01_Leer");
    reveal_strlit("11_Rohdaten");
    reveal_strlit("12_Rohdaten_bereinigt");
    reveal_strlit("21_OCR");
    reveal_strlit("31_Parse");
    let p = STATUS_PARSE@;
    assert(p.len() == 8);
    assert(p != STATUS_EMPTY@ && p != STATUS_RAW@ && p != STATUS_CLEARED@ && p != STATUS_OCR@);
}

/// What text recognition can work on.
pub enum OcrSource {
    /// The document has no file.
    NoFile,
    /// The file is not a PDF; the extension, derived from the file name
    /// where none was stored, is kept.
    NotPdf(String),
    /// The file is a PDF, with its extension.
    Pdf(String),
}

/// The extension recognition goes by: the stored one, or else the file
/// name's.
pub open spec fn ocr_extension(file: Seq<char>, file_extension: Seq<char>) -> Seq<char> {
    if file_extension.len() == 0 {
        extension_spec(file)
    } else {
        file_extension
    }
}

/// Decides whether recognition can run: a file must be present and its
/// extension, upper-cased, must be `PDF`.
pub fn ocr_source(file: &Option<String>, file_extension: &Option<String>) -> (r: OcrSource)
    ensures
        match r {
            OcrSource::NoFile => or_empty(*file).len() == 0,
            OcrSource::NotPdf(e) => or_empty(*file).len() > 0 && e@ == ocr_extension(
                or_empty(*file),
                or_empty(*file_extension),
            ) && upper_text(e@) != "PDF"@,
            OcrSource::Pdf(e) => or_empty(*file).len() > 0 && e@ == ocr_extension(
                or_empty(*file),
                or_empty(*file_extension),
            ) && upper_text(e@) == "PDF"@,
        },
{
    let f = match file {
        Some(f) => f.clone(),
        None => String::new(),
    };
    if f.as_str().is_empty() {
        return OcrSource::NoFile;
    }
    let stored = match file_extension {
        Some(e) => e.clone(),
        None => String::new(),
    };
    let ext = if stored.as_str().is_empty() {
        extension_of(f.as_str())
    } else {
        stored
    };
    let up = to_uppercase(ext.as_str());
    if text_eq(up.as_str(), "PDF") {
        OcrSource::Pdf(ext)
    } else {
        OcrSource::NotPdf(ext)
    }
}

/// The body after recognition: the recognised text where the document had
/// no body or an empty one, else the body kept.
pub open spec fn body_after_ocr_spec(body: Option<String>, ocr_data: Option<String>) -> Option<String> {
    match body {
        Some(b) => if b@.len() == 0 {
            ocr_data
        } else {
            Some(b)
        },
        None => ocr_data,
    }
}

/// The body after recognition, see `body_after_ocr_spec`.
pub fn body_after_ocr(body: Option<String>, ocr_data: Option<String>) -> (r: Option<String>)
    ensures
        r == body_after_ocr_spec(body, ocr_data),
{
    match body {
        Some(b) => {
            if b.as_str().is_empty() {
                ocr_data
            } else {
                Some(b)
            }
        },
        None => ocr_data,
    }
}

/// The parts of a document that a processing run reads and writes (the
/// amount, a floating-point number, is cleared by the caller where the data
/// is cleared).
pub struct StatusRecord {
    pub status: String,
    pub sender_name: Option<String>,
    pub sender_addr: Option<String>,
    pub recipient_name: Option<String>,
    pub recipient_addr: Option<String>,
    pub from: Option<String>,
    pub to: Option<String>,
    pub body: Option<String>,
    pub metadata: Option<String>,
    pub category: Option<String>,
    pub currency: Option<String>,
    pub template_name: Option<String>,
    pub doc_data: Option<String>,
    pub base64: Option<String>,
    pub ocr_data: Option<String>,
    pub jpg_file: Option<String>,
    pub num_pages: Option<u64>,
    pub protocol: String,
    pub file: Option<String>,
    pub file_extension: Option<String>,
}

/// A protocol line: a new line, the time stamp, ` - ` and the text.
pub open spec fn protocol_line(now: Seq<char>, text: Seq<char>) -> Seq<char> {
    "\n"@ + now + " - "@ + text
}

fn line(now: &str, text: &str) -> (r: String)
    ensures
        r@ == protocol_line(now@, text@),
{
    let a = concat_text("\n", now);
    let b = concat_text(a.as_str(), " - ");
    concat_text(b.as_str(), text)
}

fn append_line(protocol: &String, now: &str, text: &str) -> (r: String)
    ensures
        r@ == protocol@ + protocol_line(now@, text@),
{
    let l = line(now, text);
    concat_text(protocol.as_str(), l.as_str())
}

/// Clearing a raw document: state `12_Rohdaten_bereinigt`, every extracted
/// or recognised part removed, the file kept, and the protocol restarted
/// with the clearing line.
pub fn clear_step(rec: StatusRecord, now: &str) -> (r: StatusRecord)
    ensures
        r.status@ == STATUS_CLEARED@,
        r.sender_name is None && r.sender_addr is None && r.recipient_name is None
            && r.recipient_addr is None,
        r.from is None && r.to is None && r.body is None && r.metadata is None && r.category is None,
        r.currency is None && r.template_name is None && r.doc_data is None && r.base64 is None,
        r.ocr_data is None && r.jpg_file is None && r.num_pages is None,
        r.protocol@ == protocol_line(now@, "init or clear data"@),
        r.file == rec.file,
        r.file_extension == rec.file_extension,
{
    StatusRecord {
        status: STATUS_CLEARED.to_owned(),
        sender_name: None,
        sender_addr: None,
        recipient_name: None,
        recipient_addr: None,
        from: None,
        to: None,
        body: None,
        metadata: None,
        category: None,
        currency: None,
        template_name: None,
        doc_data: None,
        base64: None,
        ocr_data: None,
        jpg_file: None,
        num_pages: None,
        protocol: line(now, "init or clear data"),
        file: rec.file,
        file_extension: rec.file_extension,
    }
}

/// `b` is `a` with another state, protocol and extension.
pub open spec fn same_content(a: StatusRecord, b: StatusRecord) -> bool {
    &&& b.sender_name == a.sender_name && b.sender_addr == a.sender_addr
    &&& b.recipient_name == a.recipient_name && b.recipient_addr == a.recipient_addr
    &&& b.from == a.from && b.to == a.to && b.body == a.body && b.metadata == a.metadata
    &&& b.category == a.category && b.currency == a.currency && b.template_name == a.template_name
    &&& b.doc_data == a.doc_data && b.base64 == a.base64 && b.ocr_data == a.ocr_data
    &&& b.jpg_file == a.jpg_file && b.num_pages == a.num_pages && b.file == a.file
}

/// The start of recognition: state `21_OCR`, a `start OCR` line, and what
/// recognition can work on; for a file the extension it goes by is stored,
/// followed by a `no PDF file` line where it is not a PDF and a `start gs`
/// line where it is.
pub fn ocr_start_step(rec: StatusRecord, now: &str) -> (r: (StatusRecord, OcrSource))
    ensures
        r.0.status@ == STATUS_OCR@,
        same_content(rec, r.0),
        match r.1 {
            OcrSource::NoFile => or_empty(rec.file).len() == 0 && r.0.file_extension
                == rec.file_extension && r.0.protocol@ == rec.protocol@ + protocol_line(
                now@,
                "start OCR"@,
            ),
            OcrSource::NotPdf(e) => or_empty(rec.file).len() > 0 && e@ == ocr_extension(
                or_empty(rec.file),
                or_empty(rec.file_extension),
            ) && upper_text(e@) != "PDF"@ && r.0.file_extension == Some(e) && r.0.protocol@
                == rec.protocol@ + protocol_line(now@, "start OCR"@) + protocol_line(
                now@,
                "no PDF file"@,
            ),
            OcrSource::Pdf(e) => or_empty(rec.file).len() > 0 && e@ == ocr_extension(
                or_empty(rec.file),
                or_empty(rec.file_extension),
            ) && upper_text(e@) == "PDF"@ && r.0.file_extension == Some(e) && r.0.protocol@
                == rec.protocol@ + protocol_line(now@, "start OCR"@) + protocol_line(
                now@,
                "start gs"@,
            ),
        },
{
    let src = ocr_source(&rec.file, &rec.file_extension);
    let p1 = append_line(&rec.protocol, now, "start OCR");
    let mut r = StatusRecord { status: STATUS_OCR.to_owned(), protocol: p1, ..rec };
    match &src {
        OcrSource::NoFile => {},
        OcrSource::NotPdf(e) => {
            r.file_extension = Some(e.clone());
            r.protocol = append_line(&r.protocol, now, "no PDF file");
        },
        OcrSource::Pdf(e) => {
            r.file_extension = Some(e.clone());
            r.protocol = append_line(&r.protocol, now, "start gs");
        },
    }
    (r, src)
}

/// The protocol lines of the first `n` recognised pages.
pub open spec fn page_lines(now: Seq<char>, pages: Seq<(Seq<char>, Seq<char>)>, n: int) -> Seq<char>
    decreases n,
{
    if n <= 0 {
        Seq::empty()
    } else {
        page_lines(now, pages, n - 1) + protocol_line(now, "start tesseract file "@ + pages[n - 1].0)
    }
}

/// The recognised texts of the first `n` pages, one after the other.
pub open spec fn page_texts(pages: Seq<(Seq<char>, Seq<char>)>, n: int) -> Seq<char>
    decreases n,
{
    if n <= 0 {
        Seq::empty()
    } else {
        page_texts(pages, n - 1) + pages[n - 1].1
    }
}

/// The end of recognition with the page images `pages` (path and
/// recognised text, in path order): none gives a `no JPG files` line;
/// otherwise each page adds a `start tesseract file` line, one to the page
/// count and its text to the recognised text, the page paths are stored as
/// a JSON list, an empty body takes the recognised text, and an `end OCR`
/// line closes.
pub fn ocr_pages_step(rec: StatusRecord, pages: &Vec<(String, String)>, now: &str) -> (r: StatusRecord)
    requires
        pages_after(rec.num_pages, pages@.len() as int) <= u64::MAX,
    ensures
        r.status == rec.status,
        r.file == rec.file && r.file_extension == rec.file_extension,
        r.sender_name == rec.sender_name && r.sender_addr == rec.sender_addr,
        r.recipient_name == rec.recipient_name && r.recipient_addr == rec.recipient_addr,
        r.from == rec.from && r.to == rec.to && r.metadata == rec.metadata,
        r.category == rec.category && r.currency == rec.currency && r.template_name
            == rec.template_name,
        r.doc_data == rec.doc_data && r.base64 == rec.base64,
        ({
            let pv = pages@.map_values(|p: (String, String)| (p.0@, p.1@));
            let n = pv.len() as int;
            if n == 0 {
                &&& r.protocol@ == rec.protocol@ + protocol_line(now@, "no JPG files"@)
                &&& r.ocr_data == rec.ocr_data && r.jpg_file == rec.jpg_file
                &&& r.num_pages == rec.num_pages && r.body == rec.body
            } else {
                let ocr = or_empty(rec.ocr_data) + page_texts(pv, n);
                &&& r.protocol@ == rec.protocol@ + page_lines(now@, pv, n) + protocol_line(
                    now@,
                    "end OCR"@,
                )
                &&& r.num_pages == Some(pages_after(rec.num_pages, n) as u64)
                &&& r.ocr_data matches Some(o) && o@ == ocr
                &&& r.jpg_file matches Some(j) && j@ == json_text_list(pv.map_values(|p: (Seq<char>, Seq<char>)| p.0))
                &&& (match rec.body {
                    Some(b) => if b@.len() == 0 {
                        r.body matches Some(x) && x@ == ocr
                    } else {
                        r.body == rec.body
                    },
                    None => r.body matches Some(x) && x@ == ocr,
                })
            }
        }),
{
    let ghost pv = pages@.map_values(|p: (String, String)| (p.0@, p.1@));
    if pages.len() == 0 {
        let protocol = append_line(&rec.protocol, now, "no JPG files");
        return StatusRecord { protocol, ..rec };
    }
    let (protocol, ocr, count, paths) = read_pages(&rec.protocol, &rec.ocr_data, rec.num_pages, pages, now);
    let jpg = to_json_list(&paths);
    let body = match rec.body {
        Some(b) => if b.as_str().is_empty() {
            Some(ocr.clone())
        } else {
            Some(b)
        },
        None => Some(ocr.clone()),
    };
    let protocol = append_line(&protocol, now, "end OCR");
    StatusRecord {
        protocol,
        ocr_data: Some(ocr),
        num_pages: Some(count),
        jpg_file: Some(jpg),
        body,
        ..rec
    }
}

/// The page count after `n` more pages.
pub open spec fn pages_after(num_pages: Option<u64>, n: int) -> int {
    let c: int = match num_pages {
        Some(c) => c as int,
        None => 0,
    };
    c + n
}

/// Reads the recognised pages: their protocol lines, their texts after the
/// recognised text so far, the page count and the page paths.
fn read_pages(
    protocol0: &String,
    ocr0: &Option<String>,
    num_pages: Option<u64>,
    pages: &Vec<(String, String)>,
    now: &str,
) -> (r: (String, String, u64, Vec<String>))
    requires
        pages_after(num_pages, pages@.len() as int) <= u64::MAX,
    ensures
        ({
            let pv = pages@.map_values(|p: (String, String)| (p.0@, p.1@));
            let n = pv.len() as int;
            &&& r.0@ == protocol0@ + page_lines(now@, pv, n)
            &&& r.1@ == or_empty(*ocr0) + page_texts(pv, n)
            &&& r.2 == pages_after(num_pages, n)
            &&& r.3.deep_view() == pv.map_values(|p: (Seq<char>, Seq<char>)| p.0)
        }),
{
    let ghost pv = pages@.map_values(|p: (String, String)| (p.0@, p.1@));
    let mut protocol = protocol0.clone();
    let mut ocr = match ocr0 {
        Some(o) => o.clone(),
        None => String::new(),
    };
    let mut count: u64 = match num_pages {
        Some(c) => c,
        None => 0,
    };
    let ghost count0 = count;
    let mut paths: Vec<String> = Vec::new();
    let mut i: usize = 0;
    assert(pv.take(0).map_values(|p: (Seq<char>, Seq<char>)| p.0) =~= paths.deep_view());
    while i < pages.len()
        invariant
            i <= pages@.len(),
            pv == pages@.map_values(|p: (String, String)| (p.0@, p.1@)),
            count == count0 + i,
            count0 + pages@.len() <= u64::MAX,
            count0 == pages_after(num_pages, 0),
            protocol@ == protocol0@ + page_lines(now@, pv, i as int),
            ocr@ == or_empty(*ocr0) + page_texts(pv, i as int),
            paths.deep_view() == pv.take(i as int).map_values(|p: (Seq<char>, Seq<char>)| p.0),
        decreases pages@.len() - i,
    {
        assert(pv[i as int] == (pages@[i as int].0@, pages@[i as int].1@));
        let t = concat_text("start tesseract file ", pages[i].0.as_str());
        protocol = append_line(&protocol, now, t.as_str());
        assert(protocol@ =~= protocol0@ + page_lines(now@, pv, i + 1));
        ocr = concat_text(ocr.as_str(), pages[i].1.as_str());
        assert(ocr@ =~= or_empty(*ocr0) + page_texts(pv, i + 1));
        count = count + 1;
        let ghost before = paths.deep_view();
        paths.push(pages[i].0.clone());
        assert(paths.deep_view() =~= before.push(pages@[i as int].0@));
        assert(pv.take(i + 1).map_values(|p: (Seq<char>, Seq<char>)| p.0) =~= pv.take(
            i as int,
        ).map_values(|p: (Seq<char>, Seq<char>)| p.0).push(pv[i as int].0));
        i = i + 1;
    }
    assert(pv.take(i as int) =~= pv);
    (protocol, ocr, count, paths)
}

/// What rendering and recognising the pages of a PDF gave.
pub enum OcrOutcome {
    /// Rendering the pages failed, with the tool's error output as shown.
    RenderFailed(String),
    /// The pages recognised, in path order (path and text), and, where
    /// recognising a further page failed, that page's path and the tool's
    /// error output as shown.
    Recognised(Vec<(String, String)>, Option<(String, String)>),
}

/// Recognition stopped by a failing page: the pages before it are read as
/// usual, the failing page is counted with its `start tesseract file` line,
/// and a `tesseract Error` line with the tool's output closes; the page list,
/// the body and the `end OCR` line are not written.
pub fn ocr_failed_step(
    rec: StatusRecord,
    pages: &Vec<(String, String)>,
    failed_path: &str,
    detail: &str,
    now: &str,
) -> (r: StatusRecord)
    requires
        pages_after(rec.num_pages, pages@.len() + 1int) <= u64::MAX,
    ensures
        r.status == rec.status,
        r.file == rec.file && r.file_extension == rec.file_extension,
        r.sender_name == rec.sender_name && r.sender_addr == rec.sender_addr,
        r.recipient_name == rec.recipient_name && r.recipient_addr == rec.recipient_addr,
        r.from == rec.from && r.to == rec.to && r.metadata == rec.metadata,
        r.category == rec.category && r.currency == rec.currency && r.template_name
            == rec.template_name,
        r.doc_data == rec.doc_data && r.base64 == rec.base64,
        r.body == rec.body && r.jpg_file == rec.jpg_file,
        ({
            let pv = pages@.map_values(|p: (String, String)| (p.0@, p.1@));
            let n = pv.len() as int;
            &&& r.protocol@ == rec.protocol@ + page_lines(now@, pv, n) + protocol_line(
                now@,
                "start tesseract file "@ + failed_path@,
            ) + protocol_line(now@, "tesseract Error "@ + detail@)
            &&& r.num_pages == Some(pages_after(rec.num_pages, n + 1) as u64)
            &&& if n == 0 {
                r.ocr_data == rec.ocr_data
            } else {
                r.ocr_data matches Some(o) && o@ == or_empty(rec.ocr_data) + page_texts(pv, n)
            }
        }),
{
    let (protocol, ocr, count, _paths) = read_pages(&rec.protocol, &rec.ocr_data, rec.num_pages, pages, now);
    let t = concat_text("start tesseract file ", failed_path);
    let protocol = append_line(&protocol, now, t.as_str());
    let e = concat_text("tesseract Error ", detail);
    let protocol = append_line(&protocol, now, e.as_str());
    let ocr_data = if pages.len() == 0 {
        rec.ocr_data
    } else {
        Some(ocr)
    };
    StatusRecord { protocol, ocr_data, num_pages: Some(count + 1), ..rec }
}

/// Rendering failed: a `gs Error` line with the tool's output, nothing else.
pub fn ocr_render_failed_step(rec: StatusRecord, detail: &str, now: &str) -> (r: StatusRecord)
    ensures
        r.status == rec.status,
        same_content(rec, r),
        r.file_extension == rec.file_extension,
        r.protocol@ == rec.protocol@ + protocol_line(now@, "gs Error "@ + detail@),
{
    let e = concat_text("gs Error ", detail);
    let protocol = append_line(&rec.protocol, now, e.as_str());
    StatusRecord { protocol, ..rec }
}

/// Marking for parsing: state `31_Parse`, a `start parse` and an `end OCR`
/// line, everything else kept.
pub fn parse_step(rec: StatusRecord, now: &str) -> (r: StatusRecord)
    ensures
        r.status@ == STATUS_PARSE@,
        same_content(rec, r),
        r.file_extension == rec.file_extension,
        r.protocol@ == rec.protocol@ + protocol_line(now@, "start parse"@) + protocol_line(
            now@,
            "end OCR"@,
        ),
{
    let p1 = append_line(&rec.protocol, now, "start parse");
    let p2 = append_line(&p1, now, "end OCR");
    StatusRecord { status: STATUS_PARSE.to_owned(), protocol: p2, ..rec }
}

/// The parts a run leaves to the document's author: neither recognition nor
/// marking for parsing touches them, only clearing does.
pub open spec fn same_author_parts(a: StatusRecord, b: StatusRecord) -> bool {
    &&& b.sender_name == a.sender_name && b.sender_addr == a.sender_addr
    &&& b.recipient_name == a.recipient_name && b.recipient_addr == a.recipient_addr
    &&& b.from == a.from && b.to == a.to && b.metadata == a.metadata && b.category == a.category
    &&& b.currency == a.currency && b.template_name == a.template_name && b.doc_data == a.doc_data
    &&& b.base64 == a.base64
}

/// The author's parts are all removed.
pub open spec fn author_parts_cleared(b: StatusRecord) -> bool {
    &&& b.sender_name is None && b.sender_addr is None
    &&& b.recipient_name is None && b.recipient_addr is None
    &&& b.from is None && b.to is None && b.metadata is None && b.category is None
    &&& b.currency is None && b.template_name is None && b.doc_data is None && b.base64 is None
}

/// What a run leaves of recognition on a PDF whose pages `pv` (path and
/// text, in path order, at least one) were all recognised: the recognised
/// text so far (none after clearing) followed by the page texts, the page
/// count grown by the pages, the page paths as a JSON list, and an empty or
/// missing body (always so after clearing) filled with the recognised text.
pub open spec fn recognised_record(rec: StatusRecord, r: StatusRecord, pv: Seq<(Seq<char>, Seq<char>)>) -> bool {
    let cleared = stages_of(rec.status@).0;
    let n = pv.len() as int;
    let ocr = (if cleared {
        Seq::empty()
    } else {
        or_empty(rec.ocr_data)
    }) + page_texts(pv, n);
    let keep_body = !cleared && (rec.body matches Some(b) && b@.len() > 0);
    &&& r.ocr_data matches Some(o) && o@ == ocr
    &&& r.num_pages == Some(
        pages_after(
            if cleared {
                None
            } else {
                rec.num_pages
            },
            n,
        ) as u64,
    )
    &&& r.jpg_file matches Some(j) && j@ == json_text_list(pv.map_values(|p: (Seq<char>, Seq<char>)| p.0))
    &&& if keep_body {
        r.body == rec.body
    } else {
        r.body matches Some(x) && x@ == ocr
    }
}

/// One processing run of a document, `outcome` being what rendering and
/// recognising its pages gave where they run: a raw document is cleared,
/// a cleared one recognised, a recognised one marked for parsing, each step
/// leading into the next; a document in any other state is left as it is.
/// Whatever the outcome, a run that takes a step ends in `31_Parse` with the
/// `start parse` and `end OCR` lines.
pub fn status_run(rec: StatusRecord, now: &str, outcome: OcrOutcome) -> (r: StatusRecord)
    requires
        outcome matches OcrOutcome::Recognised(p, _) ==> pages_after(
            if stages_of(rec.status@).0 {
                None
            } else {
                rec.num_pages
            },
            p@.len() + 1int,
        ) <= u64::MAX,
    ensures
        !stages_of(rec.status@).2 ==> r == rec,
        stages_of(rec.status@).2 ==> r.status@ == STATUS_PARSE@ && is_suffix(
            protocol_line(now@, "start parse"@) + protocol_line(now@, "end OCR"@),
            r.protocol@,
        ),
        r.file == rec.file,
        stages_of(rec.status@).0 ==> author_parts_cleared(r) && is_prefix(
            protocol_line(now@, "init or clear data"@),
            r.protocol@,
        ),
        !stages_of(rec.status@).0 ==> same_author_parts(rec, r) && is_prefix(rec.protocol@, r.protocol@),
        stages_of(rec.status@).2 && !stages_of(rec.status@).1 ==> same_content(rec, r)
            && r.file_extension == rec.file_extension && r.protocol@ == rec.protocol@
            + protocol_line(now@, "start parse"@) + protocol_line(now@, "end OCR"@),
        stages_of(rec.status@).1 && or_empty(rec.file).len() > 0 && upper_text(
            ocr_extension(or_empty(rec.file), or_empty(rec.file_extension)),
        ) == "PDF"@ ==> match outcome {
            OcrOutcome::Recognised(pages, None) => pages@.len() > 0 ==> recognised_record(
                rec,
                r,
                pages@.map_values(|p: (String, String)| (p.0@, p.1@)),
            ),
            _ => true,
        },
{
    let stages = status_stages(rec.status.as_str());
    if !stages.parse {
        proof {
            assert(rec.protocol@.subrange(0, rec.protocol@.len() as int) =~= rec.protocol@);
        }
        return rec;
    }
    let ghost r0 = rec;
    let mut r = rec;
    if stages.clear {
        r = clear_step(r, now);
    }
    let ghost r1 = r;
    if stages.ocr {
        let (r2, src) = ocr_start_step(r, now);
        r = r2;
        match src {
            OcrSource::Pdf(_) => {
                match outcome {
                    OcrOutcome::RenderFailed(detail) => {
                        r = ocr_render_failed_step(r, detail.as_str(), now);
                    },
                    OcrOutcome::Recognised(pages, failed) => {
                        match failed {
                            None => {
                                r = ocr_pages_step(r, &pages, now);
                            },
                            Some((path, detail)) => {
                                r = ocr_failed_step(r, &pages, path.as_str(), detail.as_str(), now);
                            },
                        }
                    },
                }
            },
            _ => {},
        }
    }
    let ghost r3 = r;
    proof {
        assert(is_prefix(r1.protocol@, r3.protocol@)) by {
            assert(r3.protocol@.subrange(0, r1.protocol@.len() as int) =~= r1.protocol@);
        }
    }
    let r4 = parse_step(r, now);
    proof {
        let tail = protocol_line(now@, "start parse"@) + protocol_line(now@, "end OCR"@);
        assert(r4.protocol@ =~= r3.protocol@ + tail);
        assert(r4.protocol@.subrange(r4.protocol@.len() - tail.len(), r4.protocol@.len() as int) =~= tail);
        assert(r4.protocol@.subrange(0, r1.protocol@.len() as int) =~= r1.protocol@);
        if !stages_of(r0.status@).0 {
            assert(r4.protocol@.subrange(0, r0.protocol@.len() as int) =~= r0.protocol@);
        }
    }
    r4
}

/// The Ghostscript command that renders a PDF's pages as JPEG images at
/// 1200 dpi, named `<path><id>page001.jpg` and so on.
pub fn gs_command(path: &str, id: &str, file: &Option<String>) -> (r: String)
    ensures
        r@ == "gs -dSAFER -dBATCH -dNOPAUSE -r1200 -sDEVICE=jpeg  -sOutputFile="@ + path@ + id@
            + "page%03d.jpg  "@ + path@ + or_empty(*file),
{
    let f = match file {
        Some(f) => f.clone(),
        None => String::new(),
    };
    let a = concat_text("gs -dSAFER -dBATCH -dNOPAUSE -r1200 -sDEVICE=jpeg  -sOutputFile=", path);
    let b = concat_text(a.as_str(), id);
    let c = concat_text(b.as_str(), "page%03d.jpg  ");
    let d = concat_text(c.as_str(), path);
    concat_text(d.as_str(), f.as_str())
}

/// The Tesseract command that recognises German text in one page image and
/// writes it next to the image.
pub fn tesseract_command(jpeg_file: &str, debug_file: &str, config_file: &str) -> (r: String)
    ensures
        r@ == "tesseract "@ + jpeg_file@ + " "@ + jpeg_file@ + " -l deu -c debug_file="@
            + debug_file@ + " "@ + config_file@,
{
    let a = concat_text("tesseract ", jpeg_file);
    let b = concat_text(a.as_str(), " ");
    let c = concat_text(b.as_str(), jpeg_file);
    let d = concat_text(c.as_str(), " -l deu -c debug_file=");
    let e = concat_text(d.as_str(), debug_file);
    let f = concat_text(e.as_str(), " ");
    concat_text(f.as_str(), config_file)
}

/// A file of the document folder is a page image of the document: its path
/// contains the image prefix and `.jpg`, but not `.jpg.txt`.
pub fn jpeg_page_selected(path: &str, prefix: &str) -> (r: bool)
    ensures
        r == (contains_text(path@, prefix@) && contains_text(path@, ".jpg"@) && !contains_text(
            path@,
            ".jpg.txt"@,
        )),
{
    contains(path, prefix) && contains(path, ".jpg") && !contains(path, ".jpg.txt")
}

} // verus!
