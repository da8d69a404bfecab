//! The decisions of mail import: the XOAUTH2 login text, the address lists
//! stored with a document, the collection of a mail's text, the detection of
//! PDF attachments, and how a mail with several attachments becomes several
//! documents.

use vstd::prelude::*;
use vstd::utf8::{decode_utf8, valid_utf8};

use crate::engines::{
    is_uuid_text, lower_text, new_uuid, opt_text, parse_url_query, text_pairs, to_lowercase,
    url_query, utf8_text,
};
use crate::query::{first_two_words, word_or_empty};
use crate::text::{
    chars_to_string, concat_text, contains, contains_text, occurs_at, replace_text, replace_text_spec,
    str_chars, chars_match_at, text_eq,
};

verus! {

/// The credentials for a Gmail login with an access token.
pub struct GmailOAuth2 {
    pub user: String,
    pub access_token: String,
}

impl GmailOAuth2 {
    /// The XOAUTH2 response `user=<user>\x01auth=Bearer <token>\x01\x01`;
    /// the server's challenge `data` is not read.
    pub fn process(&self, data: &[u8]) -> (r: String)
        ensures
            r@ == "user="@ + self.user@ + "\x01auth=Bearer "@ + self.access_token@ + "\x01\x01"@,
    {
        let a = concat_text("user=", self.user.as_str());
        let b = concat_text(a.as_str(), "\x01auth=Bearer ");
        let c = concat_text(b.as_str(), self.access_token.as_str());
        concat_text(c.as_str(), "\x01\x01")
    }
}

/// The text of UTF-8 bytes, or the empty text where they are not UTF-8.
pub open spec fn utf8_or_empty(b: Seq<u8>) -> Seq<char> {
    if valid_utf8(b) {
        decode_utf8(b)
    } else {
        Seq::empty()
    }
}

/// Decodes UTF-8 bytes; invalid bytes give the empty text.
pub fn ut8_str(i_u8: &[u8]) -> (r: String)
    ensures
        r@ == utf8_or_empty(i_u8@),
{
    match utf8_text(i_u8) {
        Some(s) => s,
        None => String::new(),
    }
}

/// One address of a mail envelope, each part as raw bytes.
pub struct MailAddress {
    pub name: Option<Vec<u8>>,
    pub mailbox: Option<Vec<u8>>,
    pub host: Option<Vec<u8>>,
}

/// An address with name, mailbox and host.
pub open spec fn address_complete(a: MailAddress) -> bool {
    a.name is Some && a.mailbox is Some && a.host is Some
}

/// `{"name":"<name>", "email": "<mailbox>@<host>"}` for a complete address.
pub open spec fn address_json(a: MailAddress) -> Seq<char> {
    "{\"name\":\""@ + utf8_or_empty(a.name->Some_0@) + "\", \"email\": \""@ + utf8_or_empty(
        a.mailbox->Some_0@,
    ) + "@"@ + utf8_or_empty(a.host->Some_0@) + "\"}"@
}

/// The first `n` addresses, each as `address_json`, separated by commas.
pub open spec fn addresses_joined(v: Seq<MailAddress>, n: int) -> Seq<char>
    decreases n,
{
    if n <= 0 {
        Seq::empty()
    } else if n == 1 {
        address_json(v[0])
    } else {
        addresses_joined(v, n - 1) + ","@ + address_json(v[n - 1])
    }
}

/// The number of leading complete addresses.
pub open spec fn complete_prefix(v: Seq<MailAddress>, n: int) -> bool {
    &&& 0 <= n <= v.len()
    &&& forall|i: int| 0 <= i < n ==> address_complete(#[trigger] v[i])
    &&& n < v.len() ==> !address_complete(v[n])
}

/// The address list as stored with a document: the leading complete
/// addresses as a JSON-like list; the list ends at the first address that
/// lacks a part.
pub open spec fn addresses_text(v: Seq<MailAddress>, n: int) -> Seq<char> {
    "["@ + addresses_joined(v, n) + "]"@
}

/// The address list of `i_vec`, see `addresses_text`; `n` is where the
/// leading complete addresses end.
pub fn vec_str(i_vec: &Vec<MailAddress>) -> (r: String)
    ensures
        exists|n: int| complete_prefix(i_vec@, n) && r@ == addresses_text(i_vec@, n),
{
    let mut e_str = String::new();
    let mut count: usize = 0;
    while count < i_vec.len()
        invariant
            count <= i_vec@.len(),
            forall|i: int| 0 <= i < count ==> address_complete(#[trigger] i_vec@[i]),
            e_str@ == addresses_joined(i_vec@, count as int),
        ensures
            count <= i_vec@.len(),
            forall|i: int| 0 <= i < count ==> address_complete(#[trigger] i_vec@[i]),
            e_str@ == addresses_joined(i_vec@, count as int),
            count < i_vec@.len() ==> !address_complete(i_vec@[count as int]),
        decreases i_vec@.len() - count,
    {
        let a = &i_vec[count];
        if a.name.is_none() || a.mailbox.is_none() || a.host.is_none() {
            break ;
        }
        if count > 0 {
            e_str = concat_text(e_str.as_str(), ",");
        }
        let name = ut8_str(a.name.as_ref().unwrap().as_slice());
        let mailbox = ut8_str(a.mailbox.as_ref().unwrap().as_slice());
        let host = ut8_str(a.host.as_ref().unwrap().as_slice());
        let p1 = concat_text("{\"name\":\"", name.as_str());
        let p2 = concat_text(p1.as_str(), "\", \"email\": \"");
        let p3 = concat_text(p2.as_str(), mailbox.as_str());
        let p4 = concat_text(p3.as_str(), "@");
        let p5 = concat_text(p4.as_str(), host.as_str());
        let entry = concat_text(p5.as_str(), "\"}");
        assert(entry@ == address_json(i_vec@[count as int]));
        let ghost before = e_str@;
        e_str = concat_text(e_str.as_str(), entry.as_str());
        proof {
            if count == 0 {
                assert(before =~= Seq::<char>::empty());
                assert(e_str@ =~= address_json(i_vec@[0]));
            }
        }
        count = count + 1;
    }
    assert(complete_prefix(i_vec@, count as int));
    let a = concat_text("[", e_str.as_str());
    concat_text(a.as_str(), "]")
}

/// The body after a mail part: a `text/` part's body is appended to the
/// body so far (a missing body counting as empty); other parts leave it.
pub open spec fn body_after_part(old: Option<Seq<char>>, mimetype: Seq<char>, body: Option<Seq<char>>) -> Option<Seq<char>> {
    if contains_text(mimetype, "text/"@) {
        Some(
            match old {
                Some(o) => o,
                None => Seq::empty(),
            } + match body {
                Some(b) => b,
                None => Seq::empty(),
            },
        )
    } else {
        old
    }
}

/// Adds a mail part's decoded body (`None` where it could not be decoded)
/// to the document body when the part's MIME type is a text type.
pub fn processed_text(i_doc_body_old: Option<String>, mimetype: &str, body: Option<String>) -> (r: Option<String>)
    ensures
        opt_text(r) == body_after_part(opt_text(i_doc_body_old), mimetype@, opt_text(body)),
{
    if contains(mimetype, "text/") {
        let old = match i_doc_body_old {
            Some(o) => o,
            None => String::new(),
        };
        let b = match body {
            Some(b) => b,
            None => String::new(),
        };
        Some(concat_text(old.as_str(), b.as_str()))
    } else {
        i_doc_body_old
    }
}

/// The marker of the file name in a header value.
pub const FILENAME_MARK: &'static str = "filename=";

/// `i` is the first index at which `p` occurs in `s`.
pub open spec fn is_first_occurrence(s: Seq<char>, p: Seq<char>, i: int) -> bool {
    &&& occurs_at(s, p, i)
    &&& forall|j: int| 0 <= j < i ==> !occurs_at(s, p, j)
}

/// A header value that announces an attachment with a file name.
pub open spec fn is_attachment_header(h: Seq<char>) -> bool {
    contains_text(h, "attachment;"@) && contains_text(h, FILENAME_MARK@)
}

/// The file name of an attachment header: what follows the first
/// `filename=`, without double quotes.
pub open spec fn header_file_name(h: Seq<char>) -> Seq<char> {
    let i = choose|i: int| is_first_occurrence(h, FILENAME_MARK@, i);
    replace_text_spec(h.skip(i + FILENAME_MARK@.len()), "\""@, ""@)
}

/// What a mail part's headers say about an attachment.
pub enum Attachment {
    /// No header announces an attachment with a file name.
    NoAttachment,
    /// An attachment that is not a PDF file, with its name.
    Other(String),
    /// A PDF attachment, with its name.
    Pdf(String),
}

/// The first header that announces an attachment decides: its file name,
/// and whether that name, lower-cased, contains `.pdf`.
pub open spec fn attachment_of(headers: Seq<Seq<char>>) -> Option<(Seq<char>, bool)> {
    if exists|i: int| 0 <= i < headers.len() && is_attachment_header(#[trigger] headers[i]) {
        let i = choose|i: int|
            0 <= i < headers.len() && is_attachment_header(#[trigger] headers[i]) && forall|j: int|
                0 <= j < i ==> !is_attachment_header(#[trigger] headers[j]);
        let name = header_file_name(headers[i]);
        Some((name, contains_text(lower_text(name), ".pdf"@)))
    } else {
        None
    }
}

/// The first index of `p` in `s`, which must occur.
fn first_occurrence(s: &str, p: &str) -> (r: usize)
    requires
        contains_text(s@, p@),
    ensures
        is_first_occurrence(s@, p@, r as int),
{
    let sv = str_chars(s);
    let pv = str_chars(p);
    let mut i: usize = 0;
    while i < sv.len()
        invariant
            sv@ == s@,
            pv@ == p@,
            i <= sv@.len(),
            contains_text(s@, p@),
            forall|j: int| 0 <= j < i ==> !occurs_at(s@, p@, j),
        decreases sv@.len() - i,
    {
        if chars_match_at(sv.as_slice(), pv.as_slice(), i) {
            return i;
        }
        i = i + 1;
    }
    let ghost w = choose|j: int| occurs_at(s@, p@, j);
    assert(occurs_at(s@, p@, w));
    if pv.len() == 0 && chars_match_at(sv.as_slice(), pv.as_slice(), i) {
        return i;
    }
    assert(false);
    0
}

/// The attachment a mail part's headers announce: the first header value
/// containing `attachment;` and `filename=` gives the name (after the first
/// `filename=`, quotes removed); a name that contains `.pdf` when
/// lower-cased is a PDF. Storing the PDF is left to the caller.
pub fn processed_attachment(header_values: &Vec<String>) -> (r: Attachment)
    ensures
        match r {
            Attachment::NoAttachment => attachment_of(header_values.deep_view()) is None,
            Attachment::Other(n) => attachment_of(header_values.deep_view()) == Some((n@, false)),
            Attachment::Pdf(n) => attachment_of(header_values.deep_view()) == Some((n@, true)),
        },
{
    let ghost hv = header_values.deep_view();
    let mut k: usize = 0;
    while k < header_values.len()
        invariant
            k <= header_values@.len(),
            hv == header_values.deep_view(),
            forall|j: int| 0 <= j < k ==> !is_attachment_header(#[trigger] hv[j]),
        decreases header_values@.len() - k,
    {
        let h = header_values[k].as_str();
        assert(hv[k as int] == h@);
        if contains(h, "attachment;") && contains(h, FILENAME_MARK) {
            let pos = first_occurrence(h, FILENAME_MARK);
            let ghost c = choose|i: int| is_first_occurrence(h@, FILENAME_MARK@, i);
            assert(c == pos as int) by {
                if c < pos {
                    assert(!occurs_at(h@, FILENAME_MARK@, c));
                } else if c > pos {
                    assert(!occurs_at(h@, FILENAME_MARK@, pos as int));
                }
            }
            let hc = str_chars(h);
            let mark = str_chars(FILENAME_MARK);
            let hn = hc.len();
            assert(pos + mark@.len() <= hn);
            let start = pos + mark.len();
            let mut rest: Vec<char> = Vec::new();
            let mut m = start;
            while m < hc.len()
                invariant
                    start <= m <= hc@.len(),
                    rest@ == hc@.subrange(start as int, m as int),
                decreases hc@.len() - m,
            {
                rest.push(hc[m]);
                m = m + 1;
                assert(hc@.subrange(start as int, m as int) =~= hc@.subrange(start as int, m - 1).push(
                    hc@[m - 1],
                ));
            }
            assert(rest@ =~= h@.skip(start as int));
            let rest_text = chars_to_string(rest.as_slice());
            let name = replace_text(rest_text.as_str(), "\"", "");
            let lower = to_lowercase(name.as_str());
            let ghost i0 = k as int;
            let ghost ci = choose|i: int|
                0 <= i < hv.len() && is_attachment_header(#[trigger] hv[i]) && forall|j: int|
                    0 <= j < i ==> !is_attachment_header(#[trigger] hv[j]);
            assert(0 <= i0 < hv.len() && is_attachment_header(hv[i0]) && forall|j: int|
                0 <= j < i0 ==> !is_attachment_header(#[trigger] hv[j]));
            assert(ci == i0) by {
                if ci < i0 {
                    assert(!is_attachment_header(hv[ci]));
                } else if ci > i0 {
                    assert(!is_attachment_header(hv[i0]));
                }
            }
            if contains(lower.as_str(), ".pdf") {
                return Attachment::Pdf(name);
            } else {
                return Attachment::Other(name);
            }
        }
        k = k + 1;
    }
    Attachment::NoAttachment
}

/// `r` is a fresh stored attachment name: a random identifier followed by
/// `.pdf`.
pub open spec fn is_attachment_file_name(r: Seq<char>) -> bool {
    &&& r.len() == 40
    &&& is_uuid_text(r.take(36))
    &&& r.skip(36) == ".pdf"@
}

/// The name under which a PDF attachment is stored: a fresh identifier with
/// `.pdf`.
pub fn attachment_file_name() -> (r: String)
    ensures
        is_attachment_file_name(r@),
{
    let u = new_uuid();
    let r = concat_text(u.as_str(), ".pdf");
    proof {
        reveal_strlit(".pdf");
        assert(r@.take(36) =~= u@);
        assert(r@.skip(36) =~= ".pdf"@);
    }
    r
}

/// What a mail part adds to the mail's documents once its attachment is
/// stored: no name and no file without an attachment; the name alone for an
/// attachment that is not a PDF; the name and a fresh stored file name for a
/// PDF.
pub fn attachment_entry(a: Attachment) -> (r: (Option<String>, Option<String>))
    ensures
        match a {
            Attachment::NoAttachment => r.0 is None && r.1 is None,
            Attachment::Other(n) => r.0 == Some(n) && r.1 is None,
            Attachment::Pdf(n) => r.0 == Some(n) && (r.1 matches Some(f) && is_attachment_file_name(f@)),
        },
{
    match a {
        Attachment::NoAttachment => (None, None),
        Attachment::Other(n) => (Some(n), None),
        Attachment::Pdf(n) => (Some(n), Some(attachment_file_name())),
    }
}

/// One part of a parsed mail: its MIME type, its decoded body (`None` where
/// it could not be decoded), the values of its headers and its own parts.
pub struct MailPart {
    pub mimetype: String,
    pub body: Option<String>,
    pub headers: Vec<String>,
    pub subparts: Vec<MailPart>,
}

/// What an attachment result says: its name and whether it is a PDF.
pub open spec fn attachment_model(a: Attachment) -> Option<(Seq<char>, bool)> {
    match a {
        Attachment::NoAttachment => None,
        Attachment::Other(n) => Some((n@, false)),
        Attachment::Pdf(n) => Some((n@, true)),
    }
}

/// The parts below a mail's root in the order the import visits them, for
/// the first `n` parts of the root: each part, then that part's own parts.
pub open spec fn visited_parts(subs: Seq<MailPart>, n: int) -> Seq<MailPart>
    decreases n,
{
    if n <= 0 {
        Seq::empty()
    } else {
        visited_parts(subs, n - 1) + seq![subs[n - 1]] + subs[n - 1].subparts@
    }
}

/// The body after the parts `parts` were read in order, see `body_after_part`.
pub open spec fn body_after_parts(old: Option<Seq<char>>, parts: Seq<MailPart>) -> Option<Seq<char>>
    decreases parts.len(),
{
    if parts.len() == 0 {
        old
    } else {
        let p = parts.last();
        body_after_part(body_after_parts(old, parts.drop_last()), p.mimetype@, opt_text(p.body))
    }
}

fn clone_text(o: &Option<String>) -> (r: Option<String>)
    ensures
        r == *o,
{
    match o {
        Some(t) => Some(t.clone()),
        None => None,
    }
}

/// Reads a parsed mail as the import does: the root's text, then each of
/// its parts and each part of those, in order, adding their text to the
/// body; every part below the root is also examined for an attachment.
/// Gives the body and, for each part below the root in that order, what it
/// holds as an attachment.
pub fn mail_parts(root: &MailPart, initial_body: Option<String>) -> (r: (Option<String>, Vec<Attachment>))
    ensures
        ({
            let subs = root.subparts@;
            let vp = visited_parts(subs, subs.len() as int);
            let b0 = body_after_part(opt_text(initial_body), root.mimetype@, opt_text(root.body));
            &&& opt_text(r.0) == body_after_parts(b0, vp)
            &&& r.1@.len() == vp.len()
            &&& forall|k: int|
                0 <= k < vp.len() ==> attachment_model(#[trigger] r.1@[k]) == attachment_of(
                    vp[k].headers.deep_view(),
                )
        }),
{
    let ghost subs = root.subparts@;
    let mut body = processed_text(initial_body, root.mimetype.as_str(), clone_text(&root.body));
    let ghost b0 = opt_text(body);
    let mut atts: Vec<Attachment> = Vec::new();
    let ghost mut seen: Seq<MailPart> = Seq::empty();
    let mut i: usize = 0;
    while i < root.subparts.len()
        invariant
            i <= subs.len(),
            subs == root.subparts@,
            seen == visited_parts(subs, i as int),
            opt_text(body) == body_after_parts(b0, seen),
            atts@.len() == seen.len(),
            forall|k: int|
                0 <= k < seen.len() ==> attachment_model(#[trigger] atts@[k]) == attachment_of(
                    seen[k].headers.deep_view(),
                ),
        decreases subs.len() - i,
    {
        let part = &root.subparts[i];
        body = processed_text(body, part.mimetype.as_str(), clone_text(&part.body));
        let a = processed_attachment(&part.headers);
        atts.push(a);
        proof {
            let s2 = seen.push(*part);
            assert(s2.drop_last() =~= seen);
            seen = s2;
        }
        let ghost base = seen;
        let mut j: usize = 0;
        while j < part.subparts.len()
            invariant
                j <= part.subparts@.len(),
                seen == base + part.subparts@.take(j as int),
                opt_text(body) == body_after_parts(b0, seen),
                atts@.len() == seen.len(),
                forall|k: int|
                    0 <= k < seen.len() ==> attachment_model(#[trigger] atts@[k]) == attachment_of(
                        seen[k].headers.deep_view(),
                    ),
            decreases part.subparts@.len() - j,
        {
            let pp = &part.subparts[j];
            body = processed_text(body, pp.mimetype.as_str(), clone_text(&pp.body));
            let a2 = processed_attachment(&pp.headers);
            atts.push(a2);
            proof {
                let s3 = seen.push(*pp);
                assert(s3.drop_last() =~= seen);
                assert(base + part.subparts@.take(j + 1) =~= s3);
                seen = s3;
            }
            j = j + 1;
        }
        proof {
            assert(part.subparts@.take(j as int) =~= part.subparts@);
            assert(subs[i as int] == *part);
            assert(visited_parts(subs, i + 1) =~= seen);
        }
        i = i + 1;
    }
    (body, atts)
}

/// One document made from a mail.
pub struct MailDocument {
    pub id: String,
    pub parent_document: Option<String>,
    pub filename: Option<String>,
    pub file: Option<String>,
    pub file_extension: Option<String>,
}

/// Some of the first `n` stored files is present.
pub open spec fn some_file_before(files: Seq<(Option<String>, Option<String>)>, n: int) -> bool {
    exists|j: int| 0 <= j < n && (#[trigger] files[j]).1 is Some
}

/// The documents of one mail: one per stored attachment, or a single one
/// without file when there is none. The first keeps the mail's identifier;
/// every further one gets a fresh identifier and the first as its parent.
/// Once a file was present, the extension is `PDF`; before that it is the
/// given one.
pub open spec fn mail_documents_ok(
    first_id: Seq<char>,
    extension: Option<Seq<char>>,
    files: Seq<(Option<String>, Option<String>)>,
    docs: Seq<MailDocument>,
) -> bool {
    let fs = if files.len() == 0 {
        seq![(None::<String>, None::<String>)]
    } else {
        files
    };
    &&& docs.len() == fs.len()
    &&& forall|i: int|
        0 <= i < docs.len() ==> {
            let d = #[trigger] docs[i];
            &&& (i == 0 ==> d.id@ == first_id && d.parent_document is None)
            &&& (i > 0 ==> is_uuid_text(d.id@) && opt_text(d.parent_document) == Some(first_id))
            &&& opt_text(d.filename) == opt_text(fs[i].0)
            &&& opt_text(d.file) == opt_text(fs[i].1)
            &&& opt_text(d.file_extension) == if some_file_before(fs, i + 1) {
                Some("PDF"@)
            } else {
                extension
            }
        }
}

/// Splits a mail into documents, see `mail_documents_ok`; `vec_filename`
/// holds the (name, stored file) of each stored attachment.
pub fn mail_documents(
    first_id: String,
    file_extension: Option<String>,
    vec_filename: Vec<(Option<String>, Option<String>)>,
) -> (r: Vec<MailDocument>)
    ensures
        mail_documents_ok(first_id@, opt_text(file_extension), vec_filename@, r@),
{
    let mut files = vec_filename;
    if files.len() == 0 {
        files.push((None, None));
        assert(files@ =~= seq![(None::<String>, None::<String>)]);
    }
    let ghost fs = files@;
    let mut docs: Vec<MailDocument> = Vec::new();
    let mut ext = file_extension;
    let ghost ext0 = opt_text(ext);
    let mut k: usize = 0;
    while k < files.len()
        invariant
            fs == files@,
            k <= fs.len(),
            docs@.len() == k,
            ext0 == opt_text(file_extension),
            opt_text(ext) == if some_file_before(fs, k as int) {
                Some("PDF"@)
            } else {
                ext0
            },
            forall|i: int|
                0 <= i < k ==> {
                    let d = #[trigger] docs@[i];
                    &&& (i == 0 ==> d.id@ == first_id@ && d.parent_document is None)
                    &&& (i > 0 ==> is_uuid_text(d.id@) && opt_text(d.parent_document) == Some(
                        first_id@,
                    ))
                    &&& opt_text(d.filename) == opt_text(fs[i].0)
                    &&& opt_text(d.file) == opt_text(fs[i].1)
                    &&& opt_text(d.file_extension) == if some_file_before(fs, i + 1) {
                        Some("PDF"@)
                    } else {
                        ext0
                    }
                },
        decreases fs.len() - k,
    {
        let (id, parent) = if k == 0 {
            (first_id.clone(), None)
        } else {
            (new_uuid(), Some(first_id.clone()))
        };
        let filename = files[k].0.clone();
        let file = files[k].1.clone();
        if file.is_some() {
            ext = Some("PDF".to_owned());
        }
        proof {
            if file.is_some() {
                assert(some_file_before(fs, k + 1));
            } else if some_file_before(fs, k + 1) {
                let j = choose|j: int| 0 <= j < k + 1 && (#[trigger] fs[j]).1 is Some;
                assert(j < k);
                assert(some_file_before(fs, k as int));
            } else {
                if some_file_before(fs, k as int) {
                    let j = choose|j: int| 0 <= j < k && (#[trigger] fs[j]).1 is Some;
                    assert(some_file_before(fs, k + 1));
                }
            }
        }
        assert(opt_text(filename) == opt_text(fs[k as int].0));
        assert(opt_text(file) == opt_text(fs[k as int].1));
        docs.push(
            MailDocument {
                id,
                parent_document: parent,
                filename,
                file,
                file_extension: ext.clone(),
            },
        );
        k = k + 1;
    }
    docs
}

/// The owner of a document: the mail address in lower case.
pub fn owner_of(email: &str) -> (r: String)
    ensures
        r@ == lower_text(email@),
{
    to_lowercase(email)
}


/// The value of the first pair from `i` on whose key is `key`, or the empty
/// text where none is.
pub open spec fn first_value_from(pairs: Seq<(Seq<char>, Seq<char>)>, key: Seq<char>, i: int) -> Seq<char>
    decreases pairs.len() - i,
{
    if i < 0 || i >= pairs.len() {
        Seq::empty()
    } else if pairs[i].0 == key {
        pairs[i].1
    } else {
        first_value_from(pairs, key, i + 1)
    }
}

/// The value of the first pair whose key is `key`, or the empty text.
pub open spec fn first_value(pairs: Seq<(Seq<char>, Seq<char>)>, key: Seq<char>) -> Seq<char> {
    first_value_from(pairs, key, 0)
}

fn find_value(pairs: &Vec<(String, String)>, key: &str) -> (r: String)
    ensures
        r@ == first_value(text_pairs(*pairs), key@),
{
    let ghost tp = text_pairs(*pairs);
    let mut k: usize = 0;
    while k < pairs.len()
        invariant
            k <= pairs@.len(),
            tp == text_pairs(*pairs),
            first_value(tp, key@) == first_value_from(tp, key@, k as int),
        decreases pairs@.len() - k,
    {
        assert(tp[k as int] == (pairs@[k as int].0@, pairs@[k as int].1@));
        if text_eq(pairs[k].0.as_str(), key) {
            return pairs[k].1.clone();
        }
        k = k + 1;
    }
    String::new()
}

/// What the login redirect brought back: the authorization code, the state,
/// and the error, each empty where the redirect did not carry it.
pub struct RedirectReply {
    pub code: String,
    pub state: String,
    pub error: String,
}

/// The URL a redirect target is read in.
pub open spec fn redirect_url(target: Seq<char>) -> Seq<char> {
    "http://localhost"@ + target
}

/// Reads the request line of the login redirect (`GET <target> HTTP/1.1`):
/// nothing where it has no target; the URL's error text where the target
/// cannot be read; else the first `code`, `state` and `error` parameters.
pub fn redirect_reply(request_line: &str) -> (r: Option<Result<RedirectReply, String>>)
    ensures
        word_or_empty(request_line@, 1).len() == 0 ==> r is None,
        word_or_empty(request_line@, 1).len() > 0 ==> match url_query(
            redirect_url(word_or_empty(request_line@, 1)),
        ) {
            Err(e) => r matches Some(Err(m)) && m@ == e,
            Ok(pairs) => r matches Some(Ok(p)) && p.code@ == first_value(pairs, "code"@)
                && p.state@ == first_value(pairs, "state"@) && p.error@ == first_value(
                pairs,
                "error"@,
            ),
        },
{
    let (_method, target) = first_two_words(request_line);
    if str_chars(target.as_str()).len() == 0 {
        return None;
    }
    let url = concat_text("http://localhost", target.as_str());
    match parse_url_query(url.as_str()) {
        Err(e) => Some(Err(e)),
        Ok(pairs) => {
            let code = find_value(&pairs, "code");
            let state = find_value(&pairs, "state");
            let error = find_value(&pairs, "error");
            Some(Ok(RedirectReply { code, state, error }))
        },
    }
}

} // verus!
