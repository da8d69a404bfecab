//! Moving the records of the former archive format into documents: which
//! documents a record becomes, and how its stored texts are carried over.

use vstd::prelude::*;

use crate::files::or_empty;
use crate::text::{chars_to_string, contains, contains_text, concat_text, decimal_spec, decimal_text, str_chars};

verus! {

/// The date that the former format stored for "never deleted".
pub const NULL_DATE: &'static str = "0001-01-01";

/// A file of a former record.
pub struct Attachment {
    pub id: i32,
    pub filename: Option<String>,
    pub file: Option<String>,
    pub ocr_data: Option<String>,
    pub jpg_file: Option<String>,
    pub record_refer: String,
}

/// A mail partner of a former record.
pub struct Email {
    pub id: i32,
    pub name: Option<String>,
    pub email_partner: Option<String>,
    pub id_partner: Option<String>,
    pub record_refer: String,
}

/// A mail account of the former format.
pub struct MailDataOld {
    pub email: String,
    pub mail_box: Option<String>,
    pub token_access_token: Option<String>,
    pub token_token_type: Option<String>,
    pub token_refresh_token: Option<String>,
    pub token_expiry: Option<String>,
}

/// Sender or recipient of a migrated document.
pub struct Partner {
    pub name: String,
    pub email: String,
}

/// One document that a former record becomes, as far as it differs between
/// the documents of the record.
pub struct MigratedFile {
    pub id: String,
    pub parent_document: Option<String>,
    pub filename: Option<String>,
    pub file: Option<String>,
    pub ocr_data: Option<String>,
    pub jpg_file: String,
}

/// The deletion date of a former record: none where it had none, or where it
/// held the "never deleted" date.
pub open spec fn deleted_at_spec(d: Option<String>) -> Option<String> {
    match d {
        None => None,
        Some(s) => if contains_text(s@, NULL_DATE@) {
            None
        } else {
            Some(s)
        },
    }
}

/// Maps the deletion date of a former record.
pub fn get_deleted_at(i_date: Option<String>) -> (r: Option<String>)
    ensures
        r == deleted_at_spec(i_date),
{
    match i_date {
        None => None,
        Some(my_date) => {
            if contains(my_date.as_str(), NULL_DATE) {
                None
            } else {
                Some(my_date)
            }
        },
    }
}

/// A curly bracket turned into the square one; every other character kept.
pub open spec fn square_bracket(c: char) -> char {
    if c == '{' {
        '['
    } else if c == '}' {
        ']'
    } else {
        c
    }
}

/// A text with its curly brackets turned into square ones.
pub open spec fn squared_text(s: Seq<char>) -> Seq<char> {
    s.map_values(|c: char| square_bracket(c))
}

/// Turns the curly brackets of a stored list into square ones, so that an
/// object-shaped list reads as an array.
pub fn conv_obj_to_array(i_data: String) -> (r: String)
    ensures
        r@ == squared_text(i_data@),
{
    let v = str_chars(i_data.as_str());
    let mut out: Vec<char> = Vec::new();
    let mut k: usize = 0;
    while k < v.len()
        invariant
            k <= v@.len(),
            out@.len() == k,
            forall|j: int| 0 <= j < k ==> out@[j] == square_bracket(#[trigger] v@[j]),
        decreases v@.len() - k,
    {
        let c = v[k];
        let d = if c == '{' {
            '['
        } else if c == '}' {
            ']'
        } else {
            c
        };
        out.push(d);
        k = k + 1;
    }
    assert(out@ =~= squared_text(v@));
    chars_to_string(out.as_slice())
}

/// A stored list, the empty list where there was none.
pub open spec fn list_or_empty(o: Option<String>) -> Seq<char> {
    match o {
        Some(s) => s@,
        None => "[]"@,
    }
}

/// The categories of a former record as an array text.
pub fn category_array(category: Option<String>) -> (r: String)
    ensures
        r@ == squared_text(list_or_empty(category)),
{
    let text = match category {
        Some(s) => s,
        None => String::from_str("[]"),
    };
    conv_obj_to_array(text)
}

/// Name and address of the partner at `i` of a record's partners, both empty
/// where there is none or where it lacks them.
pub open spec fn partner_at(emails: Seq<Email>, i: int) -> (Seq<char>, Seq<char>) {
    if 0 <= i < emails.len() {
        (or_empty(emails[i].name), or_empty(emails[i].email_partner))
    } else {
        (Seq::empty(), Seq::empty())
    }
}

fn text_or_empty(o: &Option<String>) -> (r: String)
    ensures
        r@ == or_empty(*o),
{
    match o {
        Some(s) => s.clone(),
        None => String::new(),
    }
}

fn partner_of(emails: &Vec<Email>, i: usize) -> (r: Partner)
    ensures
        (r.name@, r.email@) == partner_at(emails@, i as int),
{
    if i < emails.len() {
        Partner { name: text_or_empty(&emails[i].name), email: text_or_empty(&emails[i].email_partner) }
    } else {
        Partner { name: String::new(), email: String::new() }
    }
}

/// Sender and recipient of a former record: its first and its second
/// partner.
pub fn partners_of(emails: &Vec<Email>) -> (r: (Partner, Partner))
    ensures
        (r.0.name@, r.0.email@) == partner_at(emails@, 0),
        (r.1.name@, r.1.email@) == partner_at(emails@, 1),
{
    (partner_of(emails, 0), partner_of(emails, 1))
}

/// How many documents a record with `n` files becomes: one without a file
/// where it has none; otherwise, as the files are taken from the last one
/// back while the document number does not exceed the files left, half of
/// them, rounded up.
pub open spec fn file_count(n: nat) -> nat {
    if n == 0 {
        1
    } else {
        ((n + 1) / 2) as nat
    }
}

/// The id of the document at `k` of a record: the record's own id for the
/// first, the id followed by the document's number (counted from 1) for the
/// others.
pub open spec fn migrated_id(record_id: Seq<char>, k: int) -> Seq<char> {
    if k == 0 {
        record_id
    } else {
        record_id + decimal_spec((k + 1) as nat)
    }
}

/// The first document of a record is the parent of all the others.
pub open spec fn migrated_parent(record_id: Seq<char>, k: int) -> Option<Seq<char>> {
    if k == 0 {
        None
    } else {
        Some(record_id)
    }
}

/// The file that the document at `k` carries: the files are taken from the
/// last one back.
pub open spec fn source_attachment(atts: Seq<Attachment>, k: int) -> Option<Attachment> {
    if atts.len() == 0 {
        None
    } else {
        Some(atts[atts.len() - 1 - k])
    }
}

/// The document at `k` of a record with id `record_id` and files `atts`.
pub open spec fn migrated_file_ok(
    f: MigratedFile,
    record_id: Seq<char>,
    atts: Seq<Attachment>,
    k: int,
) -> bool {
    &&& f.id@ == migrated_id(record_id, k)
    &&& crate::engines::opt_text(f.parent_document) == migrated_parent(record_id, k)
    &&& match source_attachment(atts, k) {
        None => {
            &&& f.filename is None
            &&& f.file is None
            &&& f.ocr_data is None
            &&& f.jpg_file@ == squared_text("[]"@)
        },
        Some(a) => {
            &&& f.filename == a.filename
            &&& f.file == a.file
            &&& f.ocr_data == a.ocr_data
            &&& f.jpg_file@ == squared_text(list_or_empty(a.jpg_file))
        },
    }
}

fn clone_opt(o: &Option<String>) -> (r: Option<String>)
    ensures
        r == *o,
{
    match o {
        Some(s) => Some(s.clone()),
        None => None,
    }
}

fn migrated_file_id(record_id: &String, k: usize) -> (r: String)
    requires
        k < usize::MAX,
    ensures
        r@ == migrated_id(record_id@, k as int),
{
    if k == 0 {
        record_id.clone()
    } else {
        let n = decimal_text((k + 1) as u64);
        concat_text(record_id.as_str(), n.as_str())
    }
}

/// The documents that a former record with id `record_id` and the files
/// `attachments` becomes.
pub fn migrated_files(record_id: &String, attachments: &Vec<Attachment>) -> (r: Vec<MigratedFile>)
    ensures
        r@.len() == file_count(attachments@.len()),
        forall|k: int|
            0 <= k < r@.len() ==> migrated_file_ok(#[trigger] r@[k], record_id@, attachments@, k),
{
    let n = attachments.len();
    let count: usize = if n == 0 {
        1
    } else {
        n / 2 + n % 2
    };
    let mut r: Vec<MigratedFile> = Vec::new();
    let mut k: usize = 0;
    while k < count
        invariant
            n == attachments@.len(),
            count == file_count(n as nat),
            k <= count,
            r@.len() == k,
            forall|j: int|
                0 <= j < k ==> migrated_file_ok(#[trigger] r@[j], record_id@, attachments@, j),
        decreases count - k,
    {
        let id = migrated_file_id(record_id, k);
        let parent = if k == 0 {
            None
        } else {
            Some(record_id.clone())
        };
        let f = if n == 0 {
            MigratedFile {
                id,
                parent_document: parent,
                filename: None,
                file: None,
                ocr_data: None,
                jpg_file: conv_obj_to_array(String::from_str("[]")),
            }
        } else {
            let a = &attachments[n - 1 - k];
            let jpg = match &a.jpg_file {
                Some(s) => s.clone(),
                None => String::from_str("[]"),
            };
            MigratedFile {
                id,
                parent_document: parent,
                filename: clone_opt(&a.filename),
                file: clone_opt(&a.file),
                ocr_data: clone_opt(&a.ocr_data),
                jpg_file: conv_obj_to_array(jpg),
            }
        };
        r.push(f);
        k = k + 1;
    }
    r
}

proof fn lemma_decimal_len(n: nat)
    ensures
        decimal_spec(n).len() >= 1,
        n >= 10 ==> decimal_spec(n).len() >= 2,
    decreases n,
{
    if n >= 10 {
        lemma_decimal_len(n / 10);
    }
}

proof fn lemma_digit_injective(x: int, y: int)
    requires
        0 <= x < 10,
        0 <= y < 10,
        crate::text::digit_char(x) == crate::text::digit_char(y),
    ensures
        x == y,
{
    assert(crate::text::digit_char(x) as int == 48 + x);
    assert(crate::text::digit_char(y) as int == 48 + y);
}

proof fn lemma_decimal_injective(a: nat, b: nat)
    requires
        decimal_spec(a) == decimal_spec(b),
    ensures
        a == b,
    decreases a,
{
    lemma_decimal_len(a);
    lemma_decimal_len(b);
    if a < 10 {
        if b < 10 {
            assert(decimal_spec(a) == seq![crate::text::digit_char(a as int)]);
            assert(decimal_spec(b) == seq![crate::text::digit_char(b as int)]);
            assert(decimal_spec(a)[0] == crate::text::digit_char(a as int));
            assert(decimal_spec(b)[0] == crate::text::digit_char(b as int));
            lemma_digit_injective(a as int, b as int);
        }
    } else {
        let da = decimal_spec(a / 10);
        let db = decimal_spec(b / 10);
        assert(decimal_spec(a) == da.push(crate::text::digit_char((a % 10) as int)));
        assert(da =~= decimal_spec(a).drop_last());
        if b >= 10 {
            assert(decimal_spec(b) == db.push(crate::text::digit_char((b % 10) as int)));
            assert(db =~= decimal_spec(b).drop_last());
        }
        if b >= 10 {
            assert(decimal_spec(a).last() == crate::text::digit_char((a % 10) as int));
            assert(decimal_spec(b).last() == crate::text::digit_char((b % 10) as int));
            lemma_digit_injective((a % 10) as int, (b % 10) as int);
            lemma_decimal_injective(a / 10, b / 10);
        }
    }
}

/// The documents that one former record becomes have pairwise distinct ids.
pub proof fn law_migrated_ids_are_distinct(record_id: Seq<char>, j: int, k: int)
    requires
        0 <= j < k,
    ensures
        migrated_id(record_id, j) != migrated_id(record_id, k),
{
    lemma_decimal_len((k + 1) as nat);
    if j == 0 {
        assert(migrated_id(record_id, k).len() > record_id.len());
    } else if migrated_id(record_id, j) == migrated_id(record_id, k) {
        lemma_decimal_len((j + 1) as nat);
        let dj = decimal_spec((j + 1) as nat);
        let dk = decimal_spec((k + 1) as nat);
        let l = record_id.len() as int;
        assert(migrated_id(record_id, j) == record_id + dj);
        assert(migrated_id(record_id, k) == record_id + dk);
        assert((record_id + dj).len() == (record_id + dk).len());
        assert(dj.len() == dk.len());
        assert(dj =~= migrated_id(record_id, j).subrange(l, l + dj.len()));
        assert(dk =~= migrated_id(record_id, k).subrange(l, l + dk.len()));
        lemma_decimal_injective((j + 1) as nat, (k + 1) as nat);
    }
}

} // verus!
