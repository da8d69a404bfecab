//! Where the archive keeps its files, which files a folder scan picks up,
//! and how an uploaded or scanned file becomes a stored document file.

use vstd::prelude::*;

use crate::engines::{
    is_uuid_text, new_uuid,
    base64_decode, base64_decoded, base64_encode, base64_encoded, compile_regex, lower_text,
    regex_compiles, regex_is_match, regex_matches, to_lowercase, to_uppercase, upper_text, Pattern,
};
use crate::text::{lemma_text_le_total_ordering, text_le, text_le_check, text_order, concat_text, contains, contains_text, decimal_spec, decimal_text, replace_text, replace_text_spec, str_chars, chars_to_string};

verus! {

/// The folder of the archive below the home folder.
pub const MAIN_PATH: &'static str = "archive_cat";
/// The database file.
pub const DATABASE_NAME: &'static str = "archive_cat.db";
/// The folder of the document files below the archive folder.
pub const FILE_PATH: &'static str = "data";
/// The file of the application's settings.
pub const APP_DATA_FILENAME: &'static str = ".archive_cat";

/// An optional text, the empty text where it is missing.
pub open spec fn or_empty(o: Option<String>) -> Seq<char> {
    match o {
        Some(s) => s@,
        None => Seq::empty(),
    }
}

fn text_or_empty(o: &Option<String>) -> (r: String)
    ensures
        r@ == or_empty(*o),
{
    match o {
        Some(s) => s.clone(),
        None => String::new(),
    }
}

/// `sqlite://<home>/<database_filename>`.
pub fn database_url(home: &str, database_filename: &str) -> (r: String)
    ensures
        r@ == "sqlite://"@ + home@ + "/"@ + database_filename@,
{
    let a = concat_text("sqlite://", home);
    let b = concat_text(a.as_str(), "/");
    concat_text(b.as_str(), database_filename)
}

/// The folder of the document files below `base`: `<base>/archive_cat/data/`.
pub open spec fn data_dir(base: Seq<char>) -> Seq<char> {
    base + "/"@ + MAIN_PATH@ + "/"@ + FILE_PATH@ + "/"@
}

fn data_dir_exec(base: &str) -> (r: String)
    ensures
        r@ == data_dir(base@),
{
    let a = concat_text(base, "/");
    let b = concat_text(a.as_str(), MAIN_PATH);
    let c = concat_text(b.as_str(), "/");
    let d = concat_text(c.as_str(), FILE_PATH);
    concat_text(d.as_str(), "/")
}

/// The folder of a document's files: `<base>/archive_cat/data/<sub_path>`.
pub fn document_dir_path(base: &str, sub_path: &Option<String>) -> (r: String)
    ensures
        r@ == data_dir(base@) + or_empty(*sub_path),
{
    let d = data_dir_exec(base);
    let s = text_or_empty(sub_path);
    concat_text(d.as_str(), s.as_str())
}

/// A document's file: `<base>/archive_cat/data/<sub_path><file>`.
pub fn document_file_path(base: &str, sub_path: &Option<String>, file: &Option<String>) -> (r: String)
    ensures
        r@ == data_dir(base@) + or_empty(*sub_path) + or_empty(*file),
{
    let d = document_dir_path(base, sub_path);
    let f = text_or_empty(file);
    concat_text(d.as_str(), f.as_str())
}

/// A document's JSON copy: `<base>/archive_cat/data/<sub_path><id>.json`.
pub fn json_file_path(base: &str, sub_path: &Option<String>, id: &str) -> (r: String)
    ensures
        r@ == data_dir(base@) + or_empty(*sub_path) + id@ + ".json"@,
{
    let d = document_dir_path(base, sub_path);
    let a = concat_text(d.as_str(), id);
    concat_text(a.as_str(), ".json")
}

/// The owner filter of a query: `%` (everyone) or the lower-cased address.
pub fn owner_pattern(all_owner: bool, email: &str) -> (r: String)
    ensures
        r@ == if all_owner {
            "%"@
        } else {
            lower_text(email@)
        },
{
    if all_owner {
        "%".to_owned()
    } else {
        to_lowercase(email)
    }
}

/// What follows the last `.` of a name, or the whole name where it has none:
/// the last part of `split(".")`.
pub open spec fn extension_spec(s: Seq<char>) -> Seq<char>
    decreases s.len(),
{
    if s.len() == 0 {
        Seq::empty()
    } else if s.last() == '.' {
        Seq::empty()
    } else {
        extension_spec(s.drop_last()).push(s.last())
    }
}

/// The extension of a file name, see `extension_spec`.
pub fn extension_of(name: &str) -> (r: String)
    ensures
        r@ == extension_spec(name@),
{
    let v = str_chars(name);
    let mut start: usize = v.len();
    assert(v@.take(start as int) =~= v@);
    assert(v@.skip(start as int) =~= Seq::<char>::empty());
    assert(extension_spec(v@) + Seq::<char>::empty() =~= extension_spec(v@));
    while start > 0 && v[start - 1] != '.'
        invariant
            start <= v@.len(),
            v@ == name@,
            extension_spec(name@) == extension_spec(v@.take(start as int)) + v@.skip(start as int),
        decreases start,
    {
        let ghost t = v@.take(start as int);
        assert(t.drop_last() =~= v@.take(start - 1));
        assert(v@.skip(start - 1) =~= seq![v@[start - 1]] + v@.skip(start as int));
        assert(extension_spec(t) == extension_spec(v@.take(start - 1)).push(v@[start - 1]));
        assert(extension_spec(v@.take(start - 1)).push(v@[start - 1]) + v@.skip(start as int)
            =~= extension_spec(v@.take(start - 1)) + v@.skip(start - 1));
        start = start - 1;
    }
    proof {
        if start > 0 {
            assert(v@.take(start as int).last() == '.');
        } else {
            assert(v@.take(0) =~= Seq::<char>::empty());
        }
        assert(Seq::<char>::empty() + v@.skip(start as int) =~= v@.skip(start as int));
    }
    let mut out: Vec<char> = Vec::new();
    let mut k = start;
    while k < v.len()
        invariant
            start <= k <= v@.len(),
            out@ == v@.subrange(start as int, k as int),
        decreases v@.len() - k,
    {
        out.push(v[k]);
        k = k + 1;
        assert(v@.subrange(start as int, k as int) =~= v@.subrange(start as int, k - 1).push(
            v@[k - 1],
        ));
    }
    assert(v@.subrange(start as int, k as int) =~= v@.skip(start as int));
    chars_to_string(out.as_slice())
}

/// The stored file name of a document: `<id>.<extension>`.
pub fn stored_file_name(id: &str, extension: &str) -> (r: String)
    ensures
        r@ == id@ + "."@ + extension@,
{
    let a = concat_text(id, ".");
    concat_text(a.as_str(), extension)
}

// ------------------------------------------------------------------------
// Folder scan

/// The expression that selects scanned files: the filter's `?` and `+`
/// become `.` and its `*` a run of letters and digits; it is put after the
/// folder, and then every `/` and `.` is escaped (the `.` from `?` and `+`
/// too, so that they stand for a literal dot).
pub open spec fn scan_pattern_spec(scan_path: Seq<char>, scan_filter: Seq<char>) -> Seq<char> {
    let f1 = replace_text_spec(scan_filter, "?"@, "."@);
    let f2 = replace_text_spec(f1, "+"@, "."@);
    let f3 = replace_text_spec(f2, "*"@, "[[:alnum:]]*"@);
    let r = scan_path + "/"@ + f3;
    let r2 = replace_text_spec(r, "/"@, "\\/"@);
    replace_text_spec(r2, "."@, "\\."@)
}

/// The expression that selects scanned files, see `scan_pattern_spec`.
pub fn scan_pattern(scan_path: &str, scan_filter: &str) -> (r: String)
    ensures
        r@ == scan_pattern_spec(scan_path@, scan_filter@),
{
    let f1 = replace_text(scan_filter, "?", ".");
    let f2 = replace_text(f1.as_str(), "+", ".");
    let f3 = replace_text(f2.as_str(), "*", "[[:alnum:]]*");
    let a = concat_text(scan_path, "/");
    let r = concat_text(a.as_str(), f3.as_str());
    let r2 = replace_text(r.as_str(), "/", "\\/");
    replace_text(r2.as_str(), ".", "\\.")
}

/// The compiled selection expression; `None` where it does not compile.
pub fn scan_regex(scan_path: &str, scan_filter: &str) -> (r: Option<Pattern>)
    ensures
        r.is_some() == regex_compiles(scan_pattern_spec(scan_path@, scan_filter@), false, false, false),
        r matches Some(p) ==> {
            &&& p.source() == scan_pattern_spec(scan_path@, scan_filter@)
            &&& !p.case_insensitive()
            &&& !p.ignore_whitespace()
            &&& !p.multi_line()
        },
{
    let pattern = scan_pattern(scan_path, scan_filter);
    compile_regex(pattern.as_str(), false, false, false)
}

/// A folder entry is scanned: it is not a folder, its path is not empty,
/// matches the selection and contains `.PDF` when upper-cased.
pub fn scan_entry_selected(re: &Pattern, path: &str, is_dir: bool) -> (r: bool)
    ensures
        r == (!is_dir && path@.len() > 0 && regex_matches(
            re.source(),
            re.case_insensitive(),
            re.ignore_whitespace(),
            re.multi_line(),
            path@,
        ) && contains_text(upper_text(path@), ".PDF"@)),
{
    if is_dir || path.is_empty() {
        return false;
    }
    if !regex_is_match(re, path) {
        return false;
    }
    let up = to_uppercase(path);
    contains(up.as_str(), ".PDF")
}

/// Where a scanned file is moved after import: `<scan_path>/<file>`.
pub fn renamed_scan_path(scan_path: &str, file: &str) -> (r: String)
    ensures
        r@ == scan_path@ + "/"@ + file@,
{
    let a = concat_text(scan_path, "/");
    concat_text(a.as_str(), file)
}

/// Sorts file paths, the order in which the files of a scan and the page
/// images of a document are taken.
pub fn sorted_paths(paths: Vec<String>) -> (r: Vec<String>)
    ensures
        r.deep_view().to_multiset() == paths.deep_view().to_multiset(),
        vstd::relations::sorted_by(r.deep_view(), text_order()),
{
    proof {
        lemma_text_le_total_ordering();
    }
    let ghost pv = paths.deep_view();
    let mut r: Vec<String> = Vec::new();
    let mut k: usize = 0;
    assert(pv.take(0) =~= Seq::<Seq<char>>::empty());
    assert(r.deep_view() =~= Seq::<Seq<char>>::empty());
    while k < paths.len()
        invariant
            k <= paths@.len(),
            pv == paths.deep_view(),
            vstd::relations::total_ordering(text_order()),
            r.deep_view().to_multiset() == pv.take(k as int).to_multiset(),
            vstd::relations::sorted_by(r.deep_view(), text_order()),
        decreases paths@.len() - k,
    {
        let p = paths[k].clone();
        assert(pv[k as int] == p@);
        let ghost rv = r.deep_view();
        let mut j: usize = 0;
        while j < r.len() && text_le_check(r[j].as_str(), p.as_str())
            invariant
                j <= r@.len(),
                rv == r.deep_view(),
                forall|i: int| 0 <= i < j ==> text_le(#[trigger] rv[i], p@),
            decreases r@.len() - j,
        {
            assert(rv[j as int] == r@[j as int]@);
            j = j + 1;
        }
        proof {
            let le = text_order();
            if j < r@.len() {
                assert(rv[j as int] == r@[j as int]@);
                assert(!le(rv[j as int], p@));
                assert(le(p@, rv[j as int]));
            }
            assert forall|i: int| j <= i < rv.len() implies #[trigger] le(p@, rv[i]) by {
                if i > j {
                    assert(le(rv[j as int], rv[i]));
                }
            }
            assert forall|i: int| 0 <= i < j implies #[trigger] le(rv[i], p@) by {
                assert(text_le(rv[i], p@));
            }
        }
        r.insert(j, p);
        proof {
            let le = text_order();
            let nv = rv.insert(j as int, p@);
            assert(r.deep_view() =~= nv);
            assert forall|a: int, b: int| 0 <= a < b < nv.len() implies #[trigger] le(nv[a], nv[b]) by {
                if b < j {
                    assert(le(rv[a], rv[b]));
                } else if b == j {
                    assert(le(rv[a], p@));
                } else if a < j {
                    assert(le(rv[a], p@) && le(p@, rv[b - 1]));
                } else if a == j {
                    assert(le(p@, rv[b - 1]));
                } else {
                    assert(le(rv[a - 1], rv[b - 1]));
                }
            }
            vstd::seq_lib::to_multiset_insert(rv, j as int, p@);
            vstd::seq_lib::to_multiset_build(pv.take(k as int), p@);
            assert(pv.take(k + 1) =~= pv.take(k as int).push(p@));
        }
        k = k + 1;
    }
    assert(pv.take(k as int) =~= pv);
    r
}

/// A folder entry is picked up by the selection with pattern `src`, see
/// `scan_entry_selected`.
pub open spec fn entry_selected(src: Seq<char>, path: Seq<char>, is_dir: bool) -> bool {
    !is_dir && path.len() > 0 && regex_matches(src, false, false, false, path) && contains_text(
        upper_text(path),
        ".PDF"@,
    )
}

/// The views of folder entries: path and whether it is a folder.
pub open spec fn entries_view(v: Seq<(String, bool)>) -> Seq<(Seq<char>, bool)> {
    v.map_values(|e: (String, bool)| (e.0@, e.1))
}

/// The paths of the entries that the selection with pattern `src` picks up,
/// in folder order.
pub open spec fn selected_paths(src: Seq<char>, entries: Seq<(Seq<char>, bool)>) -> Seq<Seq<char>>
    decreases entries.len(),
{
    if entries.len() == 0 {
        Seq::empty()
    } else {
        let rest = selected_paths(src, entries.drop_last());
        let e = entries.last();
        if entry_selected(src, e.0, e.1) {
            rest.push(e.0)
        } else {
            rest
        }
    }
}

/// A document made from a scanned file.
pub struct ScanDocument {
    /// A fresh identifier.
    pub id: String,
    /// The scanned file's path.
    pub subject: String,
    /// The scanned file's path.
    pub filename: String,
    /// Where the document came from, `01_upload`.
    pub input_path: String,
    /// The owner: the mail address in lower case.
    pub owner: String,
    /// The extension of the scanned file.
    pub file_extension: String,
    /// The stored file name, `<id>.<extension>`.
    pub file: String,
    /// Where the scanned file is moved after import.
    pub renamed_path: String,
}

/// The document made from the scanned file at `path`.
pub open spec fn scan_document_ok(d: ScanDocument, path: Seq<char>, email: Seq<char>, scan_path: Seq<char>) -> bool {
    &&& is_uuid_text(d.id@)
    &&& d.subject@ == path
    &&& d.filename@ == path
    &&& d.input_path@ == UPLOAD_INPUT_PATH@
    &&& d.owner@ == lower_text(email)
    &&& d.file_extension@ == extension_spec(path)
    &&& d.file@ == d.id@ + "."@ + extension_spec(path)
    &&& d.renamed_path@ == scan_path + "/"@ + d.file@
}

/// The document made from one scanned file, with a fresh identifier.
pub fn scan_document(path: &str, email: &str, scan_path: &str) -> (r: ScanDocument)
    ensures
        scan_document_ok(r, path@, email@, scan_path@),
{
    let id = new_uuid();
    let file_extension = extension_of(path);
    let file = stored_file_name(id.as_str(), file_extension.as_str());
    let renamed_path = renamed_scan_path(scan_path, file.as_str());
    ScanDocument {
        id,
        subject: path.to_owned(),
        filename: path.to_owned(),
        input_path: UPLOAD_INPUT_PATH.to_owned(),
        owner: to_lowercase(email),
        file_extension,
        file,
        renamed_path,
    }
}

/// The documents a folder scan makes: `None` where the selection does not
/// compile; else one document per selected entry, taken in path order.
pub fn scan_documents(scan_path: &str, scan_filter: &str, email: &str, entries: &Vec<(String, bool)>) -> (r:
    Option<Vec<ScanDocument>>)
    ensures
        r is None <==> !regex_compiles(scan_pattern_spec(scan_path@, scan_filter@), false, false, false),
        r matches Some(docs) ==> {
            let paths = docs@.map_values(|d: ScanDocument| d.subject@);
            let sel = selected_paths(scan_pattern_spec(scan_path@, scan_filter@), entries_view(entries@));
            &&& paths.to_multiset() == sel.to_multiset()
            &&& vstd::relations::sorted_by(paths, text_order())
            &&& forall|i: int|
                0 <= i < docs@.len() ==> scan_document_ok(#[trigger] docs@[i], paths[i], email@, scan_path@)
        },
{
    let re = match scan_regex(scan_path, scan_filter) {
        Some(re) => re,
        None => {
            return None;
        },
    };
    let ghost src = scan_pattern_spec(scan_path@, scan_filter@);
    let ghost ev = entries_view(entries@);
    let mut sel: Vec<String> = Vec::new();
    let mut k: usize = 0;
    assert(ev.take(0) =~= Seq::<(Seq<char>, bool)>::empty());
    assert(sel.deep_view() =~= Seq::<Seq<char>>::empty());
    while k < entries.len()
        invariant
            k <= entries@.len(),
            ev == entries_view(entries@),
            re.source() == src,
            !re.case_insensitive() && !re.ignore_whitespace() && !re.multi_line(),
            sel.deep_view() == selected_paths(src, ev.take(k as int)),
        decreases entries@.len() - k,
    {
        let (path, is_dir) = (&entries[k].0, entries[k].1);
        assert(ev.take(k + 1).drop_last() =~= ev.take(k as int));
        assert(ev.take(k + 1).last() == (path@, is_dir));
        if scan_entry_selected(&re, path.as_str(), is_dir) {
            let ghost before = sel.deep_view();
            sel.push(path.clone());
            assert(sel.deep_view() =~= before.push(path@));
        }
        k = k + 1;
    }
    assert(ev.take(k as int) =~= ev);
    let sorted = sorted_paths(sel);
    let ghost sv = sorted.deep_view();
    let mut docs: Vec<ScanDocument> = Vec::new();
    let mut j: usize = 0;
    while j < sorted.len()
        invariant
            j <= sorted@.len(),
            sv == sorted.deep_view(),
            docs@.len() == j,
            forall|i: int| 0 <= i < j ==> (#[trigger] docs@[i]).subject@ == sv[i],
            forall|i: int| 0 <= i < j ==> scan_document_ok(#[trigger] docs@[i], sv[i], email@, scan_path@),
        decreases sorted@.len() - j,
    {
        assert(sv[j as int] == sorted@[j as int]@);
        let d = scan_document(sorted[j].as_str(), email, scan_path);
        docs.push(d);
        j = j + 1;
    }
    assert(docs@.map_values(|d: ScanDocument| d.subject@) =~= sv);
    Some(docs)
}

// ------------------------------------------------------------------------
// Upload

/// How an uploaded file is stored.
pub struct UploadPlan {
    /// The file's extension.
    pub file_extension: String,
    /// The stored file name, `<id>.<extension>`.
    pub file: String,
    /// The folder below the data folder, `<year>/`.
    pub sub_path: String,
    /// The file's content.
    pub data: Vec<u8>,
    /// The new document's subject: the uploaded file's name.
    pub subject: String,
    /// The new document's file name: the uploaded file's name.
    pub filename: String,
    /// The new document's state, `01_Leer`.
    pub status: String,
    /// Where the document came from, `01_upload`.
    pub input_path: String,
    /// The document's type, `PDF`.
    pub document_type: String,
    /// The document's language, `DE`.
    pub langu: String,
}

/// Where uploaded and scanned documents come from.
pub const UPLOAD_INPUT_PATH: &'static str = "01_upload";
pub const MSG_NO_FILENAMES: &'static str = "no filenames found (1)";
pub const MSG_NO_DATA: &'static str = "no data found (4)";

/// An upload is refused with `no filenames found (1)` when the name or the
/// data is empty, with `no data found (4)` when the data does not decode to
/// at least one byte; otherwise it is stored as `<id>.<extension>` below
/// `<year>/`, and becomes an empty (`01_Leer`) PDF document in German with
/// the file's name as subject and file name, coming from `01_upload`.
pub open spec fn upload_ok(
    name: Seq<char>,
    data_base64: Seq<char>,
    id: Seq<char>,
    year: nat,
    r: Result<UploadPlan, String>,
) -> bool {
    if name.len() == 0 || data_base64.len() == 0 {
        r matches Err(e) && e@ == MSG_NO_FILENAMES@
    } else if !(base64_decoded(data_base64) matches Some(d) && d.len() > 0) {
        r matches Err(e) && e@ == MSG_NO_DATA@
    } else {
        r matches Ok(p) && {
            &&& p.file_extension@ == extension_spec(name)
            &&& p.file@ == id + "."@ + extension_spec(name)
            &&& p.sub_path@ == decimal_spec(year) + "/"@
            &&& Some(p.data@) == base64_decoded(data_base64)
            &&& p.subject@ == name
            &&& p.filename@ == name
            &&& p.status@ == crate::status::STATUS_EMPTY@
            &&& p.input_path@ == UPLOAD_INPUT_PATH@
            &&& p.document_type@ == "PDF"@
            &&& p.langu@ == "DE"@
        }
    }
}

/// Plans the storage of an uploaded file, see `upload_ok`.
pub fn plan_upload(name: &str, data_base64: &str, id: &str, year: u64) -> (r: Result<UploadPlan, String>)
    ensures
        upload_ok(name@, data_base64@, id@, year as nat, r),
{
    if name.is_empty() || data_base64.is_empty() {
        return Err(MSG_NO_FILENAMES.to_owned());
    }
    let file_extension = extension_of(name);
    let file = stored_file_name(id, file_extension.as_str());
    let y = decimal_text(year);
    let sub_path = concat_text(y.as_str(), "/");
    let data = match base64_decode(data_base64) {
        Some(d) => d,
        None => Vec::new(),
    };
    if data.len() == 0 {
        return Err(MSG_NO_DATA.to_owned());
    }
    Ok(
        UploadPlan {
            file_extension,
            file,
            sub_path,
            data,
            subject: name.to_owned(),
            filename: name.to_owned(),
            status: crate::status::STATUS_EMPTY.to_owned(),
            input_path: UPLOAD_INPUT_PATH.to_owned(),
            document_type: "PDF".to_owned(),
            langu: "DE".to_owned(),
        },
    )
}

// ------------------------------------------------------------------------
// PDF delivery

/// A PDF is requested with both a document identifier and a file name.
pub fn pdf_request_complete(id: &str, filename: &str) -> (r: bool)
    ensures
        r == (id@.len() > 0 && filename@.len() > 0),
{
    !filename.is_empty() && !id.is_empty()
}

/// The content of a PDF for delivery: its bytes in padded base64, or `None`
/// for an empty file.
pub fn pdf_payload(bytes: &[u8]) -> (r: Option<String>)
    ensures
        match r {
            Some(s) => bytes@.len() > 0 && s@ == base64_encoded(bytes@) && base64_decoded(s@) == Some(
                bytes@,
            ),
            None => bytes@.len() == 0,
        },
{
    if bytes.len() == 0 {
        None
    } else {
        Some(base64_encode(bytes))
    }
}

} // verus!
