//! The messages exchanged with the front end, and the tables of the archive
//! database.

use vstd::prelude::*;

verus! {

/// A message to the front end.
pub struct Response {
    pub dataname: String,
    pub data: String,
    pub error: String,
}

/// A request of the front end.
pub struct Receiver {
    pub path: String,
    pub query: String,
    pub data: String,
}

/// Creates the table of documents where it is missing.
pub const CREATE_DOCUMENT_TABLE: &'static str = "CREATE TABLE IF NOT EXISTS `document` (`id` TEXT NOT NULL PRIMARY KEY, `subject` TEXT NOT NULL, `status` TEXT NOT NULL, `date` DATETIME NOT NULL, `sender_name` TEXT DEFAULT '', `sender_addr` TEXT DEFAULT '', `recipient_name` TEXT DEFAULT '', `recipient_addr` TEXT DEFAULT '', `from` TEXT DEFAULT '[]', `to` TEXT DEFAULT '[]', `body` TEXT DEFAULT '', `type` TEXT DEFAULT '', `metadata` TEXT DEFAULT '{}', `category` TEXT DEFAULT '[]', `amount` DECIMAL(10,2) DEFAULT 0, `currency` TEXT DEFAULT '', `template_name` TEXT DEFAULT '', `doc_data` TEXT DEFAULT '{}', `input_path` TEXT DEFAULT '', `langu` TEXT DEFAULT '', `num_pages` NUMBER DEFAULT 0, `protocol` TEXT DEFAULT '', `sub_path` TEXT DEFAULT '', `filename` TEXT DEFAULT '', `file_extension` TEXT DEFAULT '',`file` TEXT DEFAULT '', `base64` TEXT DEFAULT '', `ocr_data` TEXT DEFAULT '', `jpg_file` TEXT DEFAULT '[]', `parent_document` TEXT DEFAULT '', `createdAt` DATETIME NOT NULL, `updatedAt` DATETIME NOT NULL, `deletedAt` DATETIME );";

/// Creates the table of FTP accounts where it is missing.
pub const CREATE_FTP_DATA_TABLE: &'static str = "CREATE TABLE IF NOT EXISTS `ftp_data` (`id` INTEGER PRIMARY KEY AUTOINCREMENT, `host` TEXT NOT NULL, `user` TEXT, `password` TEXT, `dir` TEXT, `filter` TEXT, `createdAt` DATETIME NOT NULL, `updatedAt` DATETIME NOT NULL, `deletedAt` DATETIME);";

/// Creates the table of mail accounts where it is missing.
pub const CREATE_MAIL_DATA_TABLE: &'static str = "CREATE TABLE IF NOT EXISTS `mail_data` (`id` INTEGER PRIMARY KEY AUTOINCREMENT, `email` TEXT NOT NULL, `box` TEXT, `token_access_token` TEXT, `token_token_type` TEXT, `token_refresh_token` TEXT, `token_expiry` TEXT, `createdAt` DATETIME NOT NULL, `updatedAt` DATETIME NOT NULL, `deletedAt` DATETIME);";

/// The statements that set up the database, in the order they run: the
/// documents, the FTP accounts, the mail accounts.
pub fn table_statements() -> (r: Vec<&'static str>)
    ensures
        r@ == seq![CREATE_DOCUMENT_TABLE, CREATE_FTP_DATA_TABLE, CREATE_MAIL_DATA_TABLE],
{
    let mut r: Vec<&'static str> = Vec::new();
    r.push(CREATE_DOCUMENT_TABLE);
    r.push(CREATE_FTP_DATA_TABLE);
    r.push(CREATE_MAIL_DATA_TABLE);
    r
}

/// A message of the kind "info" with the given text and no error.
pub fn info_response(data: String) -> (r: Response)
    ensures
        r.dataname@ == "info"@,
        r.data == data,
        r.error@.len() == 0,
{
    Response { dataname: String::from_str("info"), data, error: String::new() }
}

} // verus!
