//! Verified core of the archive_cat document archive: template-driven text
//! extraction, and the decisions of the mail, scan, migration and status
//! workflows.

pub mod text;
pub mod dict;
pub mod engines;
pub mod yaml;
pub mod template;
pub mod loader;
pub mod extract;
pub mod laws;
pub mod mail;
pub mod files;
pub mod status;
pub mod query;
pub mod migrate;
pub mod schema;
