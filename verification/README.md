# archive_cat

The verified core of a document archive that imports mails and scanned PDF
files, recognises their text and extracts fields from it with YAML parse
templates.

- `src/` is the library, verified with Verus:
  - `template`, `loader`, `extract`: parse templates, loading them from YAML
    values, testing a text against them and extracting their fields;
    `laws` states what loading and parsing keep across whole runs.
  - `mail`, `files`, `status`, `query`, `migrate`, `schema`: the decisions of
    the mail import, file storage and folder scan, document processing
    states, list requests, migration of the former record format, and the
    database tables.
  - `text`, `dict`, `yaml`: text operations, text-keyed maps and YAML values.
  - `engines`: the trusted calls into `regex`, `uuid`, `chrono`,
    `unicode-normalization`, `url`, `base64` and parts of the standard
    library, with the contracts the rest of the library relies on.
- `tests/` exercises the library on concrete values.
- `app/` is a small command-line driver: it reads a YAML template and a text
  file, and holds the JSON forms of the library's messages.
