//! Citation notes: synthesise citation keys for bibliographic entries, merge
//! them into a keyed bibliography store, and render a note per entry.

use vstd::prelude::*;

pub mod text;
pub mod keys;
pub mod store;
pub mod bib;
pub mod doi;
pub mod guard;
pub mod note;
pub mod md;
pub mod http;

verus! {

/// The kinds of failure that the library reports.
#[derive(Debug, Clone, Copy, PartialEq, Eq, Structural)]
pub enum ErrorKind {
    /// A failure described by its message alone.
    Message,
    /// The first author is missing, or the author field cannot be parsed.
    NoAuthor,
    /// The date field is present but cannot be parsed.
    DateParseFailed,
    /// The date is present only as raw text chunks.
    NoDate,
    /// The incoming entry's DOI field cannot be read.
    DoiParseError,
    /// Every suffix letter was tried without finding a free key.
    KeySpaceExhausted,
    /// Bibliographic text is not well formed.
    ParseError,
    /// Bibliographic text holds no record.
    EmptyInput,
    /// The persisted store cannot be parsed.
    StoreCorrupt,
    /// Reading or writing a file failed.
    Io,
    /// A request failed or was answered with an error status.
    Http,
}

/// The library's error: a kind that callers can match on, and a message.
#[derive(Debug, Clone)]
pub struct CiteNoteError {
    pub kind: ErrorKind,
    pub message: String,
}

pub type Result<T> = std::result::Result<T, CiteNoteError>;

/// `r` is an error of kind `kind`.
pub open spec fn fails_with<T>(r: Result<T>, kind: ErrorKind) -> bool {
    match r {
        Err(e) => e.kind == kind,
        Ok(_) => false,
    }
}

impl CiteNoteError {
    /// An error described by `message` alone.
    pub fn new(message: &str) -> (r: CiteNoteError)
        ensures
            r.kind == ErrorKind::Message,
            r.message@ == message@,
    {
        CiteNoteError { kind: ErrorKind::Message, message: String::from_str(message) }
    }

    /// An error of the given kind, described by `message`.
    pub fn with_message(kind: ErrorKind, message: &str) -> (r: CiteNoteError)
        ensures
            r.kind == kind,
            r.message@ == message@,
    {
        CiteNoteError { kind, message: String::from_str(message) }
    }

    /// An error of the given kind, with its standard message.
    pub fn of_kind(kind: ErrorKind) -> (r: CiteNoteError)
        ensures
            r.kind == kind,
    {
        let message = match kind {
            ErrorKind::Message => "Unspecified error.",
            ErrorKind::NoAuthor => "No authors found.",
            ErrorKind::DateParseFailed => "Date parse failed.",
            ErrorKind::NoDate => "No date found.",
            ErrorKind::DoiParseError => "Error while parsing doi from Entry.",
            ErrorKind::KeySpaceExhausted => "No free citation key left.",
            ErrorKind::ParseError => "Bibtex parse error",
            ErrorKind::EmptyInput => "No entry found.",
            ErrorKind::StoreCorrupt => "Failed to parse bib file.",
            ErrorKind::Io => "Failed to access a file.",
            ErrorKind::Http => "Request failed.",
        };
        CiteNoteError { kind, message: String::from_str(message) }
    }

    /// The message, prefixed as it is shown to a user.
    pub fn to_string(&self) -> (r: String)
        ensures
            r@ == "Error: "@ + self.message@,
    {
        String::from_str("Error: ").concat(self.message.as_str())
    }
}

} // verus!
