//! The unified error taxonomy: engine-reported failures, encoding failures,
//! decode failures and concurrency failures, as one reportable type.

use vstd::prelude::*;

use crate::text::udec_string;
use crate::text::udec_text;

verus! {

/// Errors reported by this crate.
///
/// Engine-reported messages are carried as text; positions of offending
/// bytes and indices are carried as plain numbers.
#[derive(Debug)]
pub enum Error {
    /// The path given to `open` does not name a regular file.
    InvalidPath(String),
    /// The engine rejected the file contents as unrecognizable.
    InvalidMdbFile(String),
    /// A failure reported through the engine's error-message slot.
    MdbSqlError(String),
    /// A query or path string holds an embedded nul at this position.
    NulError(usize),
    /// Engine-provided bytes are not valid UTF-8, starting at this index.
    Utf8Error(usize),
    /// A prior holder of the connection lock failed irrecoverably.
    MutexPoisonError(String),
    /// A row value was addressed with an out-of-range column index.
    InvalidRowIndex(usize),
    /// A cell's text could not be decoded into the requested type.
    FromSqlError(String),
}

/// The mathematical shape of an `Error`: text as character sequences,
/// numbers as integers.
pub enum ErrorView {
    InvalidPath(Seq<char>),
    InvalidMdbFile(Seq<char>),
    MdbSqlError(Seq<char>),
    NulError(int),
    Utf8Error(int),
    MutexPoisonError(Seq<char>),
    InvalidRowIndex(int),
    FromSqlError(Seq<char>),
}

impl View for Error {
    type V = ErrorView;

    open spec fn view(&self) -> ErrorView {
        match self {
            Error::InvalidPath(p) => ErrorView::InvalidPath(p@),
            Error::InvalidMdbFile(p) => ErrorView::InvalidMdbFile(p@),
            Error::MdbSqlError(m) => ErrorView::MdbSqlError(m@),
            Error::NulError(i) => ErrorView::NulError(*i as int),
            Error::Utf8Error(i) => ErrorView::Utf8Error(*i as int),
            Error::MutexPoisonError(m) => ErrorView::MutexPoisonError(m@),
            Error::InvalidRowIndex(i) => ErrorView::InvalidRowIndex(*i as int),
            Error::FromSqlError(m) => ErrorView::FromSqlError(m@),
        }
    }
}

/// The report text of each error.
pub open spec fn error_message(e: ErrorView) -> Seq<char> {
    match e {
        ErrorView::InvalidPath(p) => "invalid path: "@ + p,
        ErrorView::InvalidMdbFile(p) => "invalid mdb file: "@ + p,
        ErrorView::MdbSqlError(m) => m,
        ErrorView::NulError(i) => "nul byte found in provided data at position: "@ + udec_text(
            i as nat,
        ),
        ErrorView::Utf8Error(i) => "invalid utf-8 sequence from index: "@ + udec_text(i as nat),
        ErrorView::MutexPoisonError(m) => m,
        ErrorView::InvalidRowIndex(i) => "invalid index to row results: "@ + udec_text(i as nat),
        ErrorView::FromSqlError(m) => m,
    }
}

impl Error {
    /// Renders the error for reporting.
    pub fn message(&self) -> (r: String)
        ensures
            r@ == error_message(self@),
    {
        match self {
            Error::InvalidPath(p) => {
                let mut s = String::from_str("invalid path: ");
                s.append(p.as_str());
                s
            },
            Error::InvalidMdbFile(p) => {
                let mut s = String::from_str("invalid mdb file: ");
                s.append(p.as_str());
                s
            },
            Error::MdbSqlError(m) => String::from_str(m.as_str()),
            Error::NulError(i) => {
                let mut s = String::from_str("nul byte found in provided data at position: ");
                let d = udec_string(*i as u64);
                s.append(d.as_str());
                s
            },
            Error::Utf8Error(i) => {
                let mut s = String::from_str("invalid utf-8 sequence from index: ");
                let d = udec_string(*i as u64);
                s.append(d.as_str());
                s
            },
            Error::MutexPoisonError(m) => String::from_str(m.as_str()),
            Error::InvalidRowIndex(i) => {
                let mut s = String::from_str("invalid index to row results: ");
                let d = udec_string(*i as u64);
                s.append(d.as_str());
                s
            },
            Error::FromSqlError(m) => String::from_str(m.as_str()),
        }
    }
}

} // verus!
