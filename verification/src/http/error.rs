use vstd::prelude::*;
use vstd::string::*;

use super::text::ParseIntError;
use crate::io::IoError;

verus! {

/// Why a request could not be read.
#[derive(Debug, Clone, PartialEq, Eq)]
pub enum Error {
    /// The byte source failed or ended early.
    IO(IoError),
    /// The request line did not have exactly three parts; it is kept as read.
    BadRequestLine(String),
    /// The `Content-Length` header was no number.
    BadContentLength(ParseIntError),
    /// A body needs a `Content-Length` header.
    ContentLengthRequired,
}

/// The mathematical content of an [`Error`].
pub enum ErrorView {
    IO(IoError),
    BadRequestLine(Seq<char>),
    BadContentLength(ParseIntError),
    ContentLengthRequired,
}

impl View for Error {
    type V = ErrorView;

    open spec fn view(&self) -> ErrorView {
        match self {
            Error::IO(e) => ErrorView::IO(*e),
            Error::BadRequestLine(line) => ErrorView::BadRequestLine(line@),
            Error::BadContentLength(e) => ErrorView::BadContentLength(*e),
            Error::ContentLengthRequired => ErrorView::ContentLengthRequired,
        }
    }
}

/// The text of an error: what it is, and the detail it carries.
pub open spec fn spec_message(error: ErrorView) -> Seq<char> {
    match error {
        ErrorView::IO(e) => "IO Error: "@ + e.spec_message(),
        ErrorView::BadRequestLine(line) => "Bad Request Line: "@ + line,
        ErrorView::BadContentLength(e) => "Bad Content-Length: "@ + e.spec_message(),
        ErrorView::ContentLengthRequired => "Content-Length is required"@,
    }
}

impl Error {
    /// The text of the error.
    pub fn message(&self) -> (r: String)
        ensures
            r@ == spec_message(self@),
    {
        match self {
            Error::IO(e) => "IO Error: ".to_owned().concat(e.message()),
            Error::BadRequestLine(line) => "Bad Request Line: ".to_owned().concat(line.as_str()),
            Error::BadContentLength(e) => "Bad Content-Length: ".to_owned().concat(e.message()),
            Error::ContentLengthRequired => "Content-Length is required".to_owned(),
        }
    }
}

} // verus!
