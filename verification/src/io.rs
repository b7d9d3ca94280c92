//! Failures of the byte source that the codecs report themselves.

use vstd::prelude::*;
use vstd::string::*;

verus! {

/// Why a buffer could not be read as far as a message needed.
#[derive(Debug, Clone, Copy, PartialEq, Eq, Structural)]
pub enum IoError {
    /// The input ended before the message was complete.
    UnexpectedEof,
    /// A line of text was not valid UTF-8, or compressed data was corrupt.
    InvalidData,
    /// Any other failure that a codec reports.
    Other,
}

impl IoError {
    /// The text of the failure.
    pub open spec fn spec_message(self) -> Seq<char> {
        match self {
            IoError::UnexpectedEof => "failed to fill whole buffer"@,
            IoError::InvalidData => "stream did not contain valid UTF-8"@,
            IoError::Other => "other error"@,
        }
    }

    /// The text of the failure.
    pub fn message(&self) -> (r: &'static str)
        ensures
            r@ == self.spec_message(),
    {
        match self {
            IoError::UnexpectedEof => "failed to fill whole buffer",
            IoError::InvalidData => "stream did not contain valid UTF-8",
            IoError::Other => "other error",
        }
    }
}

} // verus!
