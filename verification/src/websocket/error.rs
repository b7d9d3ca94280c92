use vstd::prelude::*;
use vstd::string::*;

use crate::http::text::{decimal, push_decimal};
use crate::io::IoError;

verus! {

/// What ends a WebSocket session abnormally.
#[derive(Debug, Clone, Copy, PartialEq, Eq, Structural)]
pub enum Error {
    /// The byte source failed or ended early.
    IO(IoError),
    /// A frame carried an opcode outside the six known ones.
    InvalidOpcode(u8),
    /// A frame broke a framing rule.
    BadProtocol,
    /// No frame arrived between a keepalive Ping and the next idle timeout.
    PongTimeout,
}

/// The text of an error: what it is, and the detail it carries.
pub open spec fn spec_message(error: Error) -> Seq<char> {
    match error {
        Error::IO(e) => "IO Error: "@ + e.spec_message(),
        Error::InvalidOpcode(code) => "Invalid Opcode: "@ + decimal(code as nat),
        Error::BadProtocol => "Bad Protocol"@,
        Error::PongTimeout => "Pong Timeout"@,
    }
}

impl Error {
    /// The text of the error.
    pub fn message(&self) -> (r: String)
        ensures
            r@ == spec_message(*self),
    {
        match self {
            Error::IO(e) => "IO Error: ".to_owned().concat(e.message()),
            Error::InvalidOpcode(code) => {
                let mut text = "Invalid Opcode: ".to_owned();
                push_decimal(&mut text, *code as usize);
                text
            },
            Error::BadProtocol => "Bad Protocol".to_owned(),
            Error::PongTimeout => "Pong Timeout".to_owned(),
        }
    }
}

} // verus!
