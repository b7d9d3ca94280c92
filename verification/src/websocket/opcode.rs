use vstd::prelude::*;
use vstd::std_specs::convert::TryFromSpecImpl;

use super::error::Error;

verus! {

/// The role of a frame, identified on the wire by four bits.
#[derive(Debug, Clone, Copy, PartialEq, Eq, PartialOrd, Ord, Hash, Structural)]
pub enum Opcode {
    Continuation,
    Text,
    Binary,
    Close,
    Ping,
    Pong,
}

impl Opcode {
    /// The four-bit wire value of the opcode.
    pub open spec fn spec_code(self) -> u8 {
        match self {
            Opcode::Continuation => 0,
            Opcode::Text => 1,
            Opcode::Binary => 2,
            Opcode::Close => 8,
            Opcode::Ping => 9,
            Opcode::Pong => 10,
        }
    }

    /// The opcode with the given wire value, if there is one.
    pub open spec fn from_code(value: u8) -> Option<Opcode> {
        if value == 0 {
            Some(Opcode::Continuation)
        } else if value == 1 {
            Some(Opcode::Text)
        } else if value == 2 {
            Some(Opcode::Binary)
        } else if value == 8 {
            Some(Opcode::Close)
        } else if value == 9 {
            Some(Opcode::Ping)
        } else if value == 10 {
            Some(Opcode::Pong)
        } else {
            None
        }
    }

    /// Close, Ping and Pong are control opcodes.
    pub open spec fn spec_is_control(self) -> bool {
        self == Opcode::Close || self == Opcode::Ping || self == Opcode::Pong
    }

    #[verifier::when_used_as_spec(spec_code)]
    pub fn code(self) -> (r: u8)
        ensures
            r == self.spec_code(),
    {
        match self {
            Opcode::Continuation => 0,
            Opcode::Text => 1,
            Opcode::Binary => 2,
            Opcode::Close => 8,
            Opcode::Ping => 9,
            Opcode::Pong => 10,
        }
    }

    #[verifier::when_used_as_spec(spec_is_control)]
    pub fn is_control(self) -> (r: bool)
        ensures
            r == self.spec_is_control(),
    {
        match self {
            Opcode::Close | Opcode::Ping | Opcode::Pong => true,
            _ => false,
        }
    }
}

impl TryFromSpecImpl<u8> for Opcode {
    open spec fn obeys_try_from_spec() -> bool {
        true
    }

    open spec fn try_from_spec(value: u8) -> Result<Self, Error> {
        match Opcode::from_code(value) {
            Some(opcode) => Ok(opcode),
            None => Err(Error::InvalidOpcode(value)),
        }
    }
}

impl TryFrom<u8> for Opcode {
    type Error = Error;

    fn try_from(value: u8) -> (r: Result<Self, Error>) {
        match value {
            0 => Ok(Opcode::Continuation),
            1 => Ok(Opcode::Text),
            2 => Ok(Opcode::Binary),
            8 => Ok(Opcode::Close),
            9 => Ok(Opcode::Ping),
            10 => Ok(Opcode::Pong),
            _ => Err(Error::InvalidOpcode(value)),
        }
    }
}

/// Every opcode is found again from its wire value, and only the six wire
/// values name an opcode.
pub proof fn lemma_code_round_trip(opcode: Opcode, value: u8)
    ensures
        Opcode::from_code(opcode.spec_code()) == Some(opcode),
        Opcode::from_code(value) matches Some(found) ==> found.spec_code() == value,
        opcode.spec_is_control() <==> opcode.spec_code() >= 8,
{
}

} // verus!
