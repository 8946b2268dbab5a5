use std::io;
use vstd::prelude::*;
use crate::utils::io_error::unknown_type_code_error;

verus! {

/// The five uTP packet kinds, numbered as on the wire.
#[derive(Debug, PartialEq, Eq, Structural)]
pub enum UtpTypes {
    Data,
    Fin,
    Ack,  // also known as State
    Reset,
    Syn,
}

impl UtpTypes {
    /// The wire number of a packet kind.
    pub open spec fn spec_code(&self) -> u8 {
        match self {
            UtpTypes::Data => 0,
            UtpTypes::Fin => 1,
            UtpTypes::Ack => 2,
            UtpTypes::Reset => 3,
            UtpTypes::Syn => 4,
        }
    }

    /// The packet kind with wire number `value`; numbers above four have none.
    pub open spec fn spec_from_code(value: u8) -> Option<UtpTypes> {
        match value {
            0 => Some(UtpTypes::Data),
            1 => Some(UtpTypes::Fin),
            2 => Some(UtpTypes::Ack),
            3 => Some(UtpTypes::Reset),
            4 => Some(UtpTypes::Syn),
            _ => None,
        }
    }

    /// Looks a packet kind up by its wire number; numbers above four give an
    /// I/O error of kind `InvalidInput`.
    pub fn from_code(value: &u8) -> (r: io::Result<Self>)
        ensures
            r is Ok <==> Self::spec_from_code(*value) is Some,
            r matches Ok(t) ==> Self::spec_from_code(*value) == Some(t),
    {
        match *value {
            0 => Ok(UtpTypes::Data),
            1 => Ok(UtpTypes::Fin),
            2 => Ok(UtpTypes::Ack),
            3 => Ok(UtpTypes::Reset),
            4 => Ok(UtpTypes::Syn),
            _ => Err(unknown_type_code_error()),
        }
    }

    /// The wire number of this packet kind.
    pub fn get_code(&self) -> (r: u8)
        ensures
            r == self.spec_code(),
    {
        match self {
            UtpTypes::Data => 0,
            UtpTypes::Fin => 1,
            UtpTypes::Ack => 2,
            UtpTypes::Reset => 3,
            UtpTypes::Syn => 4,
        }
    }
}

/// Looking up the number of a packet kind gives that kind.
pub proof fn lemma_code_roundtrip(t: UtpTypes)
    ensures
        UtpTypes::spec_from_code(t.spec_code()) == Some(t),
{
}

/// A number names a packet kind exactly when it is at most four, and that
/// kind has the number.
pub proof fn lemma_from_code_roundtrip(value: u8)
    ensures
        UtpTypes::spec_from_code(value) is Some <==> value <= 4,
        UtpTypes::spec_from_code(value) matches Some(t) ==> t.spec_code() == value,
{
}


/// The numbers of the packet kinds: Data 0, Fin 1, Ack 2, Reset 3, Syn 4.
pub proof fn lemma_kind_numbers(t: UtpTypes)
    ensures
        t == UtpTypes::Data ==> t.spec_code() == 0,
        t == UtpTypes::Fin ==> t.spec_code() == 1,
        t == UtpTypes::Ack ==> t.spec_code() == 2,
        t == UtpTypes::Reset ==> t.spec_code() == 3,
        t == UtpTypes::Syn ==> t.spec_code() == 4,
        UtpTypes::spec_from_code(0u8) == Some(UtpTypes::Data),
        UtpTypes::spec_from_code(1u8) == Some(UtpTypes::Fin),
        UtpTypes::spec_from_code(2u8) == Some(UtpTypes::Ack),
        UtpTypes::spec_from_code(3u8) == Some(UtpTypes::Reset),
        UtpTypes::spec_from_code(4u8) == Some(UtpTypes::Syn),
{
}

} // verus!
