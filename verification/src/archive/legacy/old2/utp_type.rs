use vstd::prelude::*;

verus! {

/// The five uTP packet kinds, numbered as on the wire.
#[derive(Debug, PartialEq, Eq, Structural)]
pub enum UtpType {
    Data,
    Fin,
    Ack,  // also known as State
    Reset,
    Syn,
}

impl UtpType {
    /// The wire number of a packet kind.
    pub open spec fn spec_value(&self) -> u8 {
        match self {
            UtpType::Data => 0,
            UtpType::Fin => 1,
            UtpType::Ack => 2,
            UtpType::Reset => 3,
            UtpType::Syn => 4,
        }
    }

    /// The packet kind with wire number `value`; numbers above four have none.
    pub open spec fn spec_from_value(value: u8) -> Result<UtpType, ()> {
        match value {
            0 => Ok(UtpType::Data),
            1 => Ok(UtpType::Fin),
            2 => Ok(UtpType::Ack),
            3 => Ok(UtpType::Reset),
            4 => Ok(UtpType::Syn),
            _ => Err(()),
        }
    }

    /// Looks a packet kind up by its wire number; numbers above four are refused.
    pub fn from_value(value: &u8) -> (r: Result<Self, ()>)
        ensures
            r == Self::spec_from_value(*value),
    {
        match *value {
            0 => Ok(UtpType::Data),
            1 => Ok(UtpType::Fin),
            2 => Ok(UtpType::Ack),
            3 => Ok(UtpType::Reset),
            4 => Ok(UtpType::Syn),
            _ => Err(()),
        }
    }

    /// The wire number of this packet kind.
    pub fn value(&self) -> (r: u8)
        ensures r == self.spec_value(),
    {
        match self {
            UtpType::Data => 0,
            UtpType::Fin => 1,
            UtpType::Ack => 2,
            UtpType::Reset => 3,
            UtpType::Syn => 4,
        }
    }
}

/// Looking up the number of a packet kind gives that kind.
pub proof fn lemma_value_roundtrip(t: UtpType)
    ensures
        UtpType::spec_from_value(t.spec_value()) == Ok::<UtpType, ()>(t),
{
}

/// A number names a packet kind exactly when it is at most four, and that
/// kind has the number.
pub proof fn lemma_from_value_roundtrip(value: u8)
    ensures
        UtpType::spec_from_value(value) is Ok <==> value <= 4,
        UtpType::spec_from_value(value) matches Ok(t) ==> t.spec_value() == value,
{
}


/// The numbers of the packet kinds: Data 0, Fin 1, Ack 2, Reset 3, Syn 4.
pub proof fn lemma_kind_numbers(t: UtpType)
    ensures
        t == UtpType::Data ==> t.spec_value() == 0,
        t == UtpType::Fin ==> t.spec_value() == 1,
        t == UtpType::Ack ==> t.spec_value() == 2,
        t == UtpType::Reset ==> t.spec_value() == 3,
        t == UtpType::Syn ==> t.spec_value() == 4,
        UtpType::spec_from_value(0u8) == Ok::<UtpType, ()>(UtpType::Data),
        UtpType::spec_from_value(1u8) == Ok::<UtpType, ()>(UtpType::Fin),
        UtpType::spec_from_value(2u8) == Ok::<UtpType, ()>(UtpType::Ack),
        UtpType::spec_from_value(3u8) == Ok::<UtpType, ()>(UtpType::Reset),
        UtpType::spec_from_value(4u8) == Ok::<UtpType, ()>(UtpType::Syn),
{
}

} // verus!
