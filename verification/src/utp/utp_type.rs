use vstd::prelude::*;

verus! {

/// The five uTP packet kinds, numbered as on the wire.
#[derive(Debug)]
pub enum UtpType {
    StData,
    StFin,
    StState,
    StReset,
    StSyn,
}

impl UtpType {
    /// The wire number of a packet kind.
    pub open spec fn spec_value(&self) -> u8 {
        match self {
            UtpType::StData => 0,
            UtpType::StFin => 1,
            UtpType::StState => 2,
            UtpType::StReset => 3,
            UtpType::StSyn => 4,
        }
    }

    /// The packet kind with wire number `value`; numbers above four have none.
    pub open spec fn spec_from_value(value: u8) -> Result<UtpType, ()> {
        match value {
            0 => Ok(UtpType::StData),
            1 => Ok(UtpType::StFin),
            2 => Ok(UtpType::StState),
            3 => Ok(UtpType::StReset),
            4 => Ok(UtpType::StSyn),
            _ => Err(()),
        }
    }

    /// Looks a packet kind up by its wire number; numbers above four are refused.
    pub fn from_value(value: &u8) -> (r: Result<Self, ()>)
        ensures
            r == Self::spec_from_value(*value),
    {
        match *value {
            0 => Ok(UtpType::StData),
            1 => Ok(UtpType::StFin),
            2 => Ok(UtpType::StState),
            3 => Ok(UtpType::StReset),
            4 => Ok(UtpType::StSyn),
            _ => Err(()),
        }
    }

    /// The wire number of this packet kind.
    pub fn value(&self) -> (r: u8)
        ensures r == self.spec_value(),
    {
        match self {
            UtpType::StData => 0,
            UtpType::StFin => 1,
            UtpType::StState => 2,
            UtpType::StReset => 3,
            UtpType::StSyn => 4,
        }
    }
}

/// Looking up the number of a packet kind gives that kind.
pub proof fn lemma_value_roundtrip(t: UtpType)
    ensures
        UtpType::spec_from_value(t.spec_value()) == Ok::<UtpType, ()>(t),
{
}

/// A number names a packet kind exactly when it is at most four, and that
/// kind has the number.
pub proof fn lemma_from_value_roundtrip(value: u8)
    ensures
        UtpType::spec_from_value(value) is Ok <==> value <= 4,
        UtpType::spec_from_value(value) matches Ok(t) ==> t.spec_value() == value,
{
}


/// The numbers of the packet kinds: StData 0, StFin 1, StState 2, StReset 3, StSyn 4.
pub proof fn lemma_kind_numbers(t: UtpType)
    ensures
        t == UtpType::StData ==> t.spec_value() == 0,
        t == UtpType::StFin ==> t.spec_value() == 1,
        t == UtpType::StState ==> t.spec_value() == 2,
        t == UtpType::StReset ==> t.spec_value() == 3,
        t == UtpType::StSyn ==> t.spec_value() == 4,
        UtpType::spec_from_value(0u8) == Ok::<UtpType, ()>(UtpType::StData),
        UtpType::spec_from_value(1u8) == Ok::<UtpType, ()>(UtpType::StFin),
        UtpType::spec_from_value(2u8) == Ok::<UtpType, ()>(UtpType::StState),
        UtpType::spec_from_value(3u8) == Ok::<UtpType, ()>(UtpType::StReset),
        UtpType::spec_from_value(4u8) == Ok::<UtpType, ()>(UtpType::StSyn),
{
}

} // verus!
