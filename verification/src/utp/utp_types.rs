use vstd::prelude::*;

verus! {

/// The five uTP packet kinds, numbered as 32-bit values.
#[derive(Debug, PartialEq, Eq, Structural)]
pub enum UtpTypes {
    StData,
    StFin,
    StState,
    StReset,
    StSyn,
}

impl UtpTypes {
    /// The number of a packet kind.
    pub open spec fn spec_value(&self) -> u32 {
        match self {
            UtpTypes::StData => 0,
            UtpTypes::StFin => 1,
            UtpTypes::StState => 2,
            UtpTypes::StReset => 3,
            UtpTypes::StSyn => 4,
        }
    }

    /// The packet kind numbered `value`; numbers above four have none.
    pub open spec fn spec_from_value(value: u32) -> Result<UtpTypes, ()> {
        match value {
            0 => Ok(UtpTypes::StData),
            1 => Ok(UtpTypes::StFin),
            2 => Ok(UtpTypes::StState),
            3 => Ok(UtpTypes::StReset),
            4 => Ok(UtpTypes::StSyn),
            _ => Err(()),
        }
    }

    /// Looks a packet kind up by its number; numbers above four are refused.
    pub fn from_value(value: &u32) -> (r: Result<Self, ()>)
        ensures
            r == Self::spec_from_value(*value),
    {
        match *value {
            0 => Ok(UtpTypes::StData),
            1 => Ok(UtpTypes::StFin),
            2 => Ok(UtpTypes::StState),
            3 => Ok(UtpTypes::StReset),
            4 => Ok(UtpTypes::StSyn),
            _ => Err(()),
        }
    }

    /// The number of this packet kind.
    pub fn value(&self) -> (r: u32)
        ensures
            r == self.spec_value(),
    {
        match self {
            UtpTypes::StData => 0,
            UtpTypes::StFin => 1,
            UtpTypes::StState => 2,
            UtpTypes::StReset => 3,
            UtpTypes::StSyn => 4,
        }
    }
}

/// Looking up the number of a packet kind gives that kind.
pub proof fn lemma_value_roundtrip(t: UtpTypes)
    ensures
        UtpTypes::spec_from_value(t.spec_value()) == Ok::<UtpTypes, ()>(t),
{
}

/// A number names a packet kind exactly when it is at most four, and that
/// kind has the number.
pub proof fn lemma_from_value_roundtrip(value: u32)
    ensures
        UtpTypes::spec_from_value(value) is Ok <==> value <= 4,
        UtpTypes::spec_from_value(value) matches Ok(t) ==> t.spec_value() == value,
{
}


/// The numbers of the packet kinds: StData 0, StFin 1, StState 2, StReset 3, StSyn 4.
pub proof fn lemma_kind_numbers(t: UtpTypes)
    ensures
        t == UtpTypes::StData ==> t.spec_value() == 0,
        t == UtpTypes::StFin ==> t.spec_value() == 1,
        t == UtpTypes::StState ==> t.spec_value() == 2,
        t == UtpTypes::StReset ==> t.spec_value() == 3,
        t == UtpTypes::StSyn ==> t.spec_value() == 4,
        UtpTypes::spec_from_value(0u32) == Ok::<UtpTypes, ()>(UtpTypes::StData),
        UtpTypes::spec_from_value(1u32) == Ok::<UtpTypes, ()>(UtpTypes::StFin),
        UtpTypes::spec_from_value(2u32) == Ok::<UtpTypes, ()>(UtpTypes::StState),
        UtpTypes::spec_from_value(3u32) == Ok::<UtpTypes, ()>(UtpTypes::StReset),
        UtpTypes::spec_from_value(4u32) == Ok::<UtpTypes, ()>(UtpTypes::StSyn),
{
}

} // verus!
