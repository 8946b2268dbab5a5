use vstd::prelude::*;

verus! {

/// Where a connection stands.
#[derive(Debug, PartialEq, Eq, Structural)]
pub enum UtpState {
    SynSent,
    SynRecv,
    Connected,
    Waiting,
    Closed,
}

} // verus!
