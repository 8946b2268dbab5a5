use vstd::prelude::*;

verus! {

/// Where a connection stands.
#[derive(Debug)]
pub enum UtpState {
    SynSent,
    SynRecv,
    Connected,
    Waiting,
    Closed,
}

} // verus!
