use vstd::prelude::*;

verus! {

/// The numbers that one end keeps of a connection.
pub struct Connection {
    window_size: u32,
    seq_num: u16,
    ack_num: u16,
    reply_micro: u32,
}

/// What a connection holds: window size, sequence number, acknowledgement
/// number and reply delay.
pub struct ConnectionModel {
    pub window_size: u32,
    pub seq_num: u16,
    pub ack_num: u16,
    pub reply_micro: u32,
}

impl View for Connection {
    type V = ConnectionModel;

    closed spec fn view(&self) -> ConnectionModel {
        ConnectionModel {
            window_size: self.window_size,
            seq_num: self.seq_num,
            ack_num: self.ack_num,
            reply_micro: self.reply_micro,
        }
    }
}

impl Connection {
    /// A connection with every number zero.
    pub fn new() -> (r: Self)
        ensures
            r@ == (ConnectionModel { window_size: 0, seq_num: 0, ack_num: 0, reply_micro: 0 }),
    {
        Self { window_size: 0, seq_num: 0, ack_num: 0, reply_micro: 0 }
    }
}

} // verus!
