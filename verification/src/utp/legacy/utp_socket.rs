use vstd::prelude::*;
use crate::archive::legacy::old2::utp_state::UtpState;
use crate::archive::legacy::old2::utp_type::UtpType;
use crate::utp::utp_packet::HEADER_SIZE;

verus! {

/// The largest window this end allows.
pub const MAX_WINDOW: u32 = 1500;

/// The decisions of a socket, apart from its datagram socket and peer
/// address: connection ids, sequence and acknowledgement numbers, where the
/// connection stands, and the windows.
pub struct SocketCore {
    recv_conn_id: u16,
    send_conn_id: u16,
    seq_nr: u16,
    ack_nr: u16,
    state: UtpState,
    max_window: u32,
    cur_window: u32,
    wnd_size: u32,
    reply_micro: u32,
}

/// What a socket's decisions rest on.
pub struct SocketModel {
    pub recv_conn_id: u16,
    pub send_conn_id: u16,
    pub seq_nr: u16,
    pub ack_nr: u16,
    pub state: UtpState,
    pub max_window: u32,
    pub cur_window: u32,
    pub wnd_size: u32,
    pub reply_micro: u32,
}

/// The numbers of a packet that the socket is to send: connection id,
/// sequence and acknowledgement numbers, window, and reply delay.
#[derive(Debug, PartialEq, Eq, Structural)]
pub struct OutgoingHeader {
    pub conn_id: u16,
    pub seq_nr: u16,
    pub ack_nr: u16,
    pub wnd_size: u32,
    pub reply_micro: u32,
}

/// Why the socket does not send.
#[derive(Debug, PartialEq, Eq, Structural)]
pub enum SendRefusal {
    /// The socket is not connected.
    NotConnected,
    /// The packet does not fit in the window.
    WindowFull,
}

/// What the socket does with a packet it took in.
#[derive(Debug, PartialEq, Eq, Structural)]
pub enum ReceiveAction {
    /// Acknowledge it with a STATE packet of these numbers, then hand its
    /// payload over.
    Acknowledge(OutgoingHeader),
    /// The peer closed the connection.
    Closed,
    /// Nothing to hand over: wait for the next packet.
    ReceiveAgain,
}

impl View for SocketCore {
    type V = SocketModel;

    closed spec fn view(&self) -> SocketModel {
        SocketModel {
            recv_conn_id: self.recv_conn_id,
            send_conn_id: self.send_conn_id,
            seq_nr: self.seq_nr,
            ack_nr: self.ack_nr,
            state: self.state,
            max_window: self.max_window,
            cur_window: self.cur_window,
            wnd_size: self.wnd_size,
            reply_micro: self.reply_micro,
        }
    }
}

/// The smaller of two windows.
pub open spec fn min_window(a: u32, b: u32) -> u32 {
    if a <= b {
        a
    } else {
        b
    }
}

/// The smaller window is no larger than either and is one of them.
pub proof fn lemma_min_window(a: u32, b: u32)
    ensures
        min_window(a, b) <= a,
        min_window(a, b) <= b,
        min_window(a, b) == a || min_window(a, b) == b,
{
}

/// Whether a packet with sequence number `seq` fits: the bytes in flight
/// plus that number stay within both this end's and the peer's window.
pub open spec fn fits_window(s: SocketModel, seq: u16) -> bool {
    s.cur_window + seq <= s.max_window && s.cur_window + seq <= s.wnd_size
}

impl SocketCore {
    /// A socket bound to a local address and waiting for a peer, receiving on
    /// connection id `conn_id` and sending on the next one.
    pub fn bound(conn_id: u16) -> (r: Self)
        requires
            conn_id < u16::MAX,
        ensures
            r@ == (SocketModel {
                recv_conn_id: conn_id,
                send_conn_id: (conn_id + 1) as u16,
                seq_nr: 0,
                ack_nr: 0,
                state: UtpState::Waiting,
                max_window: MAX_WINDOW,
                cur_window: 0,
                wnd_size: 0,
                reply_micro: 0,
            }),
    {
        SocketCore {
            recv_conn_id: conn_id,
            send_conn_id: conn_id + 1,
            seq_nr: 0,
            ack_nr: 0,
            state: UtpState::Waiting,
            max_window: MAX_WINDOW,
            cur_window: 0,
            wnd_size: 0,
            reply_micro: 0,
        }
    }

    /// A socket that is sending its SYN, with sequence number one.
    pub fn connecting(conn_id: u16) -> (r: Self)
        requires
            conn_id < u16::MAX,
        ensures
            r@ == (SocketModel {
                recv_conn_id: conn_id,
                send_conn_id: (conn_id + 1) as u16,
                seq_nr: 1,
                ack_nr: 0,
                state: UtpState::SynSent,
                max_window: MAX_WINDOW,
                cur_window: 0,
                wnd_size: 0,
                reply_micro: 0,
            }),
    {
        SocketCore {
            recv_conn_id: conn_id,
            send_conn_id: conn_id + 1,
            seq_nr: 1,
            ack_nr: 0,
            state: UtpState::SynSent,
            max_window: MAX_WINDOW,
            cur_window: 0,
            wnd_size: 0,
            reply_micro: 0,
        }
    }

    /// The numbers of the SYN: the receiving connection id, sequence number
    /// one, nothing acknowledged, the bytes in flight as window, no delay.
    pub fn syn_header(&self) -> (h: OutgoingHeader)
        ensures
            h == (OutgoingHeader {
                conn_id: self@.recv_conn_id,
                seq_nr: 1,
                ack_nr: 0,
                wnd_size: self@.cur_window,
                reply_micro: 0,
            }),
    {
        OutgoingHeader { conn_id: self.recv_conn_id, seq_nr: 1, ack_nr: 0, wnd_size: self.cur_window, reply_micro: 0 }
    }

    /// The numbers of the SYN that a stream sends: like `syn_header`, but
    /// offering this end's largest window.
    pub fn stream_syn_header(&self) -> (h: OutgoingHeader)
        ensures
            h == (OutgoingHeader {
                conn_id: self@.recv_conn_id,
                seq_nr: 1,
                ack_nr: 0,
                wnd_size: self@.max_window,
                reply_micro: 0,
            }),
    {
        OutgoingHeader { conn_id: self.recv_conn_id, seq_nr: 1, ack_nr: 0, wnd_size: self.max_window, reply_micro: 0 }
    }

    /// The numbers of a DATA packet that a stream writes, acknowledging
    /// `ack_nr` with reply delay `reply_micro`: the next sequence number
    /// (which the stream does not keep) and the bytes in flight as window.
    /// There is no next sequence number after the largest.
    pub fn stream_data_header(&self, ack_nr: u16, reply_micro: u32) -> (h: Option<OutgoingHeader>)
        ensures
            h is None <==> self@.seq_nr == u16::MAX,
            h is Some ==> h == Some(
                OutgoingHeader {
                    conn_id: self@.send_conn_id,
                    seq_nr: (self@.seq_nr + 1) as u16,
                    ack_nr,
                    wnd_size: self@.cur_window,
                    reply_micro,
                },
            ),
    {
        if self.seq_nr == u16::MAX {
            return None;
        }
        Some(
            OutgoingHeader {
                conn_id: self.send_conn_id,
                seq_nr: self.seq_nr + 1,
                ack_nr,
                wnd_size: self.cur_window,
                reply_micro,
            },
        )
    }

    /// Whether `send` may be asked to send `payload_len` bytes: exactly when
    /// no number it computes overflows.
    pub fn send_within_limits(&self, payload_len: usize) -> (b: bool)
        ensures
            b <==> {
                &&& self@.state == UtpState::Connected ==> self@.seq_nr < u16::MAX
                &&& self@.state == UtpState::Connected ==> self@.cur_window + self@.seq_nr + 1 <= u32::MAX
                &&& self@.state == UtpState::Connected && fits_window(self@, (self@.seq_nr + 1) as u16)
                    ==> self@.cur_window + HEADER_SIZE + payload_len <= u32::MAX
            },
    {
        if self.state != UtpState::Connected {
            return true;
        }
        if self.seq_nr == u16::MAX {
            return false;
        }
        let seq: u64 = self.seq_nr as u64 + 1;
        if self.cur_window as u64 + seq > u32::MAX as u64 {
            return false;
        }
        let window = if self.max_window <= self.wnd_size {
            self.max_window
        } else {
            self.wnd_size
        };
        if self.cur_window as u64 + seq <= window as u64 {
            (self.cur_window as u128) + (HEADER_SIZE as u128) + (payload_len as u128) <= u32::MAX as u128
        } else {
            true
        }
    }

    /// Whether `send_queued` may be asked to queue `payload_len` bytes:
    /// exactly when no number it computes overflows.
    pub fn send_queued_within_limits(&self, payload_len: u32) -> (b: bool)
        ensures
            b <==> {
                &&& self@.state == UtpState::Connected ==> self@.cur_window + payload_len <= u32::MAX
                &&& self@.state == UtpState::Connected ==> self@.seq_nr < u16::MAX
            },
    {
        if self.state != UtpState::Connected {
            return true;
        }
        (self.cur_window as u64) + (payload_len as u64) <= u32::MAX as u64 && self.seq_nr < u16::MAX
    }

    /// Whether the socket is connected.
    pub fn is_connected(&self) -> (b: bool)
        ensures
            b <==> self@.state == UtpState::Connected,
    {
        self.state == UtpState::Connected
    }

    /// Takes the reply to the SYN: an ACK connects the socket and
    /// acknowledges its sequence number; any other kind is refused and
    /// changes nothing.
    pub fn on_handshake_reply(&mut self, reply_type: &UtpType, reply_seq: u16) -> (r: Result<(), ()>)
        ensures
            r is Ok <==> *reply_type == UtpType::Ack,
            r is Ok ==> final(self)@ == (SocketModel {
                state: UtpState::Connected,
                ack_nr: reply_seq,
                ..old(self)@
            }),
            r is Err ==> final(self)@ == old(self)@,
    {
        match reply_type {
            UtpType::Ack => {
                self.state = UtpState::Connected;
                self.ack_nr = reply_seq;
                Ok(())
            },
            _ => Err(()),
        }
    }

    /// Decides whether to send `payload_len` bytes of data. A socket that is
    /// not connected refuses. Otherwise the packet takes the next sequence
    /// number and is sent when it fits the window: the sequence number
    /// advances and the bytes in flight grow by the whole packet. The
    /// numbers of the packet carry the window as it was before.
    pub fn send(&mut self, payload_len: usize) -> (r: Result<OutgoingHeader, SendRefusal>)
        requires
            old(self)@.state == UtpState::Connected ==> old(self)@.seq_nr < u16::MAX,
            old(self)@.state == UtpState::Connected ==> old(self)@.cur_window + old(self)@.seq_nr + 1 <= u32::MAX,
            old(self)@.state == UtpState::Connected && fits_window(old(self)@, (old(self)@.seq_nr + 1) as u16)
                ==> old(self)@.cur_window + HEADER_SIZE + payload_len <= u32::MAX,
        ensures
            r is Ok ==> old(self)@.state == UtpState::Connected,
            r is Ok ==> old(self)@.cur_window + old(self)@.seq_nr + 1 <= old(self)@.max_window,
            r is Ok ==> old(self)@.cur_window + old(self)@.seq_nr + 1 <= old(self)@.wnd_size,
            old(self)@.state == UtpState::Connected
                && old(self)@.cur_window + old(self)@.seq_nr + 1 <= old(self)@.max_window
                && old(self)@.cur_window + old(self)@.seq_nr + 1 <= old(self)@.wnd_size ==> r is Ok,
            old(self)@.state != UtpState::Connected ==> r == Err::<OutgoingHeader, SendRefusal>(SendRefusal::NotConnected)
                && final(self)@ == old(self)@,
            old(self)@.state == UtpState::Connected && !fits_window(old(self)@, (old(self)@.seq_nr + 1) as u16)
                ==> r == Err::<OutgoingHeader, SendRefusal>(SendRefusal::WindowFull) && final(self)@ == old(self)@,
            old(self)@.state == UtpState::Connected && fits_window(old(self)@, (old(self)@.seq_nr + 1) as u16) ==> {
                &&& r == Ok::<OutgoingHeader, SendRefusal>(
                    OutgoingHeader {
                        conn_id: old(self)@.send_conn_id,
                        seq_nr: (old(self)@.seq_nr + 1) as u16,
                        ack_nr: old(self)@.ack_nr,
                        wnd_size: old(self)@.cur_window,
                        reply_micro: old(self)@.reply_micro,
                    },
                )
                &&& final(self)@ == (SocketModel {
                    seq_nr: (old(self)@.seq_nr + 1) as u16,
                    cur_window: (old(self)@.cur_window + HEADER_SIZE + payload_len) as u32,
                    ..old(self)@
                })
            },
    {
        if self.state != UtpState::Connected {
            return Err(SendRefusal::NotConnected);
        }

        let seq_nr = self.seq_nr + 1;
        let header = OutgoingHeader {
            conn_id: self.send_conn_id,
            seq_nr,
            ack_nr: self.ack_nr,
            wnd_size: self.cur_window,
            reply_micro: self.reply_micro,
        };

        let window = if self.max_window <= self.wnd_size {
            self.max_window
        } else {
            self.wnd_size
        };
        if self.cur_window + seq_nr as u32 <= window {
            self.seq_nr = seq_nr;
            self.cur_window = self.cur_window + (HEADER_SIZE + payload_len) as u32;
            return Ok(header);
        }

        Err(SendRefusal::WindowFull)
    }

    /// Decides whether to queue `payload_len` bytes of data for sending, by
    /// the later rule: a socket that is not connected refuses; so does one
    /// whose bytes in flight plus the payload stay below both windows. Any
    /// other socket counts the payload as in flight and sends it with the
    /// next sequence number, which it does not keep, carrying the grown
    /// window.
    pub fn send_queued(&mut self, payload_len: u32) -> (r: Result<OutgoingHeader, SendRefusal>)
        requires
            old(self)@.state == UtpState::Connected ==> old(self)@.cur_window + payload_len <= u32::MAX,
            old(self)@.state == UtpState::Connected ==> old(self)@.seq_nr < u16::MAX,
        ensures
            r is Ok ==> old(self)@.state == UtpState::Connected,
            r is Ok ==> old(self)@.cur_window + payload_len >= old(self)@.max_window
                || old(self)@.cur_window + payload_len >= old(self)@.wnd_size,
            old(self)@.state == UtpState::Connected && (old(self)@.cur_window + payload_len
                >= old(self)@.max_window || old(self)@.cur_window + payload_len >= old(self)@.wnd_size)
                ==> r is Ok,
            old(self)@.state != UtpState::Connected ==> r == Err::<OutgoingHeader, SendRefusal>(SendRefusal::NotConnected)
                && final(self)@ == old(self)@,
            old(self)@.state == UtpState::Connected && old(self)@.cur_window + payload_len < min_window(
                old(self)@.max_window,
                old(self)@.wnd_size,
            ) ==> r == Err::<OutgoingHeader, SendRefusal>(SendRefusal::WindowFull) && final(self)@ == old(self)@,
            old(self)@.state == UtpState::Connected && old(self)@.cur_window + payload_len >= min_window(
                old(self)@.max_window,
                old(self)@.wnd_size,
            ) ==> {
                &&& final(self)@ == (SocketModel {
                    cur_window: (old(self)@.cur_window + payload_len) as u32,
                    ..old(self)@
                })
                &&& r == Ok::<OutgoingHeader, SendRefusal>(
                    OutgoingHeader {
                        conn_id: old(self)@.send_conn_id,
                        seq_nr: (old(self)@.seq_nr + 1) as u16,
                        ack_nr: old(self)@.ack_nr,
                        wnd_size: (old(self)@.cur_window + payload_len) as u32,
                        reply_micro: old(self)@.reply_micro,
                    },
                )
            },
    {
        if self.state != UtpState::Connected {
            return Err(SendRefusal::NotConnected);
        }

        let window = if self.max_window <= self.wnd_size {
            self.max_window
        } else {
            self.wnd_size
        };
        if self.cur_window + payload_len < window {
            return Err(SendRefusal::WindowFull);
        }

        let seq_nr = self.seq_nr + 1;
        self.cur_window = self.cur_window + payload_len;
        Ok(
            OutgoingHeader {
                conn_id: self.send_conn_id,
                seq_nr,
                ack_nr: self.ack_nr,
                wnd_size: self.cur_window,
                reply_micro: self.reply_micro,
            },
        )
    }

    /// Takes a packet handed over by the listener, with sequence number
    /// `seq_nr`: a socket that has received a SYN becomes connected and
    /// acknowledges it; a waiting or closed socket refuses; any other
    /// socket takes it as it is.
    pub fn accept_handed_over(&mut self, seq_nr: u16) -> (r: Result<(), ()>)
        ensures
            old(self)@.state == UtpState::SynRecv ==> r is Ok && final(self)@ == (SocketModel {
                ack_nr: seq_nr,
                state: UtpState::Connected,
                ..old(self)@
            }),
            (old(self)@.state == UtpState::Waiting || old(self)@.state == UtpState::Closed) ==> r is Err
                && final(self)@ == old(self)@,
            (old(self)@.state == UtpState::SynSent || old(self)@.state == UtpState::Connected) ==> r is Ok
                && final(self)@ == old(self)@,
    {
        match self.state {
            UtpState::SynRecv => {
                self.ack_nr = seq_nr;
                self.state = UtpState::Connected;
                Ok(())
            },
            UtpState::Waiting | UtpState::Closed => Err(()),
            _ => Ok(()),
        }
    }

    /// Takes a packet that arrived at `now_millis`, of kind `packet_type`,
    /// with the given sequence number, window and timestamp. It acknowledges
    /// the sequence number and records the peer's window and the delay since
    /// the timestamp. A DATA packet is answered with a STATE packet; a FIN
    /// closes the socket; any other kind leaves nothing to hand over.
    pub fn on_packet(
        &mut self,
        packet_type: &UtpType,
        seq_nr: u16,
        wnd_size: u32,
        timestamp: u32,
        now_millis: u32,
    ) -> (r: ReceiveAction)
        requires
            timestamp <= now_millis,
        ensures
            ({
                let updated = SocketModel {
                    ack_nr: seq_nr,
                    wnd_size,
                    reply_micro: (now_millis - timestamp) as u32,
                    ..old(self)@
                };
                match *packet_type {
                    UtpType::Data => r == ReceiveAction::Acknowledge(
                        OutgoingHeader {
                            conn_id: updated.send_conn_id,
                            seq_nr: updated.seq_nr,
                            ack_nr: updated.ack_nr,
                            wnd_size: updated.cur_window,
                            reply_micro: updated.reply_micro,
                        },
                    ) && final(self)@ == updated,
                    UtpType::Fin => r == ReceiveAction::Closed && final(self)@ == (SocketModel {
                        state: UtpState::Closed,
                        ..updated
                    }),
                    _ => r == ReceiveAction::ReceiveAgain && final(self)@ == updated,
                }
            }),
    {
        self.ack_nr = seq_nr;
        self.wnd_size = wnd_size;
        self.reply_micro = now_millis - timestamp;

        match packet_type {
            UtpType::Data => ReceiveAction::Acknowledge(
                OutgoingHeader {
                    conn_id: self.send_conn_id,
                    seq_nr: self.seq_nr,
                    ack_nr: self.ack_nr,
                    wnd_size: self.cur_window,
                    reply_micro: self.reply_micro,
                },
            ),
            UtpType::Fin => {
                self.state = UtpState::Closed;
                ReceiveAction::Closed
            },
            _ => ReceiveAction::ReceiveAgain,
        }
    }

    /// The numbers of the FIN that closes the socket.
    pub fn fin_header(&self) -> (h: OutgoingHeader)
        ensures
            h == (OutgoingHeader {
                conn_id: self@.send_conn_id,
                seq_nr: self@.seq_nr,
                ack_nr: self@.ack_nr,
                wnd_size: self@.cur_window,
                reply_micro: self@.reply_micro,
            }),
    {
        OutgoingHeader {
            conn_id: self.send_conn_id,
            seq_nr: self.seq_nr,
            ack_nr: self.ack_nr,
            wnd_size: self.cur_window,
            reply_micro: self.reply_micro,
        }
    }
}

/// Copies as much of a received payload as fits into `buf` and returns how
/// many bytes that is.
pub fn copy_payload(buf: &mut [u8], data: &[u8]) -> (n: usize)
    ensures
        n == if old(buf)@.len() < data@.len() {
            old(buf)@.len()
        } else {
            data@.len()
        },
        final(buf)@.len() == old(buf)@.len(),
        final(buf)@.subrange(0, n as int) == data@.subrange(0, n as int),
        final(buf)@.subrange(n as int, final(buf)@.len() as int) == old(buf)@.subrange(n as int, old(buf)@.len() as int),
{
    let n = if buf.len() < data.len() {
        buf.len()
    } else {
        data.len()
    };
    let mut i: usize = 0;
    while i < n
        invariant
            n <= buf@.len(),
            n <= data@.len(),
            i <= n,
            buf@.len() == old(buf)@.len(),
            buf@.subrange(0, i as int) == data@.subrange(0, i as int),
            buf@.subrange(n as int, buf@.len() as int) == old(buf)@.subrange(n as int, old(buf)@.len() as int),
        decreases n - i,
    {
        buf[i] = data[i];
        i = i + 1;
        assert(buf@.subrange(0, i as int) =~= data@.subrange(0, i as int));
    }
    n
}

} // verus!
