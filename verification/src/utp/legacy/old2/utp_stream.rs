use vstd::prelude::*;
use vstd::slice::slice_to_vec;
use crate::archive::legacy::old2::utp_state::UtpState;
use crate::archive::legacy::old2::utp_type::UtpType;

verus! {

/// The bytes kept for reading once a packet of kind `packet_type` arrives:
/// the payload of a DATA packet is added after those already kept.
pub open spec fn kept_after(buffered: Seq<u8>, packet_type: UtpType, payload: Seq<u8>) -> Seq<u8> {
    if packet_type == UtpType::Data {
        buffered + payload
    } else {
        buffered
    }
}

/// The bytes kept for reading once packets of kinds `kinds` with payloads
/// `payloads` arrive, one after another.
pub open spec fn kept_after_run(buffered: Seq<u8>, kinds: Seq<UtpType>, payloads: Seq<Seq<u8>>) -> Seq<u8>
    decreases kinds.len(),
{
    if kinds.len() == 0 {
        buffered
    } else {
        kept_after_run(kept_after(buffered, kinds[0], payloads[0]), kinds.drop_first(), payloads.drop_first())
    }
}

/// The payloads of the DATA packets of a run, joined in arrival order.
pub open spec fn data_payloads(kinds: Seq<UtpType>, payloads: Seq<Seq<u8>>) -> Seq<u8>
    decreases kinds.len(),
{
    if kinds.len() == 0 {
        Seq::empty()
    } else {
        (if kinds[0] == UtpType::Data {
            payloads[0]
        } else {
            Seq::empty()
        }) + data_payloads(kinds.drop_first(), payloads.drop_first())
    }
}

/// After a run of packets the bytes kept for reading are those kept before,
/// followed by the payloads of the DATA packets in the order they arrived;
/// packets of other kinds add nothing.
pub proof fn lemma_run_keeps_data_in_order(buffered: Seq<u8>, kinds: Seq<UtpType>, payloads: Seq<Seq<u8>>)
    requires
        kinds.len() == payloads.len(),
    ensures
        kept_after_run(buffered, kinds, payloads) == buffered + data_payloads(kinds, payloads),
    decreases kinds.len(),
{
    if kinds.len() > 0 {
        let first = if kinds[0] == UtpType::Data {
            payloads[0]
        } else {
            Seq::empty()
        };
        assert(kept_after(buffered, kinds[0], payloads[0]) =~= buffered + first);
        lemma_run_keeps_data_in_order(
            kept_after(buffered, kinds[0], payloads[0]),
            kinds.drop_first(),
            payloads.drop_first(),
        );
        assert(buffered + first + data_payloads(kinds.drop_first(), payloads.drop_first()) =~= buffered
            + (first + data_payloads(kinds.drop_first(), payloads.drop_first())));
    } else {
        assert(buffered + Seq::<u8>::empty() =~= buffered);
    }
}

/// Keeps the payload of a DATA packet for reading; other packets add
/// nothing.
pub fn keep_data(buffer: &mut Vec<u8>, packet_type: &UtpType, payload: Vec<u8>)
    ensures
        final(buffer)@ == kept_after(old(buffer)@, *packet_type, payload@),
{
    match packet_type {
        UtpType::Data => {
            let mut payload = payload;
            buffer.append(&mut payload);
        },
        _ => {},
    }
}

/// The part of a stream that its receiving side updates: what it last
/// acknowledged, where the connection stands, the peer's window, the reply
/// delay, and the bytes received but not yet read.
pub struct UtpInner {
    ack_nr: u16,
    state: UtpState,
    wnd_size: u32,
    reply_micro: u32,
    receive_buffer: Vec<u8>,
}

/// What the receiving side of a stream holds.
pub struct InnerModel {
    pub ack_nr: u16,
    pub state: UtpState,
    pub wnd_size: u32,
    pub reply_micro: u32,
    pub receive_buffer: Seq<u8>,
}

impl View for UtpInner {
    type V = InnerModel;

    closed spec fn view(&self) -> InnerModel {
        InnerModel {
            ack_nr: self.ack_nr,
            state: self.state,
            wnd_size: self.wnd_size,
            reply_micro: self.reply_micro,
            receive_buffer: self.receive_buffer@,
        }
    }
}

impl UtpInner {
    /// The receiving side of a stream that has just sent its SYN: nothing
    /// acknowledged, no window, no delay, nothing received.
    pub fn new() -> (r: Self)
        ensures
            r@.ack_nr == 0,
            r@.state == UtpState::SynSent,
            r@.wnd_size == 0,
            r@.reply_micro == 0,
            r@.receive_buffer.len() == 0,
    {
        UtpInner {
            ack_nr: 0,
            state: UtpState::SynSent,
            wnd_size: 0,
            reply_micro: 0,
            receive_buffer: Vec::new(),
        }
    }

    /// The sequence number last acknowledged.
    pub fn ack_nr(&self) -> (r: u16)
        ensures
            r == self@.ack_nr,
    {
        self.ack_nr
    }

    /// The delay recorded for the last packet received.
    pub fn reply_micro(&self) -> (r: u32)
        ensures
            r == self@.reply_micro,
    {
        self.reply_micro
    }

    /// Whether the stream may send data: only once connected.
    pub fn is_connected(&self) -> (b: bool)
        ensures
            b <==> self@.state == UtpState::Connected,
    {
        self.state == UtpState::Connected
    }

    /// Takes the reply to the SYN, of kind `reply_type` and sequence number
    /// `reply_seq`: an ACK connects the stream and acknowledges that number;
    /// any other kind is refused and changes nothing.
    pub fn on_handshake_reply(&mut self, reply_type: &UtpType, reply_seq: u16) -> (r: Result<(), ()>)
        ensures
            r is Ok <==> *reply_type == UtpType::Ack,
            r is Ok ==> final(self)@ == (InnerModel {
                state: UtpState::Connected,
                ack_nr: reply_seq,
                ..old(self)@
            }),
            r is Err ==> final(self)@ == old(self)@,
    {
        match reply_type {
            UtpType::Ack => {
                self.state = UtpState::Connected;
                self.ack_nr = reply_seq;
                Ok(())
            },
            _ => Err(()),
        }
    }

    /// Takes a packet that arrived at `now_millis`, of kind `packet_type`,
    /// with the given sequence number, window, timestamp and payload: it
    /// acknowledges the sequence number, records the peer's window and the
    /// delay since the timestamp, and keeps the payload of a DATA packet for
    /// reading.
    pub fn on_packet(
        &mut self,
        packet_type: &UtpType,
        seq_nr: u16,
        wnd_size: u32,
        timestamp: u32,
        payload: Vec<u8>,
        now_millis: u32,
    )
        requires
            timestamp <= now_millis,
        ensures
            final(self)@ == (InnerModel {
                ack_nr: seq_nr,
                wnd_size,
                reply_micro: (now_millis - timestamp) as u32,
                receive_buffer: kept_after(old(self)@.receive_buffer, *packet_type, payload@),
                ..old(self)@
            }),
    {
        self.ack_nr = seq_nr;
        self.wnd_size = wnd_size;
        self.reply_micro = now_millis - timestamp;
        keep_data(&mut self.receive_buffer, packet_type, payload);
    }

    /// Moves as many received bytes as fit into `buf`, oldest first, and
    /// returns how many.
    pub fn read(&mut self, buf: &mut [u8]) -> (n: usize)
        ensures
            n == if old(buf)@.len() < old(self)@.receive_buffer.len() {
                old(buf)@.len()
            } else {
                old(self)@.receive_buffer.len()
            },
            final(buf)@.len() == old(buf)@.len(),
            final(buf)@.subrange(0, n as int) == old(self)@.receive_buffer.subrange(0, n as int),
            final(buf)@.subrange(n as int, final(buf)@.len() as int) == old(buf)@.subrange(n as int, old(buf)@.len() as int),
            final(self)@ == (InnerModel {
                receive_buffer: old(self)@.receive_buffer.subrange(n as int, old(self)@.receive_buffer.len() as int),
                ..old(self)@
            }),
    {
        let len = self.receive_buffer.len();
        let n = if buf.len() < len {
            buf.len()
        } else {
            len
        };
        let mut i: usize = 0;
        while i < n
            invariant
                n <= buf@.len(),
                n <= self.receive_buffer@.len(),
                i <= n,
                self@ == old(self)@,
                buf@.len() == old(buf)@.len(),
                buf@.subrange(0, i as int) == old(self)@.receive_buffer.subrange(0, i as int),
                buf@.subrange(n as int, buf@.len() as int) == old(buf)@.subrange(n as int, old(buf)@.len() as int),
            decreases n - i,
        {
            buf[i] = self.receive_buffer[i];
            i = i + 1;
            assert(buf@.subrange(0, i as int) =~= old(self)@.receive_buffer.subrange(0, i as int));
        }
        self.receive_buffer = slice_to_vec(&self.receive_buffer.as_slice()[n..len]);
        n
    }
}

} // verus!
