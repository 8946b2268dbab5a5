use vstd::prelude::*;
use vstd::slice::slice_to_vec;
use crate::utils::clock::unix_millis;
use crate::utp::endian::{
    be16, be32, lemma_be16_roundtrip, lemma_be32_roundtrip, lemma_u16_from_be_roundtrip,
    lemma_u32_from_be_roundtrip, push_be16, push_be32, read_be16, read_be32, u16_from_be,
    u32_from_be,
};
use crate::utp::utp_type::UtpType;

verus! {

pub const HEADER_SIZE: usize = 20;

/*
0       4       8               16              24              32
+-------+-------+---------------+---------------+---------------+
| type  | ver   | extension     | connection_id                 |
+-------+-------+---------------+---------------+---------------+
| timestamp_microseconds                                        |
+---------------+---------------+---------------+---------------+
| timestamp_difference_microseconds                             |
+---------------+---------------+---------------+---------------+
| wnd_size                                                      |
+---------------+---------------+---------------+---------------+
| seq_nr                        | ack_nr                        |
+---------------+---------------+---------------+---------------+
*/

/// The header of a packet in the first wire layout.
#[derive(Debug)]
pub struct UtpHeader {
    pub _type: UtpType,
    pub version: u8,
    pub extension: u8,
    pub connection_id: u16,
    pub timestamp: u32,
    pub timestamp_diff: u32,
    pub wnd_size: u32,
    pub seq_nr: u16,
    pub ack_nr: u16,
}

/// A packet in the first wire layout: a header and its payload.
#[derive(Debug)]
pub struct UtpPacket {
    pub header: UtpHeader,
    pub payload: Vec<u8>,
}

/// The twenty header bytes: the type number in the high four bits of the
/// first byte and the low four bits of the version in its low four bits, the
/// extension byte, then the numbers in big-endian order.
pub open spec fn spec_header_bytes(h: UtpHeader) -> Seq<u8> {
    seq![(h._type.spec_value() * 16 + h.version % 16) as u8, h.extension] + be16(h.connection_id)
        + be32(h.timestamp) + be32(h.timestamp_diff) + be32(h.wnd_size) + be16(h.seq_nr) + be16(
        h.ack_nr,
    )
}

/// The packet kind with wire number `value`, for a number of at most four.
pub open spec fn spec_type_of(value: u8) -> UtpType {
    match value {
        0 => UtpType::StData,
        1 => UtpType::StFin,
        2 => UtpType::StState,
        3 => UtpType::StReset,
        _ => UtpType::StSyn,
    }
}

/// The header read from the first twenty bytes of `b`.
pub open spec fn spec_header_of(b: Seq<u8>) -> UtpHeader {
    UtpHeader {
        _type: spec_type_of(b[0] / 16),
        version: b[0] % 16,
        extension: b[1],
        connection_id: u16_from_be(b[2], b[3]),
        timestamp: u32_from_be(b[4], b[5], b[6], b[7]),
        timestamp_diff: u32_from_be(b[8], b[9], b[10], b[11]),
        wnd_size: u32_from_be(b[12], b[13], b[14], b[15]),
        seq_nr: u16_from_be(b[16], b[17]),
        ack_nr: u16_from_be(b[18], b[19]),
    }
}

impl UtpPacket {
    /// A FIN packet of version one, no extension, no window, stamped with the
    /// clock's milliseconds since the Unix epoch cut to 32 bits.
    pub fn new(payload: Vec<u8>, conn_id: u16, seq_nr: u16, ack_nr: u16) -> (r: Self)
        ensures
            r.header._type == UtpType::StFin,
            r.header.version == 1,
            r.header.extension == 0,
            r.header.connection_id == conn_id,
            r.header.timestamp_diff == 0,
            r.header.wnd_size == 0,
            r.header.seq_nr == seq_nr,
            r.header.ack_nr == ack_nr,
            r.payload@ == payload@,
    {
        let timestamp = unix_millis() as u32;
        Self::new_at(payload, conn_id, seq_nr, ack_nr, timestamp)
    }

    /// A FIN packet of version one, no extension, no window, stamped with
    /// `timestamp`.
    pub fn new_at(payload: Vec<u8>, conn_id: u16, seq_nr: u16, ack_nr: u16, timestamp: u32) -> (r: Self)
        ensures
            r.header == (UtpHeader {
                _type: UtpType::StFin,
                version: 1,
                extension: 0,
                connection_id: conn_id,
                timestamp,
                timestamp_diff: 0,
                wnd_size: 0,
                seq_nr,
                ack_nr,
            }),
            r.payload@ == payload@,
    {
        Self {
            header: UtpHeader {
                _type: UtpType::StFin,
                version: 1,
                extension: 0,
                connection_id: conn_id,
                timestamp,
                timestamp_diff: 0,
                wnd_size: 0,
                seq_nr,
                ack_nr,
            },
            payload,
        }
    }

    /// The header bytes followed by the payload.
    pub fn to_bytes(&self) -> (bytes: Vec<u8>)
        ensures
            bytes@ == spec_header_bytes(self.header) + self.payload@,
    {
        let mut bytes: Vec<u8> = Vec::new();
        let t: u8 = self.header._type.value();
        let v: u8 = self.header.version;
        assert(t <= 4 ==> (t << 4u8) | (v & 0x0Fu8) == t * 16 + v % 16) by (bit_vector);
        bytes.push((t << 4u8) | (v & 0x0Fu8));
        bytes.push(self.header.extension);
        push_be16(&mut bytes, self.header.connection_id);
        push_be32(&mut bytes, self.header.timestamp);
        push_be32(&mut bytes, self.header.timestamp_diff);
        push_be32(&mut bytes, self.header.wnd_size);
        push_be16(&mut bytes, self.header.seq_nr);
        push_be16(&mut bytes, self.header.ack_nr);
        let mut payload = slice_to_vec(self.payload.as_slice());
        bytes.append(&mut payload);
        assert(bytes@ =~= spec_header_bytes(self.header) + self.payload@);
        bytes
    }

    /// Reads a packet: a header from the first twenty bytes, whose type
    /// number must be at most four, and the rest as payload.
    pub fn from_bytes(bytes: &[u8]) -> (r: Self)
        requires
            bytes@.len() >= HEADER_SIZE,
            bytes@[0] / 16 <= 4,
        ensures
            r.header == spec_header_of(bytes@),
            r.payload@ == bytes@.skip(HEADER_SIZE as int),
    {
        let first: u8 = bytes[0];
        assert(first >> 4u8 == first / 16 && first & 0x0Fu8 == first % 16) by (bit_vector);
        let code: u8 = first >> 4u8;
        let _type = match UtpType::from_value(&code) {
            Ok(t) => t,
            Err(_) => {
                // no type number above four reaches here
                proof {
                    assert(false);
                }
                UtpType::StSyn
            },
        };
        let header = UtpHeader {
            _type,
            version: first & 0x0Fu8,
            extension: bytes[1],
            connection_id: read_be16(bytes, 2),
            timestamp: read_be32(bytes, 4),
            timestamp_diff: read_be32(bytes, 8),
            wnd_size: read_be32(bytes, 12),
            seq_nr: read_be16(bytes, 16),
            ack_nr: read_be16(bytes, 18),
        };
        let payload = slice_to_vec(&bytes[HEADER_SIZE..bytes.len()]);
        assert(payload@ =~= bytes@.skip(HEADER_SIZE as int));
        Self { header, payload }
    }
}

/// Where each header field lies in the bytes of a packet: the type number
/// in the high four bits of byte 0 and the version's low four bits in its
/// low four bits, the extension in byte 1, then big-endian the connection id
/// in bytes 2..4, the timestamp in 4..8, the timestamp difference in 8..12,
/// the window in 12..16, the sequence number in 16..18 and the
/// acknowledgement number in 18..20; the payload follows.
pub proof fn lemma_header_layout(h: UtpHeader, payload: Seq<u8>)
    ensures
        ({
            let s = spec_header_bytes(h) + payload;
            &&& s.len() == 20 + payload.len()
            &&& s[0] / 16 == h._type.spec_value()
            &&& s[0] % 16 == h.version % 16
            &&& s[1] == h.extension
            &&& s.subrange(2, 4) == be16(h.connection_id)
            &&& s.subrange(4, 8) == be32(h.timestamp)
            &&& s.subrange(8, 12) == be32(h.timestamp_diff)
            &&& s.subrange(12, 16) == be32(h.wnd_size)
            &&& s.subrange(16, 18) == be16(h.seq_nr)
            &&& s.subrange(18, 20) == be16(h.ack_nr)
            &&& s.skip(20) == payload
        }),
{
    let s = spec_header_bytes(h) + payload;
    let t = h._type.spec_value();
    assert(t <= 4);
    assert(((t * 16 + h.version % 16) as u8) / 16 == t);
    assert(((t * 16 + h.version % 16) as u8) % 16 == h.version % 16);
    assert(s.subrange(2, 4) =~= be16(h.connection_id));
    assert(s.subrange(4, 8) =~= be32(h.timestamp));
    assert(s.subrange(8, 12) =~= be32(h.timestamp_diff));
    assert(s.subrange(12, 16) =~= be32(h.wnd_size));
    assert(s.subrange(16, 18) =~= be16(h.seq_nr));
    assert(s.subrange(18, 20) =~= be16(h.ack_nr));
    assert(s.skip(20) =~= payload);
}

/// The header read from bytes takes each field from its place: the type
/// from the high four bits of byte 0, the version from its low four bits,
/// the extension from byte 1, then big-endian the connection id from bytes
/// 2..4, the timestamp from 4..8, the timestamp difference from 8..12, the
/// window from 12..16, the sequence number from 16..18 and the
/// acknowledgement number from 18..20.
pub proof fn lemma_header_of_layout(b: Seq<u8>)
    requires
        b.len() >= 20,
        b[0] / 16 <= 4,
    ensures
        spec_header_of(b)._type.spec_value() == b[0] / 16,
        spec_header_of(b).version == b[0] % 16,
        spec_header_of(b).extension == b[1],
        be16(spec_header_of(b).connection_id) == b.subrange(2, 4),
        be32(spec_header_of(b).timestamp) == b.subrange(4, 8),
        be32(spec_header_of(b).timestamp_diff) == b.subrange(8, 12),
        be32(spec_header_of(b).wnd_size) == b.subrange(12, 16),
        be16(spec_header_of(b).seq_nr) == b.subrange(16, 18),
        be16(spec_header_of(b).ack_nr) == b.subrange(18, 20),
{
    lemma_u16_from_be_roundtrip(b[2], b[3]);
    lemma_u32_from_be_roundtrip(b[4], b[5], b[6], b[7]);
    lemma_u32_from_be_roundtrip(b[8], b[9], b[10], b[11]);
    lemma_u32_from_be_roundtrip(b[12], b[13], b[14], b[15]);
    lemma_u16_from_be_roundtrip(b[16], b[17]);
    lemma_u16_from_be_roundtrip(b[18], b[19]);
    assert(b.subrange(2, 4) =~= seq![b[2], b[3]]);
    assert(b.subrange(4, 8) =~= seq![b[4], b[5], b[6], b[7]]);
    assert(b.subrange(8, 12) =~= seq![b[8], b[9], b[10], b[11]]);
    assert(b.subrange(12, 16) =~= seq![b[12], b[13], b[14], b[15]]);
    assert(b.subrange(16, 18) =~= seq![b[16], b[17]]);
    assert(b.subrange(18, 20) =~= seq![b[18], b[19]]);
}

/// Reading back the bytes of a packet gives its header and payload, for
/// every header whose version fits in four bits.
pub proof fn lemma_packet_bytes_roundtrip(h: UtpHeader, payload: Seq<u8>)
    requires
        h.version < 16,
    ensures
        (spec_header_bytes(h) + payload).len() >= HEADER_SIZE,
        (spec_header_bytes(h) + payload)[0] / 16 <= 4,
        spec_header_of(spec_header_bytes(h) + payload) == h,
        (spec_header_bytes(h) + payload).skip(HEADER_SIZE as int) == payload,
{
    let s = spec_header_bytes(h) + payload;
    let t = h._type.spec_value();
    assert(t <= 4);
    assert(((t * 16 + h.version % 16) as u8) / 16 == t);
    assert(((t * 16 + h.version % 16) as u8) % 16 == h.version);
    lemma_be16_roundtrip(h.connection_id);
    lemma_be32_roundtrip(h.timestamp);
    lemma_be32_roundtrip(h.timestamp_diff);
    lemma_be32_roundtrip(h.wnd_size);
    lemma_be16_roundtrip(h.seq_nr);
    lemma_be16_roundtrip(h.ack_nr);
    assert(s[2] == be16(h.connection_id)[0] && s[3] == be16(h.connection_id)[1]);
    assert(s[4] == be32(h.timestamp)[0] && s[5] == be32(h.timestamp)[1]);
    assert(s[6] == be32(h.timestamp)[2] && s[7] == be32(h.timestamp)[3]);
    assert(s[8] == be32(h.timestamp_diff)[0] && s[9] == be32(h.timestamp_diff)[1]);
    assert(s[10] == be32(h.timestamp_diff)[2] && s[11] == be32(h.timestamp_diff)[3]);
    assert(s[12] == be32(h.wnd_size)[0] && s[13] == be32(h.wnd_size)[1]);
    assert(s[14] == be32(h.wnd_size)[2] && s[15] == be32(h.wnd_size)[3]);
    assert(s[16] == be16(h.seq_nr)[0] && s[17] == be16(h.seq_nr)[1]);
    assert(s[18] == be16(h.ack_nr)[0] && s[19] == be16(h.ack_nr)[1]);
    assert(spec_type_of(t) == h._type);
    assert(s.skip(HEADER_SIZE as int) =~= payload);
}

} // verus!
