use vstd::prelude::*;
use vstd::std_specs::convert::FromSpecImpl;
use vstd::std_specs::convert::TryFromSpecImpl;
use vstd::slice::slice_to_vec;
use crate::utp::endian::{
    be16, be32, lemma_be16_roundtrip, lemma_be32_roundtrip, lemma_u16_from_be_roundtrip,
    lemma_u32_from_be_roundtrip, push_be16, push_be32, read_be16, read_be32, u16_from_be, u32_from_be,
};

verus! {

/*
0       4       8               16              24              32
+-------+-------+---------------+---------------+---------------+
| type  | ver   | extension     | connection_id                 |
+-------+-------+---------------+---------------+---------------+
| timestamp_microseconds                                        |
+---------------+---------------+---------------+---------------+
| timestamp_difference_microseconds                             |
+---------------+---------------+---------------+---------------+
| wnd_size                                                      |
+---------------+---------------+---------------+---------------+
| seq_nr                        | ack_nr                        |
+---------------+---------------+---------------+---------------+
*/

const PACKET_HEADER_LEN: usize = 20;
const SELECTIVE_ACK_BITS: usize = 32;
const EXTENSION_TYPE_LEN: usize = 1;
const EXTENSION_LEN_LEN: usize = 1;

// ---------------------------------------------------------------------------
// Packet type
// ---------------------------------------------------------------------------

/// The kind of a uTP packet.
#[derive(Copy, Clone, Debug, PartialEq, Eq, Structural)]
pub enum UtpPacketType {
    Data,
    Fin,
    State,  // also known as Ack
    Reset,
    Syn,
}

impl UtpPacketType {
    /// The four-bit number of a packet kind on the wire.
    pub open spec fn code(self) -> u8 {
        match self {
            UtpPacketType::Data => 0,
            UtpPacketType::Fin => 1,
            UtpPacketType::State => 2,
            UtpPacketType::Reset => 3,
            UtpPacketType::Syn => 4,
        }
    }

    /// The packet kind with wire number `value`, if there is one.
    pub open spec fn of_code(value: u8) -> Result<UtpPacketType, InvalidPacketType> {
        match value {
            0 => Ok(UtpPacketType::Data),
            1 => Ok(UtpPacketType::Fin),
            2 => Ok(UtpPacketType::State),
            3 => Ok(UtpPacketType::Reset),
            4 => Ok(UtpPacketType::Syn),
            _ => Err(InvalidPacketType),
        }
    }

    /// The name under which a packet kind is printed.
    pub open spec fn spec_name(self) -> Seq<char> {
        match self {
            UtpPacketType::Data => "ST_DATA"@,
            UtpPacketType::Fin => "ST_FIN"@,
            UtpPacketType::State => "ST_STATE"@,
            UtpPacketType::Reset => "ST_RESET"@,
            UtpPacketType::Syn => "ST_SYN"@,
        }
    }

    /// The name under which a packet kind is printed (`ST_DATA`, `ST_FIN`, ...).
    pub fn name(&self) -> (s: &'static str)
        ensures
            s@ == self.spec_name(),
    {
        match self {
            UtpPacketType::Data => "ST_DATA",
            UtpPacketType::Fin => "ST_FIN",
            UtpPacketType::State => "ST_STATE",
            UtpPacketType::Reset => "ST_RESET",
            UtpPacketType::Syn => "ST_SYN",
        }
    }
}

impl TryFrom<u8> for UtpPacketType {
    type Error = InvalidPacketType;

    fn try_from(value: u8) -> (r: Result<Self, InvalidPacketType>) {
        match value {
            0 => Ok(UtpPacketType::Data),
            1 => Ok(UtpPacketType::Fin),
            2 => Ok(UtpPacketType::State),
            3 => Ok(UtpPacketType::Reset),
            4 => Ok(UtpPacketType::Syn),
            _ => Err(InvalidPacketType),
        }
    }
}

impl TryFromSpecImpl<u8> for UtpPacketType {
    open spec fn obeys_try_from_spec() -> bool {
        true
    }

    open spec fn try_from_spec(v: u8) -> Result<Self, InvalidPacketType> {
        UtpPacketType::of_code(v)
    }
}

impl From<UtpPacketType> for u8 {
    fn from(value: UtpPacketType) -> (r: u8) {
        match value {
            UtpPacketType::Data => 0,
            UtpPacketType::Fin => 1,
            UtpPacketType::State => 2,
            UtpPacketType::Reset => 3,
            UtpPacketType::Syn => 4,
        }
    }
}

impl FromSpecImpl<UtpPacketType> for u8 {
    open spec fn obeys_from_spec() -> bool {
        true
    }

    open spec fn from_spec(v: UtpPacketType) -> u8 {
        v.code()
    }
}

// ---------------------------------------------------------------------------
// Version
// ---------------------------------------------------------------------------

/// The protocol version; only version one exists.
#[derive(Copy, Clone, Debug, PartialEq, Eq, Structural)]
pub enum Version {
    One,
}

impl Version {
    /// The four-bit number of a version on the wire.
    pub open spec fn code(self) -> u8 {
        match self {
            Version::One => 1,
        }
    }
}

impl TryFrom<u8> for Version {
    type Error = InvalidVersion;

    fn try_from(value: u8) -> (r: Result<Self, InvalidVersion>) {
        match value {
            1 => Ok(Version::One),
            _ => Err(InvalidVersion),
        }
    }
}

impl TryFromSpecImpl<u8> for Version {
    open spec fn obeys_try_from_spec() -> bool {
        true
    }

    open spec fn try_from_spec(v: u8) -> Result<Self, InvalidVersion> {
        if v == 1 {
            Ok(Version::One)
        } else {
            Err(InvalidVersion)
        }
    }
}

impl From<Version> for u8 {
    fn from(value: Version) -> (r: u8) {
        match value {
            Version::One => 1,
        }
    }
}

impl FromSpecImpl<Version> for u8 {
    open spec fn obeys_from_spec() -> bool {
        true
    }

    open spec fn from_spec(v: Version) -> u8 {
        v.code()
    }
}

// ---------------------------------------------------------------------------
// Extension
// ---------------------------------------------------------------------------

/// The kind of a header extension.
#[derive(Copy, Clone, Debug, PartialEq, Eq, Structural)]
pub enum Extension {
    NoExtension,
    SelectiveAck,
    Unknown(u8),
}

impl Extension {
    /// The byte of an extension kind on the wire.
    pub open spec fn code(self) -> u8 {
        match self {
            Extension::NoExtension => 0,
            Extension::SelectiveAck => 1,
            Extension::Unknown(ext) => ext,
        }
    }

    /// The extension kind that a byte on the wire names.
    pub open spec fn of_code(value: u8) -> Extension {
        match value {
            0 => Extension::NoExtension,
            1 => Extension::SelectiveAck,
            unknown => Extension::Unknown(unknown),
        }
    }

    /// An extension kind in the form that reading a byte produces: `Unknown`
    /// never holds the byte of a known kind.
    pub open spec fn is_canonical(self) -> bool {
        match self {
            Extension::Unknown(ext) => ext > 1,
            _ => true,
        }
    }

    fn is_none(&self) -> (b: bool)
        ensures
            b <==> *self == Extension::NoExtension,
    {
        match self {
            Extension::NoExtension => true,
            _ => false,
        }
    }

    fn is_selective_ack(&self) -> (b: bool)
        ensures
            b <==> *self == Extension::SelectiveAck,
    {
        match self {
            Extension::SelectiveAck => true,
            _ => false,
        }
    }
}

impl From<u8> for Extension {
    fn from(value: u8) -> (r: Extension) {
        match value {
            0 => Extension::NoExtension,
            1 => Extension::SelectiveAck,
            unknown => Extension::Unknown(unknown),
        }
    }
}

impl FromSpecImpl<u8> for Extension {
    open spec fn obeys_from_spec() -> bool {
        true
    }

    open spec fn from_spec(v: u8) -> Extension {
        Extension::of_code(v)
    }
}

impl From<Extension> for u8 {
    fn from(value: Extension) -> (r: u8) {
        match value {
            Extension::NoExtension => 0,
            Extension::SelectiveAck => 1,
            Extension::Unknown(ext) => ext,
        }
    }
}

impl FromSpecImpl<Extension> for u8 {
    open spec fn obeys_from_spec() -> bool {
        true
    }

    open spec fn from_spec(v: Extension) -> u8 {
        v.code()
    }
}

// ---------------------------------------------------------------------------
// Errors
// ---------------------------------------------------------------------------

/// A packet-type number above four.
#[derive(Copy, Clone, Debug, PartialEq, Eq, Structural)]
pub struct InvalidPacketType;

impl InvalidPacketType {
    /// The message under which this error is printed.
    pub fn message(&self) -> (s: &'static str)
        ensures
            s@ == "invalid uTP packet type"@,
    {
        "invalid uTP packet type"
    }
}

/// A version number other than one.
#[derive(Copy, Clone, Debug, PartialEq, Eq, Structural)]
pub struct InvalidVersion;

impl InvalidVersion {
    /// The message under which this error is printed.
    pub fn message(&self) -> (s: &'static str)
        ensures
            s@ == "invalid uTP version"@,
    {
        "invalid uTP version"
    }
}

/// Why a selective-ACK bitmask was refused.
#[derive(Copy, Clone, Debug, PartialEq, Eq, Structural)]
pub enum SelectiveAckError {
    InsufficientLen,
    InvalidLen,
}

impl SelectiveAckError {
    /// The message under which this error is printed.
    pub open spec fn spec_message(self) -> Seq<char> {
        match self {
            SelectiveAckError::InsufficientLen => "selective ACK len must be at least 32 bits"@,
            SelectiveAckError::InvalidLen => "selective ACK len must be a multiple of 32 bits"@,
        }
    }

    /// The message under which this error is printed.
    pub fn message(&self) -> (s: &'static str)
        ensures
            s@ == self.spec_message(),
    {
        match self {
            SelectiveAckError::InsufficientLen => "selective ACK len must be at least 32 bits",
            SelectiveAckError::InvalidLen => "selective ACK len must be a multiple of 32 bits",
        }
    }
}

/// Why the extensions of a packet were refused.
#[derive(Copy, Clone, Debug, PartialEq, Eq, Structural)]
pub enum ExtensionError {
    InsufficientLen,
    InvalidSelectiveAck(SelectiveAckError),
}

impl ExtensionError {
    /// The message under which this error is printed.
    pub open spec fn spec_message(self) -> Seq<char> {
        match self {
            ExtensionError::InsufficientLen => "insufficient extension len"@,
            ExtensionError::InvalidSelectiveAck(err) => err.spec_message(),
        }
    }

    /// The message under which this error is printed.
    pub fn message(&self) -> (s: &'static str)
        ensures
            s@ == self.spec_message(),
    {
        match self {
            ExtensionError::InsufficientLen => "insufficient extension len",
            ExtensionError::InvalidSelectiveAck(err) => err.message(),
        }
    }
}

impl From<SelectiveAckError> for ExtensionError {
    fn from(value: SelectiveAckError) -> (r: Self) {
        ExtensionError::InvalidSelectiveAck(value)
    }
}

impl FromSpecImpl<SelectiveAckError> for ExtensionError {
    open spec fn obeys_from_spec() -> bool {
        true
    }

    open spec fn from_spec(v: SelectiveAckError) -> ExtensionError {
        ExtensionError::InvalidSelectiveAck(v)
    }
}

/// Why a packet header was refused.
#[derive(Copy, Clone, Debug, PartialEq, Eq, Structural)]
pub enum UtpPacketHeaderError {
    InvalidPacketType(InvalidPacketType),
    InvalidVersion(InvalidVersion),
    InvalidExtension(ExtensionError),
    InvalidLen,
}

impl From<InvalidPacketType> for UtpPacketHeaderError {
    fn from(value: InvalidPacketType) -> (r: Self) {
        UtpPacketHeaderError::InvalidPacketType(value)
    }
}

impl FromSpecImpl<InvalidPacketType> for UtpPacketHeaderError {
    open spec fn obeys_from_spec() -> bool {
        true
    }

    open spec fn from_spec(v: InvalidPacketType) -> UtpPacketHeaderError {
        UtpPacketHeaderError::InvalidPacketType(v)
    }
}

impl From<InvalidVersion> for UtpPacketHeaderError {
    fn from(value: InvalidVersion) -> (r: Self) {
        UtpPacketHeaderError::InvalidVersion(value)
    }
}

impl FromSpecImpl<InvalidVersion> for UtpPacketHeaderError {
    open spec fn obeys_from_spec() -> bool {
        true
    }

    open spec fn from_spec(v: InvalidVersion) -> UtpPacketHeaderError {
        UtpPacketHeaderError::InvalidVersion(v)
    }
}

impl From<ExtensionError> for UtpPacketHeaderError {
    fn from(value: ExtensionError) -> (r: Self) {
        UtpPacketHeaderError::InvalidExtension(value)
    }
}

impl FromSpecImpl<ExtensionError> for UtpPacketHeaderError {
    open spec fn obeys_from_spec() -> bool {
        true
    }

    open spec fn from_spec(v: ExtensionError) -> UtpPacketHeaderError {
        UtpPacketHeaderError::InvalidExtension(v)
    }
}

/// Why a packet was refused.
#[derive(Copy, Clone, Debug, PartialEq, Eq, Structural)]
pub enum UtpPacketError {
    InvalidHeader(UtpPacketHeaderError),
    InvalidExtension(ExtensionError),
    InvalidLen,
    EmptyDataPayload,
}

impl From<UtpPacketHeaderError> for UtpPacketError {
    fn from(value: UtpPacketHeaderError) -> (r: Self) {
        UtpPacketError::InvalidHeader(value)
    }
}

impl FromSpecImpl<UtpPacketHeaderError> for UtpPacketError {
    open spec fn obeys_from_spec() -> bool {
        true
    }

    open spec fn from_spec(v: UtpPacketHeaderError) -> UtpPacketError {
        UtpPacketError::InvalidHeader(v)
    }
}

impl From<ExtensionError> for UtpPacketError {
    fn from(value: ExtensionError) -> (r: Self) {
        UtpPacketError::InvalidExtension(value)
    }
}

impl FromSpecImpl<ExtensionError> for UtpPacketError {
    open spec fn obeys_from_spec() -> bool {
        true
    }

    open spec fn from_spec(v: ExtensionError) -> UtpPacketError {
        UtpPacketError::InvalidExtension(v)
    }
}

impl From<SelectiveAckError> for UtpPacketError {
    fn from(value: SelectiveAckError) -> (r: Self) {
        UtpPacketError::InvalidExtension(ExtensionError::InvalidSelectiveAck(value))
    }
}

impl FromSpecImpl<SelectiveAckError> for UtpPacketError {
    open spec fn obeys_from_spec() -> bool {
        true
    }

    open spec fn from_spec(v: SelectiveAckError) -> UtpPacketError {
        UtpPacketError::InvalidExtension(ExtensionError::InvalidSelectiveAck(v))
    }
}

// ---------------------------------------------------------------------------
// Header
// ---------------------------------------------------------------------------

/// The fixed twenty-byte header that starts every uTP packet.
#[derive(Copy, Clone, Debug, PartialEq, Eq, Structural)]
pub struct UtpPacketHeader {
    pub packet_type: UtpPacketType,
    pub version: Version,
    pub extension: Extension,
    pub conn_id: u16,
    pub ts_micros: u32,
    pub ts_diff_micros: u32,
    pub window_size: u32,
    pub seq_num: u16,
    pub ack_num: u16,
}

impl UtpPacketHeader {
    /// The twenty bytes of a header: type and version in the high and low
    /// four bits of the first byte, the extension byte, then the numbers in
    /// big-endian order.
    pub open spec fn spec_encode(self) -> Seq<u8> {
        seq![(self.packet_type.code() * 16 + self.version.code()) as u8, self.extension.code()]
            + be16(self.conn_id) + be32(self.ts_micros) + be32(self.ts_diff_micros)
            + be32(self.window_size) + be16(self.seq_num) + be16(self.ack_num)
    }

    /// What reading `s` as a header gives: its length must be exactly twenty,
    /// the high four bits of the first byte a packet type, the low four bits
    /// version one.
    pub open spec fn spec_decode(s: Seq<u8>) -> Result<UtpPacketHeader, UtpPacketHeaderError> {
        if s.len() != 20 {
            Err(UtpPacketHeaderError::InvalidLen)
        } else {
            match UtpPacketType::of_code(s[0] / 16) {
                Err(e) => Err(UtpPacketHeaderError::InvalidPacketType(e)),
                Ok(packet_type) => if s[0] % 16 != 1 {
                    Err(UtpPacketHeaderError::InvalidVersion(InvalidVersion))
                } else {
                    Ok(
                        UtpPacketHeader {
                            packet_type,
                            version: Version::One,
                            extension: Extension::of_code(s[1]),
                            conn_id: u16_from_be(s[2], s[3]),
                            ts_micros: u32_from_be(s[4], s[5], s[6], s[7]),
                            ts_diff_micros: u32_from_be(s[8], s[9], s[10], s[11]),
                            window_size: u32_from_be(s[12], s[13], s[14], s[15]),
                            seq_num: u16_from_be(s[16], s[17]),
                            ack_num: u16_from_be(s[18], s[19]),
                        },
                    )
                },
            }
        }
    }

    /// Writes the header as its twenty bytes.
    pub fn encode(&self) -> (bytes: Vec<u8>)
        ensures
            bytes@ == self.spec_encode(),
    {
        let mut bytes: Vec<u8> = Vec::new();

        let packet_type: u8 = u8::from(self.packet_type);
        let version: u8 = u8::from(self.version);
        assert(packet_type <= 4 && version == 1 ==> (packet_type << 4u8) | version == packet_type
            * 16 + version) by (bit_vector);
        let type_version: u8 = (packet_type << 4u8) | version;
        bytes.push(type_version);

        let extension: u8 = u8::from(self.extension);
        bytes.push(extension);

        push_be16(&mut bytes, self.conn_id);
        push_be32(&mut bytes, self.ts_micros);
        push_be32(&mut bytes, self.ts_diff_micros);
        push_be32(&mut bytes, self.window_size);
        push_be16(&mut bytes, self.seq_num);
        push_be16(&mut bytes, self.ack_num);

        assert(bytes@ =~= self.spec_encode());
        bytes
    }

    /// Reads a header from exactly twenty bytes.
    pub fn decode(value: &[u8]) -> (r: Result<Self, UtpPacketHeaderError>)
        ensures
            r == Self::spec_decode(value@),
    {
        if value.len() != PACKET_HEADER_LEN {
            return Err(UtpPacketHeaderError::InvalidLen);
        }
        let first: u8 = value[0];
        let packet_type: u8 = first >> 4u8;
        let version: u8 = first & 0x0Fu8;
        assert(first >> 4u8 == first / 16 && first & 0x0Fu8 == first % 16) by (bit_vector);

        let packet_type = match UtpPacketType::try_from(packet_type) {
            Ok(t) => t,
            Err(e) => return Err(UtpPacketHeaderError::from(e)),
        };
        let version = match Version::try_from(version) {
            Ok(v) => v,
            Err(e) => return Err(UtpPacketHeaderError::from(e)),
        };
        let extension = Extension::from(value[1]);

        let conn_id = read_be16(value, 2);
        let ts_micros = read_be32(value, 4);
        let ts_diff_micros = read_be32(value, 8);
        let window_size = read_be32(value, 12);
        let seq_num = read_be16(value, 16);
        let ack_num = read_be16(value, 18);

        Ok(
            Self {
                packet_type,
                version,
                extension,
                conn_id,
                ts_micros,
                ts_diff_micros,
                window_size,
                seq_num,
                ack_num,
            },
        )
    }
}

// ---------------------------------------------------------------------------
// Selective ACK
// ---------------------------------------------------------------------------

/// One as a byte when the flag is set, zero otherwise.
pub open spec fn spec_flag(b: bool) -> u8 {
    if b {
        1u8
    } else {
        0u8
    }
}

/// The byte whose bit `j` is flag `j`.
pub open spec fn pack8(b0: bool, b1: bool, b2: bool, b3: bool, b4: bool, b5: bool, b6: bool, b7: bool) -> u8 {
    (spec_flag(b7) << 7u8) | (spec_flag(b6) << 6u8) | (spec_flag(b5) << 5u8) | (spec_flag(b4) << 4u8)
        | (spec_flag(b3) << 3u8) | (spec_flag(b2) << 2u8) | (spec_flag(b1) << 1u8) | spec_flag(b0)
}

/// Bit `j` of a byte, the least significant bit being bit zero.
pub open spec fn bit_of(byte: u8, j: u8) -> bool {
    (byte >> j) & 1u8 == 1u8
}

/// The bitmask bytes of a sequence of flags: byte `k` holds flags `8k` to
/// `8k + 7`, flag `8k + j` in bit `j`.
pub open spec fn sack_bytes(bits: Seq<bool>) -> Seq<u8> {
    Seq::new(
        bits.len() / 8,
        |k: int|
            pack8(
                bits[8 * k],
                bits[8 * k + 1],
                bits[8 * k + 2],
                bits[8 * k + 3],
                bits[8 * k + 4],
                bits[8 * k + 5],
                bits[8 * k + 6],
                bits[8 * k + 7],
            ),
    )
}

/// The flags of a bitmask: flag `n` is bit `n % 8` of byte `n / 8`.
pub open spec fn bits_of_bytes(bytes: Seq<u8>) -> Seq<bool> {
    Seq::new(bytes.len() * 8, |n: int| bit_of(bytes[n / 8], (n % 8) as u8))
}

/// The flags padded with unset flags up to a multiple of thirty-two.
pub open spec fn pad_to_words(bits: Seq<bool>) -> Seq<bool> {
    bits + Seq::new(((32 - bits.len() % 32) % 32) as nat, |i: int| false)
}

fn flag(b: bool) -> (r: u8)
    ensures
        r == spec_flag(b),
{
    if b {
        1
    } else {
        0
    }
}

/// Which packets past the acknowledged one have arrived, as a bitmask of
/// thirty-two-bit words.
#[derive(Debug, PartialEq, Eq)]
pub struct SelectiveAck {
    acked: Vec<bool>,
}

impl View for SelectiveAck {
    type V = Seq<bool>;

    closed spec fn view(&self) -> Seq<bool> {
        self.acked@
    }
}

impl Clone for SelectiveAck {
    fn clone(&self) -> (r: Self)
        ensures
            r@ == self@,
    {
        proof {
            use_type_invariant(self);
        }
        SelectiveAck { acked: self.acked() }
    }
}

impl SelectiveAck {
    #[verifier::type_invariant]
    spec fn whole_words(self) -> bool {
        self.acked@.len() % 32 == 0
    }

    /// What reading `value` as a selective-ACK bitmask gives: at least four
    /// bytes, a multiple of four bytes.
    pub open spec fn spec_decode(value: Seq<u8>) -> Result<Seq<bool>, SelectiveAckError> {
        if value.len() < 4 {
            Err(SelectiveAckError::InsufficientLen)
        } else if value.len() % 4 != 0 {
            Err(SelectiveAckError::InvalidLen)
        } else {
            Ok(bits_of_bytes(value))
        }
    }

    /// A selective ACK of the given flags, padded with unset flags to whole
    /// thirty-two-bit words.
    pub fn new(acked: Vec<bool>) -> (r: Self)
        ensures
            r@ == pad_to_words(acked@),
            r@.len() % 32 == 0,
            acked@.len() <= r@.len() < acked@.len() + 32,
            r@.subrange(0, acked@.len() as int) == acked@,
            forall|i: int| acked@.len() <= i < r@.len() ==> !r@[i],
    {
        let mut acked = acked;
        let ghost given = acked@;
        let pad: usize = (SELECTIVE_ACK_BITS - acked.len() % SELECTIVE_ACK_BITS) % SELECTIVE_ACK_BITS;
        let mut j: usize = 0;
        while j < pad
            invariant
                j <= pad,
                pad == (32 - given.len() % 32) % 32,
                acked@ == given + Seq::new(j as nat, |i: int| false),
            decreases pad - j,
        {
            acked.push(false);
            j = j + 1;
            assert(acked@ =~= given + Seq::new(j as nat, |i: int| false));
        }
        assert(acked@.len() % 32 == 0);
        Self { acked }
    }

    /// Returns the length in bytes of the encoded Selective ACK.
    pub fn encoded_len(&self) -> (r: usize)
        ensures
            r == self@.len() / 8,
            self@.len() % 32 == 0,
    {
        proof {
            use_type_invariant(self);
        }
        self.acked.len() / 8
    }

    /// The flags, word after word.
    pub fn acked(&self) -> (r: Vec<bool>)
        ensures
            r@ == self@,
            r@.len() % 32 == 0,
    {
        proof {
            use_type_invariant(self);
        }
        let mut r: Vec<bool> = Vec::new();
        let mut i: usize = 0;
        while i < self.acked.len()
            invariant
                i <= self.acked@.len(),
                r@ == self.acked@.subrange(0, i as int),
            decreases self.acked@.len() - i,
        {
            r.push(self.acked[i]);
            i = i + 1;
            assert(r@ =~= self.acked@.subrange(0, i as int));
        }
        assert(r@ =~= self.acked@);
        r
    }

    /// The bitmask bytes, flag `n` in bit `n % 8` of byte `n / 8`.
    pub fn encode(&self) -> (bitmask: Vec<u8>)
        ensures
            bitmask@ == sack_bytes(self@),
    {
        let mut bitmask: Vec<u8> = Vec::new();
        let len: usize = self.acked.len();
        let n: usize = len / 8;
        let mut k: usize = 0;
        while k < n
            invariant
                len == self.acked@.len(),
                n == self.acked@.len() / 8,
                k <= n,
                bitmask@ == sack_bytes(self@).subrange(0, k as int),
            decreases n - k,
        {
            assert(8 * k + 8 <= self.acked@.len()) by (nonlinear_arith)
                requires
                    k < n,
                    n == self.acked@.len() / 8,
            ;
            let c = 8 * k;
            let byte: u8 = (flag(self.acked[c + 7]) << 7u8) | (flag(self.acked[c + 6]) << 6u8) | (flag(
                self.acked[c + 5],
            ) << 5u8) | (flag(self.acked[c + 4]) << 4u8) | (flag(self.acked[c + 3]) << 3u8) | (flag(
                self.acked[c + 2],
            ) << 2u8) | (flag(self.acked[c + 1]) << 1u8) | flag(self.acked[c]);
            bitmask.push(byte);
            k = k + 1;
            assert(bitmask@ =~= sack_bytes(self@).subrange(0, k as int));
        }
        assert(bitmask@ =~= sack_bytes(self@));
        bitmask
    }

    /// Reads a bitmask of at least four bytes and a multiple of four bytes.
    pub fn decode(value: &[u8]) -> (r: Result<Self, SelectiveAckError>)
        ensures
            r matches Ok(s) ==> Self::spec_decode(value@) == Ok::<Seq<bool>, SelectiveAckError>(s@),
            r matches Err(e) ==> Self::spec_decode(value@) == Err::<Seq<bool>, SelectiveAckError>(e),
    {
        if value.len() < 4 {
            return Err(SelectiveAckError::InsufficientLen);
        }
        if value.len() % 4 != 0 {
            return Err(SelectiveAckError::InvalidLen);
        }
        let mut acked: Vec<bool> = Vec::new();
        let mut i: usize = 0;
        while i < value.len()
            invariant
                i <= value@.len(),
                acked@.len() == 8 * i,
                forall|m: int| 0 <= m < 8 * i ==> #[trigger] acked@[m] == bit_of(value@[m / 8], (m % 8) as u8),
            decreases value@.len() - i,
        {
            let byte = value[i];
            assert({
                &&& ((byte & 0b0000_0001u8) != 0) == bit_of(byte, 0)
                &&& ((byte & 0b0000_0010u8) != 0) == bit_of(byte, 1)
                &&& ((byte & 0b0000_0100u8) != 0) == bit_of(byte, 2)
                &&& ((byte & 0b0000_1000u8) != 0) == bit_of(byte, 3)
                &&& ((byte & 0b0001_0000u8) != 0) == bit_of(byte, 4)
                &&& ((byte & 0b0010_0000u8) != 0) == bit_of(byte, 5)
                &&& ((byte & 0b0100_0000u8) != 0) == bit_of(byte, 6)
                &&& ((byte & 0b1000_0000u8) != 0) == bit_of(byte, 7)
            }) by (bit_vector);
            acked.push((byte & 0b0000_0001u8) != 0);
            acked.push((byte & 0b0000_0010u8) != 0);
            acked.push((byte & 0b0000_0100u8) != 0);
            acked.push((byte & 0b0000_1000u8) != 0);
            acked.push((byte & 0b0001_0000u8) != 0);
            acked.push((byte & 0b0010_0000u8) != 0);
            acked.push((byte & 0b0100_0000u8) != 0);
            acked.push((byte & 0b1000_0000u8) != 0);
            assert forall|m: int| 8 * i <= m < 8 * i + 8 implies #[trigger] acked@[m] == bit_of(
                value@[m / 8],
                (m % 8) as u8,
            ) by {
                assert(m / 8 == i as int);
            }
            i = i + 1;
        }
        assert(acked@ =~= bits_of_bytes(value@));
        assert(acked@.len() % 32 == 0) by (nonlinear_arith)
            requires
                acked@.len() == 8 * value@.len(),
                value@.len() % 4 == 0,
        ;
        Ok(Self { acked })
    }
}

// ---------------------------------------------------------------------------
// Laws of the selective-ACK bitmask
// ---------------------------------------------------------------------------

proof fn lemma_pack8_bits(b0: bool, b1: bool, b2: bool, b3: bool, b4: bool, b5: bool, b6: bool, b7: bool)
    ensures
        bit_of(pack8(b0, b1, b2, b3, b4, b5, b6, b7), 0) == b0,
        bit_of(pack8(b0, b1, b2, b3, b4, b5, b6, b7), 1) == b1,
        bit_of(pack8(b0, b1, b2, b3, b4, b5, b6, b7), 2) == b2,
        bit_of(pack8(b0, b1, b2, b3, b4, b5, b6, b7), 3) == b3,
        bit_of(pack8(b0, b1, b2, b3, b4, b5, b6, b7), 4) == b4,
        bit_of(pack8(b0, b1, b2, b3, b4, b5, b6, b7), 5) == b5,
        bit_of(pack8(b0, b1, b2, b3, b4, b5, b6, b7), 6) == b6,
        bit_of(pack8(b0, b1, b2, b3, b4, b5, b6, b7), 7) == b7,
{
    let f0 = spec_flag(b0);
    let f1 = spec_flag(b1);
    let f2 = spec_flag(b2);
    let f3 = spec_flag(b3);
    let f4 = spec_flag(b4);
    let f5 = spec_flag(b5);
    let f6 = spec_flag(b6);
    let f7 = spec_flag(b7);
    assert({
        let p = (f7 << 7u8) | (f6 << 6u8) | (f5 << 5u8) | (f4 << 4u8) | (f3 << 3u8) | (f2 << 2u8) | (f1
            << 1u8) | f0;
        &&& ((p >> 0u8) & 1u8 == 1u8) == (f0 == 1u8)
        &&& ((p >> 1u8) & 1u8 == 1u8) == (f1 == 1u8)
        &&& ((p >> 2u8) & 1u8 == 1u8) == (f2 == 1u8)
        &&& ((p >> 3u8) & 1u8 == 1u8) == (f3 == 1u8)
        &&& ((p >> 4u8) & 1u8 == 1u8) == (f4 == 1u8)
        &&& ((p >> 5u8) & 1u8 == 1u8) == (f5 == 1u8)
        &&& ((p >> 6u8) & 1u8 == 1u8) == (f6 == 1u8)
        &&& ((p >> 7u8) & 1u8 == 1u8) == (f7 == 1u8)
    }) by (bit_vector)
        requires
            f0 <= 1u8,
            f1 <= 1u8,
            f2 <= 1u8,
            f3 <= 1u8,
            f4 <= 1u8,
            f5 <= 1u8,
            f6 <= 1u8,
            f7 <= 1u8,
    ;
}

proof fn lemma_byte_bits_pack8(byte: u8)
    ensures
        pack8(
            bit_of(byte, 0),
            bit_of(byte, 1),
            bit_of(byte, 2),
            bit_of(byte, 3),
            bit_of(byte, 4),
            bit_of(byte, 5),
            bit_of(byte, 6),
            bit_of(byte, 7),
        ) == byte,
{
    assert(((if (byte >> 7u8) & 1u8 == 1u8 { 1u8 } else { 0u8 }) << 7u8) | ((if (byte >> 6u8) & 1u8
        == 1u8 { 1u8 } else { 0u8 }) << 6u8) | ((if (byte >> 5u8) & 1u8 == 1u8 { 1u8 } else { 0u8 })
        << 5u8) | ((if (byte >> 4u8) & 1u8 == 1u8 { 1u8 } else { 0u8 }) << 4u8) | ((if (byte >> 3u8)
        & 1u8 == 1u8 { 1u8 } else { 0u8 }) << 3u8) | ((if (byte >> 2u8) & 1u8 == 1u8 { 1u8 } else {
        0u8 }) << 2u8) | ((if (byte >> 1u8) & 1u8 == 1u8 { 1u8 } else { 0u8 }) << 1u8) | (if (byte
        >> 0u8) & 1u8 == 1u8 { 1u8 } else { 0u8 }) == byte) by (bit_vector);
}

/// Reading back the bitmask of a selective ACK gives its flags, for every
/// selective ACK of at least one word (an empty one writes no bytes, which
/// reading refuses as too short).
pub proof fn lemma_selective_ack_roundtrip(bits: Seq<bool>)
    requires
        bits.len() % 32 == 0,
        bits.len() > 0,
    ensures
        SelectiveAck::spec_decode(sack_bytes(bits)) == Ok::<Seq<bool>, SelectiveAckError>(bits),
{
    let bytes = sack_bytes(bits);
    assert(bytes.len() == bits.len() / 8);
    assert(bytes.len() >= 4 && bytes.len() % 4 == 0);
    let back = bits_of_bytes(bytes);
    assert(back.len() == bits.len());
    assert forall|n: int| 0 <= n < bits.len() implies #[trigger] back[n] == bits[n] by {
        let k = n / 8;
        assert(8 * k + 7 < bits.len());
        lemma_pack8_bits(
            bits[8 * k],
            bits[8 * k + 1],
            bits[8 * k + 2],
            bits[8 * k + 3],
            bits[8 * k + 4],
            bits[8 * k + 5],
            bits[8 * k + 6],
            bits[8 * k + 7],
        );
        assert(n == 8 * k + n % 8);
    }
    assert(back =~= bits);
}

/// Bit `j` of a byte is set exactly when the byte divided by two to the
/// `j` is odd.
proof fn lemma_bit_of_arith(byte: u8)
    ensures
        bit_of(byte, 0) <==> (byte / 1) % 2 == 1,
        bit_of(byte, 1) <==> (byte / 2) % 2 == 1,
        bit_of(byte, 2) <==> (byte / 4) % 2 == 1,
        bit_of(byte, 3) <==> (byte / 8) % 2 == 1,
        bit_of(byte, 4) <==> (byte / 16) % 2 == 1,
        bit_of(byte, 5) <==> (byte / 32) % 2 == 1,
        bit_of(byte, 6) <==> (byte / 64) % 2 == 1,
        bit_of(byte, 7) <==> (byte / 128) % 2 == 1,
{
    assert({
        &&& (((byte >> 0u8) & 1u8 == 1u8) <==> (byte / 1) % 2 == 1)
        &&& (((byte >> 1u8) & 1u8 == 1u8) <==> (byte / 2) % 2 == 1)
        &&& (((byte >> 2u8) & 1u8 == 1u8) <==> (byte / 4) % 2 == 1)
        &&& (((byte >> 3u8) & 1u8 == 1u8) <==> (byte / 8) % 2 == 1)
        &&& (((byte >> 4u8) & 1u8 == 1u8) <==> (byte / 16) % 2 == 1)
        &&& (((byte >> 5u8) & 1u8 == 1u8) <==> (byte / 32) % 2 == 1)
        &&& (((byte >> 6u8) & 1u8 == 1u8) <==> (byte / 64) % 2 == 1)
        &&& (((byte >> 7u8) & 1u8 == 1u8) <==> (byte / 128) % 2 == 1)
    }) by (bit_vector);
}

/// The order of flags in the bitmask: flag `8k + j` is bit `j` of byte
/// `k`, bit zero being the least significant, so it is set exactly when
/// byte `k` divided by two to the `j` is odd. Every whole byte of flags is
/// written.
pub proof fn lemma_selective_ack_bit_order(bits: Seq<bool>, k: int)
    requires
        0 <= k < bits.len() / 8,
    ensures
        sack_bytes(bits).len() == bits.len() / 8,
        bits[8 * k] <==> (sack_bytes(bits)[k] / 1) % 2 == 1,
        bits[8 * k + 1] <==> (sack_bytes(bits)[k] / 2) % 2 == 1,
        bits[8 * k + 2] <==> (sack_bytes(bits)[k] / 4) % 2 == 1,
        bits[8 * k + 3] <==> (sack_bytes(bits)[k] / 8) % 2 == 1,
        bits[8 * k + 4] <==> (sack_bytes(bits)[k] / 16) % 2 == 1,
        bits[8 * k + 5] <==> (sack_bytes(bits)[k] / 32) % 2 == 1,
        bits[8 * k + 6] <==> (sack_bytes(bits)[k] / 64) % 2 == 1,
        bits[8 * k + 7] <==> (sack_bytes(bits)[k] / 128) % 2 == 1,
{
    let b = sack_bytes(bits)[k];
    lemma_pack8_bits(
        bits[8 * k],
        bits[8 * k + 1],
        bits[8 * k + 2],
        bits[8 * k + 3],
        bits[8 * k + 4],
        bits[8 * k + 5],
        bits[8 * k + 6],
        bits[8 * k + 7],
    );
    lemma_bit_of_arith(b);
}

/// Reading a bitmask gives flag `8k + j` set exactly when byte `k` divided
/// by two to the `j` is odd, eight flags for every byte.
pub proof fn lemma_selective_ack_decode_bit_order(value: Seq<u8>, k: int)
    requires
        SelectiveAck::spec_decode(value) is Ok,
        0 <= k < value.len(),
    ensures
        ({
            let bits = SelectiveAck::spec_decode(value)->Ok_0;
            &&& bits.len() == 8 * value.len()
            &&& (bits[8 * k] <==> (value[k] / 1) % 2 == 1)
            &&& (bits[8 * k + 1] <==> (value[k] / 2) % 2 == 1)
            &&& (bits[8 * k + 2] <==> (value[k] / 4) % 2 == 1)
            &&& (bits[8 * k + 3] <==> (value[k] / 8) % 2 == 1)
            &&& (bits[8 * k + 4] <==> (value[k] / 16) % 2 == 1)
            &&& (bits[8 * k + 5] <==> (value[k] / 32) % 2 == 1)
            &&& (bits[8 * k + 6] <==> (value[k] / 64) % 2 == 1)
            &&& (bits[8 * k + 7] <==> (value[k] / 128) % 2 == 1)
        }),
{
    let bits = SelectiveAck::spec_decode(value)->Ok_0;
    lemma_bit_of_arith(value[k]);
    assert(bits[8 * k] == bit_of(value[k], 0));
    assert(bits[8 * k + 1] == bit_of(value[k], 1));
    assert(bits[8 * k + 2] == bit_of(value[k], 2));
    assert(bits[8 * k + 3] == bit_of(value[k], 3));
    assert(bits[8 * k + 4] == bit_of(value[k], 4));
    assert(bits[8 * k + 5] == bit_of(value[k], 5));
    assert(bits[8 * k + 6] == bit_of(value[k], 6));
    assert(bits[8 * k + 7] == bit_of(value[k], 7));
}

/// The length that `SelectiveAck::encoded_len` reports is the length of the
/// bytes that `SelectiveAck::encode` writes: one byte per eight flags.
pub proof fn lemma_selective_ack_encoded_len(bits: Seq<bool>)
    ensures
        sack_bytes(bits).len() == bits.len() / 8,
{
}

/// Writing out the flags read from a bitmask gives the bitmask back.
pub proof fn lemma_selective_ack_bytes_roundtrip(value: Seq<u8>)
    requires
        SelectiveAck::spec_decode(value) is Ok,
    ensures
        sack_bytes(SelectiveAck::spec_decode(value)->Ok_0) == value,
{
    let bits = bits_of_bytes(value);
    let again = sack_bytes(bits);
    assert(again.len() == value.len());
    assert forall|k: int| 0 <= k < value.len() implies #[trigger] again[k] == value[k] by {
        lemma_byte_bits_pack8(value[k]);
        assert(bits[8 * k] == bit_of(value[k], 0));
        assert(bits[8 * k + 1] == bit_of(value[k], 1));
        assert(bits[8 * k + 2] == bit_of(value[k], 2));
        assert(bits[8 * k + 3] == bit_of(value[k], 3));
        assert(bits[8 * k + 4] == bit_of(value[k], 4));
        assert(bits[8 * k + 5] == bit_of(value[k], 5));
        assert(bits[8 * k + 6] == bit_of(value[k], 6));
        assert(bits[8 * k + 7] == bit_of(value[k], 7));
    }
    assert(again =~= value);
}

// ---------------------------------------------------------------------------
// Packet
// ---------------------------------------------------------------------------

/// What a packet holds: its header, the flags of its selective ACK if it
/// carries one, and its payload.
pub struct PacketModel {
    pub header: UtpPacketHeader,
    pub selective_ack: Option<Seq<bool>>,
    pub payload: Seq<u8>,
}

/// The extensions of a packet as read from the wire: each with its kind and
/// its data.
pub open spec fn ext_view(exts: Seq<(Extension, Vec<u8>)>) -> Seq<(Extension, Seq<u8>)> {
    exts.map_values(|e: (Extension, Vec<u8>)| (e.0, e.1@))
}

/// What reading the chain of extensions that starts with kind `ext` from
/// `data` gives: the extensions, and how many bytes they take. Each extension
/// is the kind of the next one, its length, and that many bytes of data; the
/// chain ends at kind `NoExtension`.
pub open spec fn spec_raw_extensions(ext: Extension, data: Seq<u8>) -> Result<
    (Seq<(Extension, Seq<u8>)>, nat),
    ExtensionError,
>
    decreases data.len(),
{
    if ext == Extension::NoExtension {
        Ok((Seq::empty(), 0))
    } else if data.len() < 2 {
        Err(ExtensionError::InsufficientLen)
    } else if data.len() - 2 < data[1] {
        Err(ExtensionError::InsufficientLen)
    } else {
        let len = data[1] as nat;
        match spec_raw_extensions(Extension::of_code(data[0]), data.skip(2 + len as int)) {
            Ok((rest, used)) => Ok(
                (seq![(ext, data.subrange(2, 2 + len as int))] + rest, used + 2 + len),
            ),
            Err(e) => Err(e),
        }
    }
}

/// The data of the first selective-ACK extension, if there is one.
pub open spec fn first_selective_ack(exts: Seq<(Extension, Seq<u8>)>) -> Option<Seq<u8>>
    decreases exts.len(),
{
    if exts.len() == 0 {
        None
    } else if exts[0].0 == Extension::SelectiveAck {
        Some(exts[0].1)
    } else {
        first_selective_ack(exts.drop_first())
    }
}

/// A packet of the given parts, unless it is a data packet with nothing in it.
pub open spec fn packet_of_parts(
    header: UtpPacketHeader,
    selective_ack: Option<Seq<bool>>,
    payload: Seq<u8>,
) -> Result<PacketModel, UtpPacketError> {
    if header.packet_type == UtpPacketType::Data && payload.len() == 0 {
        Err(UtpPacketError::EmptyDataPayload)
    } else {
        Ok(PacketModel { header, selective_ack, payload })
    }
}

/// The bytes of a packet: its header; then, if it carries a selective ACK,
/// the byte of kind `NoExtension` (no extension follows), the length of the
/// bitmask (as a byte) and the bitmask; then the payload.
pub open spec fn spec_encode_packet(p: PacketModel) -> Seq<u8> {
    p.header.spec_encode() + match p.selective_ack {
        Some(bits) => seq![Extension::NoExtension.code(), (sack_bytes(bits).len() as u8)]
            + sack_bytes(bits),
        None => Seq::empty(),
    } + p.payload
}

/// The number of bytes of the encoded packet.
pub open spec fn spec_encoded_len(p: PacketModel) -> nat {
    20 + match p.selective_ack {
        Some(bits) => bits.len() / 8 + 2,
        None => 0,
    } + p.payload.len()
}

/// What reading `s` as a packet gives: a header from its first twenty
/// bytes, the chain of extensions the header announces, the first
/// selective-ACK extension among them read as a bitmask, and the rest as
/// payload, which a data packet must not have empty.
pub open spec fn spec_decode_packet(s: Seq<u8>) -> Result<PacketModel, UtpPacketError> {
    if s.len() < 20 {
        Err(UtpPacketError::InvalidHeader(UtpPacketHeaderError::InvalidLen))
    } else {
        match UtpPacketHeader::spec_decode(s.take(20)) {
            Err(e) => Err(UtpPacketError::InvalidHeader(e)),
            Ok(header) => match spec_raw_extensions(header.extension, s.skip(20)) {
                Err(e) => Err(UtpPacketError::InvalidExtension(e)),
                Ok((exts, used)) => {
                    let payload = s.skip(20 + used as int);
                    match first_selective_ack(exts) {
                        Some(data) => match SelectiveAck::spec_decode(data) {
                            Err(e) => Err(
                                UtpPacketError::InvalidExtension(
                                    ExtensionError::InvalidSelectiveAck(e),
                                ),
                            ),
                            Ok(bits) => packet_of_parts(header, Some(bits), payload),
                        },
                        None => packet_of_parts(header, None, payload),
                    }
                },
            },
        }
    }
}

/// The character of a decimal digit.
pub open spec fn digit_char(d: nat) -> char {
    if d == 0 {
        '0'
    } else if d == 1 {
        '1'
    } else if d == 2 {
        '2'
    } else if d == 3 {
        '3'
    } else if d == 4 {
        '4'
    } else if d == 5 {
        '5'
    } else if d == 6 {
        '6'
    } else if d == 7 {
        '7'
    } else if d == 8 {
        '8'
    } else {
        '9'
    }
}

/// The decimal digits of a number, most significant first, with no leading
/// zeros.
pub open spec fn decimal(n: nat) -> Seq<char>
    decreases n,
{
    if n < 10 {
        seq![digit_char(n)]
    } else {
        decimal(n / 10).push(digit_char(n % 10))
    }
}

/// A packet's one-line summary: connection id, kind name, sequence and
/// acknowledgement numbers, timestamps and window, the numbers in decimal.
pub open spec fn summary_text(
    conn_id: u16,
    packet_type: Seq<char>,
    seq_num: u16,
    ack_num: u16,
    ts_micros: u32,
    ts_diff_micros: u32,
    window_size: u32,
) -> Seq<char> {
    "packet cid="@ + decimal(conn_id as nat) + " packetType="@ + packet_type + " seqNr="@ + decimal(
        seq_num as nat,
    ) + " ackNr="@ + decimal(ack_num as nat) + " timestamp="@ + decimal(ts_micros as nat)
        + " timestampDiff="@ + decimal(ts_diff_micros as nat) + " remoteWindow="@ + decimal(
        window_size as nat,
    )
}

/// `format!` of a packet's one-line summary: the fixed words with the
/// numbers printed in decimal, as integers print by `Display`, and the kind
/// name as given.
#[verifier::external_body]
fn format_summary(
    conn_id: u16,
    packet_type: &str,
    seq_num: u16,
    ack_num: u16,
    ts_micros: u32,
    ts_diff_micros: u32,
    window_size: u32,
) -> (r: String)
    ensures
        r@ == summary_text(
            conn_id,
            packet_type@,
            seq_num,
            ack_num,
            ts_micros,
            ts_diff_micros,
            window_size,
        ),
{
    format!(
        "packet cid={} packetType={} seqNr={} ackNr={} timestamp={} timestampDiff={} remoteWindow={}",
        conn_id,
        packet_type,
        seq_num,
        ack_num,
        ts_micros,
        ts_diff_micros,
        window_size,
    )
}

fn copy_range(data: &[u8], start: usize, end: usize) -> (r: Vec<u8>)
    requires
        start <= end <= data@.len(),
    ensures
        r@ == data@.subrange(start as int, end as int),
{
    slice_to_vec(&data[start..end])
}

/// A uTP packet: header, optional selective ACK, payload.
#[derive(Debug, PartialEq, Eq)]
pub struct UtpPacket {
    header: UtpPacketHeader,
    selective_ack: Option<SelectiveAck>,
    payload: Vec<u8>,
}

impl View for UtpPacket {
    type V = PacketModel;

    closed spec fn view(&self) -> PacketModel {
        PacketModel {
            header: self.header,
            selective_ack: match self.selective_ack {
                Some(s) => Some(s@),
                None => None,
            },
            payload: self.payload@,
        }
    }
}

impl Clone for UtpPacket {
    fn clone(&self) -> (r: Self)
        ensures
            r@ == self@,
    {
        let selective_ack = match &self.selective_ack {
            Some(s) => Some(s.clone()),
            None => None,
        };
        UtpPacket { header: self.header, selective_ack, payload: slice_to_vec(self.payload.as_slice()) }
    }
}

impl UtpPacket {
    pub fn packet_type(&self) -> (r: UtpPacketType)
        ensures
            r == self@.header.packet_type,
    {
        self.header.packet_type
    }

    pub fn conn_id(&self) -> (r: u16)
        ensures
            r == self@.header.conn_id,
    {
        self.header.conn_id
    }

    pub fn ts_micros(&self) -> (r: u32)
        ensures
            r == self@.header.ts_micros,
    {
        self.header.ts_micros
    }

    pub fn ts_diff_micros(&self) -> (r: u32)
        ensures
            r == self@.header.ts_diff_micros,
    {
        self.header.ts_diff_micros
    }

    pub fn window_size(&self) -> (r: u32)
        ensures
            r == self@.header.window_size,
    {
        self.header.window_size
    }

    pub fn seq_num(&self) -> (r: u16)
        ensures
            r == self@.header.seq_num,
    {
        self.header.seq_num
    }

    pub fn ack_num(&self) -> (r: u16)
        ensures
            r == self@.header.ack_num,
    {
        self.header.ack_num
    }

    pub fn selective_ack(&self) -> (r: Option<&SelectiveAck>)
        ensures
            r is None <==> self@.selective_ack is None,
            r matches Some(s) ==> self@.selective_ack == Some(s@),
            self@.selective_ack matches Some(bits) ==> bits.len() % 32 == 0,
    {
        if let Some(s) = &self.selective_ack {
            proof {
                use_type_invariant(s);
            }
        }
        match &self.selective_ack {
            Some(s) => Some(s),
            None => None,
        }
    }

    pub fn payload(&self) -> (r: &Vec<u8>)
        ensures
            r@ == self@.payload,
    {
        &self.payload
    }

    /// A one-line summary of the header, as the packet is printed.
    pub fn summary(&self) -> (r: String)
        ensures
            r@ == summary_text(
                self@.header.conn_id,
                self@.header.packet_type.spec_name(),
                self@.header.seq_num,
                self@.header.ack_num,
                self@.header.ts_micros,
                self@.header.ts_diff_micros,
                self@.header.window_size,
            ),
    {
        format_summary(
            self.conn_id(),
            self.packet_type().name(),
            self.seq_num(),
            self.ack_num(),
            self.ts_micros(),
            self.ts_diff_micros(),
            self.window_size(),
        )
    }

    /// Returns the length in bytes of the encoded packet.
    pub fn encoded_len(&self) -> (len: usize)
        requires
            spec_encoded_len(self@) <= usize::MAX,
        ensures
            len == spec_encoded_len(self@),
    {
        let mut len = PACKET_HEADER_LEN;
        if let Some(ref sack) = self.selective_ack {
            len += sack.encoded_len() + EXTENSION_TYPE_LEN + EXTENSION_LEN_LEN;
        }
        len += self.payload.len();

        len
    }

    /// Writes the packet as bytes.
    pub fn encode(&self) -> (bytes: Vec<u8>)
        ensures
            bytes@ == spec_encode_packet(self@),
    {
        let mut bytes = self.header.encode();
        if let Some(ack) = &self.selective_ack {
            let mut ack = ack.encode();
            bytes.push(u8::from(Extension::NoExtension));
            bytes.push(ack.len() as u8);
            bytes.append(&mut ack);
        }
        let mut payload = slice_to_vec(self.payload.as_slice());
        bytes.append(&mut payload);
        assert(bytes@ =~= spec_encode_packet(self@));
        bytes
    }

    /// Reads a packet.
    pub fn decode(value: &[u8]) -> (r: Result<Self, UtpPacketError>)
        ensures
            r matches Ok(p) ==> spec_decode_packet(value@) == Ok::<PacketModel, UtpPacketError>(p@),
            r matches Err(e) ==> spec_decode_packet(value@) == Err::<PacketModel, UtpPacketError>(e),
    {
        if value.len() < PACKET_HEADER_LEN {
            return Err(UtpPacketError::InvalidHeader(UtpPacketHeaderError::InvalidLen));
        }

        let header = match UtpPacketHeader::decode(&value[0..PACKET_HEADER_LEN]) {
            Ok(h) => h,
            Err(e) => return Err(UtpPacketError::from(e)),
        };

        let (extensions, extensions_len) = match Self::decode_raw_extensions(
            header.extension,
            &value[PACKET_HEADER_LEN..value.len()],
        ) {
            Ok(r) => r,
            Err(e) => return Err(UtpPacketError::from(e)),
        };

        // Look for the first (if any) Selective ACK extension, and attempt to decode it.
        let mut i: usize = 0;
        assert(ext_view(extensions@).skip(0) =~= ext_view(extensions@));
        while i < extensions.len() && !extensions[i].0.is_selective_ack()
            invariant
                i <= extensions@.len(),
                first_selective_ack(ext_view(extensions@)) == first_selective_ack(
                    ext_view(extensions@).skip(i as int),
                ),
            decreases extensions@.len() - i,
        {
            assert(ext_view(extensions@).skip(i as int).drop_first() =~= ext_view(extensions@).skip(
                i + 1,
            ));
            i = i + 1;
        }
        let selective_ack = if i < extensions.len() {
            match SelectiveAck::decode(extensions[i].1.as_slice()) {
                Ok(s) => Some(s),
                Err(e) => return Err(UtpPacketError::from(e)),
            }
        } else {
            assert(ext_view(extensions@).skip(i as int).len() == 0);
            None
        };

        // The packet payload is the remainder of the packet.
        let payload_start_index = PACKET_HEADER_LEN + extensions_len;
        let payload = if payload_start_index == value.len() {
            Vec::new()
        } else {
            copy_range(value, payload_start_index, value.len())
        };
        assert(payload@ =~= value@.skip(payload_start_index as int));
        assert(value@.take(20) =~= value@.subrange(0, 20));
        assert(value@.skip(20) =~= value@.subrange(20, value@.len() as int));

        if header.packet_type == UtpPacketType::Data && payload.len() == 0 {
            return Err(UtpPacketError::EmptyDataPayload);
        }

        Ok(Self { header, selective_ack, payload })
    }

    /// Reads the chain of extensions that starts with kind `first_ext`,
    /// returning them and the number of bytes they take.
    fn decode_raw_extensions(first_ext: Extension, data: &[u8]) -> (r: Result<
        (Vec<(Extension, Vec<u8>)>, usize),
        ExtensionError,
    >)
        ensures
            r matches Ok((exts, used)) ==> spec_raw_extensions(first_ext, data@) == Ok::<
                (Seq<(Extension, Seq<u8>)>, nat),
                ExtensionError,
            >((ext_view(exts@), used as nat)),
            r matches Ok((exts, used)) ==> used <= data@.len(),
            r matches Err(e) ==> spec_raw_extensions(first_ext, data@) == Err::<
                (Seq<(Extension, Seq<u8>)>, nat),
                ExtensionError,
            >(e),
    {
        let mut ext = first_ext;
        let mut index: usize = 0;

        let mut extensions: Vec<(Extension, Vec<u8>)> = Vec::new();
        assert(data@.skip(0) =~= data@);
        while !ext.is_none()
            invariant
                index <= data@.len(),
                match spec_raw_extensions(ext, data@.skip(index as int)) {
                    Ok((rest, used)) => spec_raw_extensions(first_ext, data@) == Ok::<
                        (Seq<(Extension, Seq<u8>)>, nat),
                        ExtensionError,
                    >((ext_view(extensions@) + rest, (index + used) as nat)),
                    Err(e) => spec_raw_extensions(first_ext, data@) == Err::<
                        (Seq<(Extension, Seq<u8>)>, nat),
                        ExtensionError,
                    >(e),
                },
            decreases data@.len() - index,
        {
            let ghost tail = data@.skip(index as int);
            if data.len() - index < 2 {
                return Err(ExtensionError::InsufficientLen);
            }

            let next_ext = data[index];
            let ext_len = data[index + 1] as usize;

            let ext_start = index + 2;
            if data.len() - ext_start < ext_len {
                return Err(ExtensionError::InsufficientLen);
            }

            let ext_data = copy_range(data, ext_start, ext_start + ext_len);
            let ghost done = ext_view(extensions@);
            extensions.push((ext, ext_data));
            proof {
                assert(ext_view(extensions@) =~= done.push((ext, ext_data@)));
                assert(tail.subrange(2, 2 + ext_len) =~= ext_data@);
                assert(tail.skip(2 + ext_len) =~= data@.skip(ext_start + ext_len));
                let next = Extension::of_code(next_ext);
                match spec_raw_extensions(next, data@.skip(ext_start + ext_len)) {
                    Ok((rest, used)) => {
                        assert(done + (seq![(ext, ext_data@)] + rest) =~= done.push((ext, ext_data@))
                            + rest);
                    },
                    Err(e) => {},
                }
            }

            ext = Extension::from(next_ext);
            index = ext_start + ext_len;
        }
        assert(ext_view(extensions@) + Seq::empty() =~= ext_view(extensions@));
        Ok((extensions, index))
    }
}

// ---------------------------------------------------------------------------
// Builder
// ---------------------------------------------------------------------------

/// What a packet builder holds.
pub struct BuilderModel {
    pub packet_type: UtpPacketType,
    pub conn_id: u16,
    pub ts_micros: u32,
    pub ts_diff_micros: u32,
    pub window_size: u32,
    pub seq_num: u16,
    pub ack_num: u16,
    pub selective_ack: Option<Seq<bool>>,
    pub payload: Option<Seq<u8>>,
}

/// The packet a builder builds: version one, the selective-ACK extension
/// announced exactly when a selective ACK is given, an empty payload when
/// none is given.
pub open spec fn spec_build(b: BuilderModel) -> PacketModel {
    PacketModel {
        header: UtpPacketHeader {
            packet_type: b.packet_type,
            version: Version::One,
            extension: if b.selective_ack is Some {
                Extension::SelectiveAck
            } else {
                Extension::NoExtension
            },
            conn_id: b.conn_id,
            ts_micros: b.ts_micros,
            ts_diff_micros: b.ts_diff_micros,
            window_size: b.window_size,
            seq_num: b.seq_num,
            ack_num: b.ack_num,
        },
        selective_ack: b.selective_ack,
        payload: match b.payload {
            Some(p) => p,
            None => Seq::empty(),
        },
    }
}

/// The builder that a packet turns into: its header numbers, its selective
/// ACK, and its payload unless that is empty.
pub open spec fn spec_builder_of_packet(p: PacketModel) -> BuilderModel {
    BuilderModel {
        packet_type: p.header.packet_type,
        conn_id: p.header.conn_id,
        ts_micros: p.header.ts_micros,
        ts_diff_micros: p.header.ts_diff_micros,
        window_size: p.header.window_size,
        seq_num: p.header.seq_num,
        ack_num: p.header.ack_num,
        selective_ack: p.selective_ack,
        payload: if p.payload.len() == 0 {
            None
        } else {
            Some(p.payload)
        },
    }
}

/// Builds a packet field by field.
#[derive(Debug)]
pub struct PacketBuilder {
    packet_type: UtpPacketType,
    conn_id: u16,
    ts_micros: u32,
    ts_diff_micros: u32,
    window_size: u32,
    seq_num: u16,
    ack_num: u16,
    selective_ack: Option<SelectiveAck>,
    payload: Option<Vec<u8>>,
}

impl View for PacketBuilder {
    type V = BuilderModel;

    closed spec fn view(&self) -> BuilderModel {
        BuilderModel {
            packet_type: self.packet_type,
            conn_id: self.conn_id,
            ts_micros: self.ts_micros,
            ts_diff_micros: self.ts_diff_micros,
            window_size: self.window_size,
            seq_num: self.seq_num,
            ack_num: self.ack_num,
            selective_ack: match self.selective_ack {
                Some(s) => Some(s@),
                None => None,
            },
            payload: match self.payload {
                Some(p) => Some(p@),
                None => None,
            },
        }
    }
}

impl Clone for PacketBuilder {
    fn clone(&self) -> (r: Self)
        ensures
            r@ == self@,
    {
        let selective_ack = match &self.selective_ack {
            Some(s) => Some(s.clone()),
            None => None,
        };
        let payload = match &self.payload {
            Some(p) => Some(slice_to_vec(p.as_slice())),
            None => None,
        };
        PacketBuilder {
            packet_type: self.packet_type,
            conn_id: self.conn_id,
            ts_micros: self.ts_micros,
            ts_diff_micros: self.ts_diff_micros,
            window_size: self.window_size,
            seq_num: self.seq_num,
            ack_num: self.ack_num,
            selective_ack,
            payload,
        }
    }
}

impl PacketBuilder {
    /// A builder with the given fields, no difference timestamp, no
    /// acknowledgement number, no selective ACK and no payload.
    pub fn new(
        packet_type: UtpPacketType,
        conn_id: u16,
        ts_micros: u32,
        window_size: u32,
        seq_num: u16,
    ) -> (r: Self)
        ensures
            r@ == (BuilderModel {
                packet_type,
                conn_id,
                ts_micros,
                ts_diff_micros: 0,
                window_size,
                seq_num,
                ack_num: 0,
                selective_ack: None,
                payload: None,
            }),
    {
        Self {
            packet_type,
            conn_id,
            ts_micros,
            ts_diff_micros: 0,
            window_size,
            seq_num,
            ack_num: 0,
            selective_ack: None,
            payload: None,
        }
    }

    pub fn ts_micros(self, ts_micros: u32) -> (r: Self)
        ensures
            r@ == (BuilderModel { ts_micros, ..self@ }),
    {
        let mut b = self;
        b.ts_micros = ts_micros;
        b
    }

    pub fn ts_diff_micros(self, ts_diff_micros: u32) -> (r: Self)
        ensures
            r@ == (BuilderModel { ts_diff_micros, ..self@ }),
    {
        let mut b = self;
        b.ts_diff_micros = ts_diff_micros;
        b
    }

    pub fn window_size(self, window_size: u32) -> (r: Self)
        ensures
            r@ == (BuilderModel { window_size, ..self@ }),
    {
        let mut b = self;
        b.window_size = window_size;
        b
    }

    pub fn ack_num(self, ack_num: u16) -> (r: Self)
        ensures
            r@ == (BuilderModel { ack_num, ..self@ }),
    {
        let mut b = self;
        b.ack_num = ack_num;
        b
    }

    pub fn selective_ack(self, selective_ack: Option<SelectiveAck>) -> (r: Self)
        ensures
            r@ == (BuilderModel {
                selective_ack: match selective_ack {
                    Some(s) => Some(s@),
                    None => None,
                },
                ..self@
            }),
    {
        let mut b = self;
        b.selective_ack = selective_ack;
        b
    }

    pub fn payload(self, payload: Vec<u8>) -> (r: Self)
        ensures
            r@ == (BuilderModel { payload: Some(payload@), ..self@ }),
    {
        let mut b = self;
        b.payload = Some(payload);
        b
    }

    /// The packet of the fields given so far.
    pub fn build(self) -> (r: UtpPacket)
        ensures
            r@ == spec_build(self@),
    {
        let extension = match self.selective_ack {
            Some(..) => Extension::SelectiveAck,
            None => Extension::NoExtension,
        };

        let payload = match self.payload {
            Some(p) => p,
            None => Vec::new(),
        };

        UtpPacket {
            header: UtpPacketHeader {
                packet_type: self.packet_type,
                version: Version::One,
                extension,
                conn_id: self.conn_id,
                ts_micros: self.ts_micros,
                ts_diff_micros: self.ts_diff_micros,
                window_size: self.window_size,
                seq_num: self.seq_num,
                ack_num: self.ack_num,
            },
            selective_ack: self.selective_ack,
            payload,
        }
    }
}

impl From<UtpPacket> for PacketBuilder {
    fn from(packet: UtpPacket) -> (r: Self)
        ensures
            r@ == spec_builder_of_packet(packet@),
    {
        let payload = if packet.payload.len() == 0 {
            None
        } else {
            Some(packet.payload)
        };

        Self {
            packet_type: packet.header.packet_type,
            conn_id: packet.header.conn_id,
            ts_micros: packet.header.ts_micros,
            ts_diff_micros: packet.header.ts_diff_micros,
            window_size: packet.header.window_size,
            seq_num: packet.header.seq_num,
            ack_num: packet.header.ack_num,
            selective_ack: packet.selective_ack,
            payload,
        }
    }
}

/// A builder holds vectors, which a spec function cannot make, so the
/// contract of `from` above says what it returns, over the builder's view.
impl FromSpecImpl<UtpPacket> for PacketBuilder {
    open spec fn obeys_from_spec() -> bool {
        false
    }

    open spec fn from_spec(v: UtpPacket) -> PacketBuilder {
        arbitrary()
    }
}

// ---------------------------------------------------------------------------
// Laws of the wire format
// ---------------------------------------------------------------------------

/// Reading a packet kind back from its number gives the kind.
pub proof fn lemma_packet_type_roundtrip(t: UtpPacketType)
    ensures
        UtpPacketType::of_code(t.code()) == Ok::<UtpPacketType, InvalidPacketType>(t),
{
}

/// A number names a packet kind exactly when it is at most four, and then
/// that kind has the number.
pub proof fn lemma_packet_type_codes(value: u8)
    ensures
        UtpPacketType::of_code(value) is Ok <==> value <= 4,
        UtpPacketType::of_code(value) matches Ok(t) ==> t.code() == value,
{
}

/// Every byte names an extension kind whose byte it is.
pub proof fn lemma_extension_code_roundtrip(value: u8)
    ensures
        Extension::of_code(value).code() == value,
        Extension::of_code(value).is_canonical(),
{
}

/// Reading back the byte of an extension kind gives the kind, for every kind
/// in the form that reading produces.
pub proof fn lemma_extension_roundtrip(e: Extension)
    requires
        e.is_canonical(),
    ensures
        Extension::of_code(e.code()) == e,
{
}

/// Reading back the bytes of a header gives the header, for every header
/// whose extension kind is in the form that reading produces.
pub proof fn lemma_header_roundtrip(h: UtpPacketHeader)
    requires
        h.extension.is_canonical(),
    ensures
        h.spec_encode().len() == 20,
        UtpPacketHeader::spec_decode(h.spec_encode()) == Ok::<UtpPacketHeader, UtpPacketHeaderError>(h),
{
    let s = h.spec_encode();
    let t = h.packet_type.code();
    assert(t <= 4);
    assert(((t * 16 + 1) as u8) / 16 == t && ((t * 16 + 1) as u8) % 16 == 1);
    lemma_be16_roundtrip(h.conn_id);
    lemma_be32_roundtrip(h.ts_micros);
    lemma_be32_roundtrip(h.ts_diff_micros);
    lemma_be32_roundtrip(h.window_size);
    lemma_be16_roundtrip(h.seq_num);
    lemma_be16_roundtrip(h.ack_num);
    assert(s[2] == be16(h.conn_id)[0] && s[3] == be16(h.conn_id)[1]);
    assert(s[4] == be32(h.ts_micros)[0] && s[7] == be32(h.ts_micros)[3]);
    assert(s[5] == be32(h.ts_micros)[1] && s[6] == be32(h.ts_micros)[2]);
    assert(s[8] == be32(h.ts_diff_micros)[0] && s[9] == be32(h.ts_diff_micros)[1]);
    assert(s[10] == be32(h.ts_diff_micros)[2] && s[11] == be32(h.ts_diff_micros)[3]);
    assert(s[12] == be32(h.window_size)[0] && s[13] == be32(h.window_size)[1]);
    assert(s[14] == be32(h.window_size)[2] && s[15] == be32(h.window_size)[3]);
    assert(s[16] == be16(h.seq_num)[0] && s[17] == be16(h.seq_num)[1]);
    assert(s[18] == be16(h.ack_num)[0] && s[19] == be16(h.ack_num)[1]);
    match h.version {
        Version::One => {},
    }
}

/// The numbers of the packet kinds on the wire: DATA 0, FIN 1, STATE 2,
/// RESET 3, SYN 4, the wire number of a kind being what `u8::from` gives.
pub proof fn lemma_packet_type_numbers(t: UtpPacketType)
    ensures
        t == UtpPacketType::Data ==> t.code() == 0,
        t == UtpPacketType::Fin ==> t.code() == 1,
        t == UtpPacketType::State ==> t.code() == 2,
        t == UtpPacketType::Reset ==> t.code() == 3,
        t == UtpPacketType::Syn ==> t.code() == 4,
        UtpPacketType::of_code(0) == Ok::<UtpPacketType, InvalidPacketType>(UtpPacketType::Data),
        UtpPacketType::of_code(1) == Ok::<UtpPacketType, InvalidPacketType>(UtpPacketType::Fin),
        UtpPacketType::of_code(2) == Ok::<UtpPacketType, InvalidPacketType>(UtpPacketType::State),
        UtpPacketType::of_code(3) == Ok::<UtpPacketType, InvalidPacketType>(UtpPacketType::Reset),
        UtpPacketType::of_code(4) == Ok::<UtpPacketType, InvalidPacketType>(UtpPacketType::Syn),
{
}

/// Where each field lies in the bytes of a header: the kind's number (DATA
/// 0, FIN 1, STATE 2, RESET 3, SYN 4) in the high four bits of byte 0 and
/// version 1 in its low four bits, the extension kind's byte in byte 1, then
/// big-endian the connection id in bytes 2..4, the timestamp in 4..8, the
/// timestamp difference in 8..12, the window in 12..16, the sequence number
/// in 16..18 and the acknowledgement number in 18..20.
pub proof fn lemma_header_layout(h: UtpPacketHeader)
    ensures
        ({
            let s = h.spec_encode();
            &&& s.len() == 20
            &&& (h.packet_type == UtpPacketType::Data ==> s[0] / 16 == 0)
            &&& (h.packet_type == UtpPacketType::Fin ==> s[0] / 16 == 1)
            &&& (h.packet_type == UtpPacketType::State ==> s[0] / 16 == 2)
            &&& (h.packet_type == UtpPacketType::Reset ==> s[0] / 16 == 3)
            &&& (h.packet_type == UtpPacketType::Syn ==> s[0] / 16 == 4)
            &&& s[0] % 16 == 1
            &&& (h.extension == Extension::NoExtension ==> s[1] == 0)
            &&& (h.extension == Extension::SelectiveAck ==> s[1] == 1)
            &&& (h.extension matches Extension::Unknown(b) ==> s[1] == b)
            &&& s.subrange(2, 4) == be16(h.conn_id)
            &&& s.subrange(4, 8) == be32(h.ts_micros)
            &&& s.subrange(8, 12) == be32(h.ts_diff_micros)
            &&& s.subrange(12, 16) == be32(h.window_size)
            &&& s.subrange(16, 18) == be16(h.seq_num)
            &&& s.subrange(18, 20) == be16(h.ack_num)
        }),
{
    let s = h.spec_encode();
    let t = h.packet_type.code();
    assert(((t * 16 + 1) as u8) / 16 == t && ((t * 16 + 1) as u8) % 16 == 1);
    match h.version {
        Version::One => {},
    }
    assert(s.subrange(2, 4) =~= be16(h.conn_id));
    assert(s.subrange(4, 8) =~= be32(h.ts_micros));
    assert(s.subrange(8, 12) =~= be32(h.ts_diff_micros));
    assert(s.subrange(12, 16) =~= be32(h.window_size));
    assert(s.subrange(16, 18) =~= be16(h.seq_num));
    assert(s.subrange(18, 20) =~= be16(h.ack_num));
}

/// A header read from twenty bytes takes its kind from the high four bits
/// of byte 0 (0 DATA, 1 FIN, 2 STATE, 3 RESET, 4 SYN), requires version 1 in
/// the low four bits, and takes each number big-endian from its place.
pub proof fn lemma_header_decode_layout(s: Seq<u8>)
    requires
        s.len() == 20,
        s[0] / 16 <= 4,
        s[0] % 16 == 1,
    ensures
        UtpPacketHeader::spec_decode(s) is Ok,
        ({
            let h = UtpPacketHeader::spec_decode(s)->Ok_0;
            &&& (s[0] / 16 == 0 ==> h.packet_type == UtpPacketType::Data)
            &&& (s[0] / 16 == 1 ==> h.packet_type == UtpPacketType::Fin)
            &&& (s[0] / 16 == 2 ==> h.packet_type == UtpPacketType::State)
            &&& (s[0] / 16 == 3 ==> h.packet_type == UtpPacketType::Reset)
            &&& (s[0] / 16 == 4 ==> h.packet_type == UtpPacketType::Syn)
            &&& h.version == Version::One
            &&& (s[1] == 0 ==> h.extension == Extension::NoExtension)
            &&& (s[1] == 1 ==> h.extension == Extension::SelectiveAck)
            &&& (s[1] > 1 ==> h.extension == Extension::Unknown(s[1]))
            &&& be16(h.conn_id) == s.subrange(2, 4)
            &&& be32(h.ts_micros) == s.subrange(4, 8)
            &&& be32(h.ts_diff_micros) == s.subrange(8, 12)
            &&& be32(h.window_size) == s.subrange(12, 16)
            &&& be16(h.seq_num) == s.subrange(16, 18)
            &&& be16(h.ack_num) == s.subrange(18, 20)
        }),
{
    lemma_header_bytes_roundtrip(s);
    let h = UtpPacketHeader::spec_decode(s)->Ok_0;
    lemma_header_layout(h);
}

/// Writing out a header read from twenty bytes gives those bytes.
pub proof fn lemma_header_bytes_roundtrip(s: Seq<u8>)
    requires
        UtpPacketHeader::spec_decode(s) is Ok,
    ensures
        UtpPacketHeader::spec_decode(s)->Ok_0.spec_encode() == s,
{
    let h = UtpPacketHeader::spec_decode(s)->Ok_0;
    assert((s[0] / 16) * 16 + s[0] % 16 == s[0]);
    lemma_u16_from_be_roundtrip(s[2], s[3]);
    lemma_u32_from_be_roundtrip(s[4], s[5], s[6], s[7]);
    lemma_u32_from_be_roundtrip(s[8], s[9], s[10], s[11]);
    lemma_u32_from_be_roundtrip(s[12], s[13], s[14], s[15]);
    lemma_u16_from_be_roundtrip(s[16], s[17]);
    lemma_u16_from_be_roundtrip(s[18], s[19]);
    assert(h.spec_encode() =~= s);
}

/// The extension kind of a packet agrees with whether it carries a
/// selective ACK, as in every packet that a builder builds.
pub open spec fn extension_matches(p: PacketModel) -> bool {
    p.header.extension == if p.selective_ack is Some {
        Extension::SelectiveAck
    } else {
        Extension::NoExtension
    }
}

/// A packet that reading its own bytes gives back: its extension kind agrees
/// with its selective ACK, the selective ACK (if any) is whole words, at
/// least one and at most 255 bytes of them, and a data packet has a payload.
pub open spec fn survives_roundtrip(p: PacketModel) -> bool {
    &&& extension_matches(p)
    &&& (p.selective_ack matches Some(bits) ==> bits.len() % 32 == 0 && 0 < bits.len() && bits.len()
        / 8 <= 255)
    &&& (p.header.packet_type == UtpPacketType::Data ==> p.payload.len() > 0)
}

/// The length that `encoded_len` reports is the length of the bytes that
/// `encode` writes.
pub proof fn lemma_encoded_len(p: PacketModel)
    ensures
        spec_encoded_len(p) == spec_encode_packet(p).len(),
{
    match p.selective_ack {
        Some(bits) => {
            assert(sack_bytes(bits).len() == bits.len() / 8);
        },
        None => {},
    }
}

/// Reading back the bytes of a packet gives the packet, for every packet
/// whose extension kind agrees with its selective ACK, whose selective ACK
/// is one to 255 bytes of whole words, and which is not an empty data
/// packet.
pub proof fn lemma_packet_roundtrip(p: PacketModel)
    requires
        survives_roundtrip(p),
    ensures
        spec_decode_packet(spec_encode_packet(p)) == Ok::<PacketModel, UtpPacketError>(p),
{
    let hb = p.header.spec_encode();
    let s = spec_encode_packet(p);
    lemma_header_roundtrip(p.header);
    assert(s.take(20) =~= hb);
    match p.selective_ack {
        None => {
            assert(s.skip(20) =~= p.payload);
            assert(spec_raw_extensions(p.header.extension, s.skip(20)) == Ok::<
                (Seq<(Extension, Seq<u8>)>, nat),
                ExtensionError,
            >((Seq::empty(), 0)));
            assert(first_selective_ack(Seq::<(Extension, Seq<u8>)>::empty()) is None);
            assert(s.skip(20int) =~= p.payload);
        },
        Some(bits) => {
            let b = sack_bytes(bits);
            let len = b.len();
            assert(len == bits.len() / 8);
            assert(len < 256);
            assert((len as u8) as nat == len);
            let data = s.skip(20);
            assert(data =~= seq![0u8, len as u8] + b + p.payload);
            assert(data[1] == len);
            assert(data.skip(2 + len as int) =~= p.payload);
            assert(data.subrange(2, 2 + len as int) =~= b);
            assert(Extension::of_code(data[0]) == Extension::NoExtension);
            assert(spec_raw_extensions(Extension::NoExtension, data.skip(2 + len as int)) == Ok::<
                (Seq<(Extension, Seq<u8>)>, nat),
                ExtensionError,
            >((Seq::empty(), 0)));
            let exts = seq![(Extension::SelectiveAck, b)] + Seq::<(Extension, Seq<u8>)>::empty();
            assert(spec_raw_extensions(Extension::SelectiveAck, data) == Ok::<
                (Seq<(Extension, Seq<u8>)>, nat),
                ExtensionError,
            >((exts, len + 2)));
            assert(exts[0] == (Extension::SelectiveAck, b));
            assert(first_selective_ack(exts) == Some(b));
            lemma_selective_ack_roundtrip(bits);
            assert(s.skip(20 + (len + 2) as int) =~= p.payload);
        },
    }
}

/// A builder made from a packet builds that packet again, for every packet
/// whose extension kind agrees with whether it carries a selective ACK.
pub proof fn lemma_builder_roundtrip(p: PacketModel)
    requires
        extension_matches(p),
    ensures
        spec_build(spec_builder_of_packet(p)) == p,
{
    let q = spec_build(spec_builder_of_packet(p));
    match p.header.version {
        Version::One => {},
    }
    assert(q.header == p.header);
    assert(q.payload =~= p.payload);
}

/// Every packet that a builder builds has an extension kind that agrees with
/// its selective ACK.
pub proof fn lemma_build_extension_matches(b: BuilderModel)
    ensures
        extension_matches(spec_build(b)),
{
}


// ---------------------------------------------------------------------------
// Laws of the extension chain
// ---------------------------------------------------------------------------

/// The bytes of a chain of extensions: for each, the kind of the extension
/// after it (0 after the last), the length of its data, and its data.
pub open spec fn chain_bytes(exts: Seq<(Extension, Seq<u8>)>) -> Seq<u8>
    decreases exts.len(),
{
    if exts.len() == 0 {
        Seq::empty()
    } else {
        let next: u8 = if exts.len() == 1 {
            0
        } else {
            exts[1].0.code()
        };
        seq![next, exts[0].1.len() as u8] + exts[0].1 + chain_bytes(exts.drop_first())
    }
}

/// The number of bytes a chain takes: two plus the data of each extension.
pub open spec fn chain_len(exts: Seq<(Extension, Seq<u8>)>) -> nat
    decreases exts.len(),
{
    if exts.len() == 0 {
        0
    } else {
        2 + exts[0].1.len() + chain_len(exts.drop_first())
    }
}

/// A chain that can be written: every kind is an extension (not kind 0) in
/// the form that reading produces, and every data fits a length byte.
pub open spec fn writable_chain(exts: Seq<(Extension, Seq<u8>)>) -> bool {
    forall|i: int|
        0 <= i < exts.len() ==> {
            &&& (#[trigger] exts[i]).0 != Extension::NoExtension
            &&& exts[i].0.is_canonical()
            &&& exts[i].1.len() <= 255
        }
}

/// Reading a chain of extensions follows each extension's next-kind byte,
/// whatever the kind of the extension it stands in, until kind 0: it gives
/// back every extension with its kind and data, and takes exactly two bytes
/// plus the data of each, leaving what follows the chain untouched.
pub proof fn lemma_chain_roundtrip(exts: Seq<(Extension, Seq<u8>)>, rest: Seq<u8>)
    requires
        exts.len() > 0,
        writable_chain(exts),
    ensures
        chain_bytes(exts).len() == chain_len(exts),
        spec_raw_extensions(exts[0].0, chain_bytes(exts) + rest) == Ok::<
            (Seq<(Extension, Seq<u8>)>, nat),
            ExtensionError,
        >((exts, chain_len(exts))),
    decreases exts.len(),
{
    let k = exts[0].0;
    let d = exts[0].1;
    let tail = exts.drop_first();
    let len = d.len();
    let data = chain_bytes(exts) + rest;
    assert(len <= 255);
    assert((len as u8) as nat == len);
    let next: u8 = if exts.len() == 1 {
        0
    } else {
        exts[1].0.code()
    };
    assert(data =~= seq![next, len as u8] + d + (chain_bytes(tail) + rest));
    assert(data.subrange(2, 2 + len as int) =~= d);
    assert(data.skip(2 + len as int) =~= chain_bytes(tail) + rest);
    assert(k != Extension::NoExtension);
    if exts.len() == 1 {
        assert(tail.len() == 0);
        assert(Extension::of_code(next) == Extension::NoExtension);
        assert(spec_raw_extensions(Extension::NoExtension, chain_bytes(tail) + rest) == Ok::<
            (Seq<(Extension, Seq<u8>)>, nat),
            ExtensionError,
        >((Seq::empty(), 0)));
        assert(seq![(k, d)] + Seq::<(Extension, Seq<u8>)>::empty() =~= exts);
    } else {
        assert(writable_chain(tail)) by {
            assert forall|i: int| 0 <= i < tail.len() implies {
                &&& (#[trigger] tail[i]).0 != Extension::NoExtension
                &&& tail[i].0.is_canonical()
                &&& tail[i].1.len() <= 255
            } by {
                assert(tail[i] == exts[i + 1]);
            }
        }
        assert(tail[0] == exts[1]);
        lemma_extension_roundtrip(exts[1].0);
        assert(Extension::of_code(next) == tail[0].0);
        lemma_chain_roundtrip(tail, rest);
        assert(seq![(k, d)] + tail =~= exts);
    }
}

/// Reading a packet whose header announces a chain of extensions gives the
/// header, takes the whole chain, and gives exactly the bytes after it as
/// payload; the selective ACK is the first selective-ACK extension of the
/// chain, read as a bitmask. It succeeds unless that bitmask is refused or a
/// data packet is left with no payload.
pub proof fn lemma_decode_after_chain(
    hb: Seq<u8>,
    exts: Seq<(Extension, Seq<u8>)>,
    payload: Seq<u8>,
)
    requires
        UtpPacketHeader::spec_decode(hb) is Ok,
        exts.len() == 0 ==> UtpPacketHeader::spec_decode(hb)->Ok_0.extension == Extension::NoExtension,
        exts.len() > 0 ==> UtpPacketHeader::spec_decode(hb)->Ok_0.extension == exts[0].0,
        writable_chain(exts),
    ensures
        ({
            let h = UtpPacketHeader::spec_decode(hb)->Ok_0;
            let r = spec_decode_packet(hb + chain_bytes(exts) + payload);
            &&& r matches Ok(m) ==> m.header == h && m.payload == payload
            &&& r matches Ok(m) ==> (m.selective_ack is Some <==> first_selective_ack(exts) is Some)
            &&& r matches Ok(m) ==> (first_selective_ack(exts) matches Some(d) ==> SelectiveAck::spec_decode(d)
                == Ok::<Seq<bool>, SelectiveAckError>(m.selective_ack->Some_0))
            &&& (first_selective_ack(exts) matches Some(d) ==> SelectiveAck::spec_decode(d) is Ok)
                && !(h.packet_type == UtpPacketType::Data && payload.len() == 0) ==> r is Ok
        }),
{
    let h = UtpPacketHeader::spec_decode(hb)->Ok_0;
    let s = hb + chain_bytes(exts) + payload;
    assert(hb.len() == 20);
    assert(s.take(20) =~= hb);
    assert(s.skip(20) =~= chain_bytes(exts) + payload);
    if exts.len() == 0 {
        assert(chain_bytes(exts) =~= Seq::<u8>::empty());
        assert(spec_raw_extensions(h.extension, s.skip(20)) == Ok::<
            (Seq<(Extension, Seq<u8>)>, nat),
            ExtensionError,
        >((Seq::empty(), 0)));
        assert(s.skip(20int) =~= payload);
        assert(first_selective_ack(exts) is None);
    } else {
        lemma_chain_roundtrip(exts, payload);
        assert(s.skip(20 + chain_len(exts) as int) =~= payload);
    }
}

} // verus!
