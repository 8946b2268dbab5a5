use lib::utp::packet::{
    Extension, ExtensionError, InvalidPacketType, InvalidVersion, PacketBuilder, SelectiveAck,
    SelectiveAckError, UtpPacket, UtpPacketError, UtpPacketHeader, UtpPacketHeaderError,
    UtpPacketType, Version,
};

fn sample_header() -> UtpPacketHeader {
    UtpPacketHeader {
        packet_type: UtpPacketType::State,
        version: Version::One,
        extension: Extension::NoExtension,
        conn_id: 0x1234,
        ts_micros: 0x0102_0304,
        ts_diff_micros: 0xA0B0_C0D0,
        window_size: 1500,
        seq_num: 7,
        ack_num: 0xFFFE,
    }
}

#[test]
fn header_encode_layout() {
    let bytes = sample_header().encode();
    assert_eq!(
        bytes,
        vec![
            0x21, 0x00, 0x12, 0x34, 0x01, 0x02, 0x03, 0x04, 0xA0, 0xB0, 0xC0, 0xD0, 0x00, 0x00,
            0x05, 0xDC, 0x00, 0x07, 0xFF, 0xFE
        ]
    );
}

#[test]
fn header_roundtrip() {
    let h = sample_header();
    assert_eq!(UtpPacketHeader::decode(&h.encode()).unwrap(), h);
}

#[test]
fn header_bytes_roundtrip() {
    let bytes: Vec<u8> = vec![
        0x41, 0x07, 1, 2, 3, 4, 5, 6, 7, 8, 9, 10, 11, 12, 13, 14, 15, 16, 17, 18,
    ];
    let h = UtpPacketHeader::decode(&bytes).unwrap();
    assert_eq!(h.packet_type, UtpPacketType::Syn);
    assert_eq!(h.extension, Extension::Unknown(7));
    assert_eq!(h.conn_id, 0x0102);
    assert_eq!(h.ts_micros, 0x0304_0506);
    assert_eq!(h.ts_diff_micros, 0x0708_090A);
    assert_eq!(h.window_size, 0x0B0C_0D0E);
    assert_eq!(h.seq_num, 0x0F10);
    assert_eq!(h.ack_num, 0x1112);
    assert_eq!(h.encode(), bytes);
}

#[test]
fn header_decode_errors() {
    assert_eq!(UtpPacketHeader::decode(&[0x01; 19]), Err(UtpPacketHeaderError::InvalidLen));
    assert_eq!(UtpPacketHeader::decode(&[0x01; 21]), Err(UtpPacketHeaderError::InvalidLen));
    let mut bytes = sample_header().encode();
    bytes[0] = 0x51;
    assert_eq!(
        UtpPacketHeader::decode(&bytes),
        Err(UtpPacketHeaderError::InvalidPacketType(InvalidPacketType))
    );
    bytes[0] = 0x02;
    assert_eq!(
        UtpPacketHeader::decode(&bytes),
        Err(UtpPacketHeaderError::InvalidVersion(InvalidVersion))
    );
}

#[test]
fn packet_type_conversions() {
    for (code, t) in [
        (0u8, UtpPacketType::Data),
        (1, UtpPacketType::Fin),
        (2, UtpPacketType::State),
        (3, UtpPacketType::Reset),
        (4, UtpPacketType::Syn),
    ] {
        assert_eq!(UtpPacketType::try_from(code).unwrap(), t);
        assert_eq!(u8::from(t), code);
    }
    assert_eq!(UtpPacketType::try_from(5u8), Err(InvalidPacketType));
    assert_eq!(UtpPacketType::Data.name(), "ST_DATA");
    assert_eq!(UtpPacketType::State.name(), "ST_STATE");
    assert_eq!(UtpPacketType::Syn.name(), "ST_SYN");
}

#[test]
fn version_and_extension_conversions() {
    assert_eq!(Version::try_from(1u8).unwrap(), Version::One);
    assert_eq!(Version::try_from(2u8), Err(InvalidVersion));
    assert_eq!(u8::from(Version::One), 1);
    assert_eq!(Extension::from(0u8), Extension::NoExtension);
    assert_eq!(Extension::from(1u8), Extension::SelectiveAck);
    assert_eq!(Extension::from(9u8), Extension::Unknown(9));
    for b in 0..=255u8 {
        assert_eq!(u8::from(Extension::from(b)), b);
    }
}

#[test]
fn error_conversions_and_messages() {
    assert_eq!(
        UtpPacketError::from(SelectiveAckError::InvalidLen),
        UtpPacketError::InvalidExtension(ExtensionError::InvalidSelectiveAck(SelectiveAckError::InvalidLen))
    );
    assert_eq!(
        ExtensionError::from(SelectiveAckError::InsufficientLen),
        ExtensionError::InvalidSelectiveAck(SelectiveAckError::InsufficientLen)
    );
    assert_eq!(
        UtpPacketHeaderError::from(InvalidVersion),
        UtpPacketHeaderError::InvalidVersion(InvalidVersion)
    );
    assert_eq!(
        UtpPacketError::from(UtpPacketHeaderError::InvalidLen),
        UtpPacketError::InvalidHeader(UtpPacketHeaderError::InvalidLen)
    );
    assert_eq!(SelectiveAckError::InsufficientLen.message(), "selective ACK len must be at least 32 bits");
    assert_eq!(SelectiveAckError::InvalidLen.message(), "selective ACK len must be a multiple of 32 bits");
    assert_eq!(ExtensionError::InsufficientLen.message(), "insufficient extension len");
    assert_eq!(
        ExtensionError::InvalidSelectiveAck(SelectiveAckError::InvalidLen).message(),
        "selective ACK len must be a multiple of 32 bits"
    );
    assert_eq!(InvalidVersion.message(), "invalid uTP version");
    assert_eq!(InvalidPacketType.message(), "invalid uTP packet type");
}

#[test]
fn selective_ack_new_pads_to_words() {
    let sack = SelectiveAck::new(vec![true, false, true]);
    let acked = sack.acked();
    assert_eq!(acked.len(), 32);
    assert_eq!(&acked[..3], &[true, false, true]);
    assert!(acked[3..].iter().all(|b| !b));
    assert_eq!(sack.encoded_len(), 4);

    let exact = SelectiveAck::new(vec![true; 64]);
    assert_eq!(exact.acked(), vec![true; 64]);
    assert_eq!(exact.encoded_len(), 8);

    let empty = SelectiveAck::new(vec![]);
    assert_eq!(empty.acked(), Vec::<bool>::new());
    assert_eq!(empty.encode(), Vec::<u8>::new());
}

#[test]
fn selective_ack_encode_bit_order() {
    let mut bits = vec![false; 32];
    bits[0] = true;
    bits[9] = true;
    bits[31] = true;
    let sack = SelectiveAck::new(bits);
    assert_eq!(sack.encode(), vec![0x01, 0x02, 0x00, 0x80]);
}

#[test]
fn selective_ack_roundtrip() {
    let bits: Vec<bool> = (0..64).map(|i| i % 3 == 0).collect();
    let sack = SelectiveAck::new(bits.clone());
    let decoded = SelectiveAck::decode(&sack.encode()).unwrap();
    assert_eq!(decoded, sack);
    assert_eq!(decoded.acked(), bits);
}

#[test]
fn selective_ack_bytes_roundtrip() {
    let bytes = vec![0xA5, 0x00, 0xFF, 0x3C, 0x81, 0x42, 0x24, 0x18];
    let sack = SelectiveAck::decode(&bytes).unwrap();
    assert_eq!(sack.acked().len(), 64);
    assert_eq!(sack.encode(), bytes);
}

#[test]
fn selective_ack_decode_errors() {
    assert_eq!(SelectiveAck::decode(&[1, 2, 3]), Err(SelectiveAckError::InsufficientLen));
    assert_eq!(SelectiveAck::decode(&[]), Err(SelectiveAckError::InsufficientLen));
    assert_eq!(SelectiveAck::decode(&[1, 2, 3, 4, 5]), Err(SelectiveAckError::InvalidLen));
}

fn sample_packet(with_sack: bool) -> UtpPacket {
    let builder = PacketBuilder::new(UtpPacketType::Data, 42, 1000, 5000, 9)
        .ts_diff_micros(77)
        .ack_num(8)
        .payload(vec![0xDE, 0xAD]);
    if with_sack {
        builder.selective_ack(Some(SelectiveAck::new(vec![true, true, false, true]))).build()
    } else {
        builder.build()
    }
}

#[test]
fn builder_sets_fields() {
    let p = PacketBuilder::new(UtpPacketType::Syn, 1, 2, 3, 4).build();
    assert_eq!(p.packet_type(), UtpPacketType::Syn);
    assert_eq!(p.conn_id(), 1);
    assert_eq!(p.ts_micros(), 2);
    assert_eq!(p.window_size(), 3);
    assert_eq!(p.seq_num(), 4);
    assert_eq!(p.ts_diff_micros(), 0);
    assert_eq!(p.ack_num(), 0);
    assert!(p.selective_ack().is_none());
    assert!(p.payload().is_empty());

    let q = PacketBuilder::new(UtpPacketType::Syn, 1, 2, 3, 4)
        .ts_micros(20)
        .window_size(30)
        .ts_diff_micros(40)
        .ack_num(50)
        .build();
    assert_eq!(q.ts_micros(), 20);
    assert_eq!(q.window_size(), 30);
    assert_eq!(q.ts_diff_micros(), 40);
    assert_eq!(q.ack_num(), 50);
}

#[test]
fn packet_encode_layout() {
    let p = sample_packet(true);
    let bytes = p.encode();
    assert_eq!(bytes[0], 0x01);
    assert_eq!(bytes[1], 1);
    assert_eq!(&bytes[20..22], &[0, 4]);
    assert_eq!(&bytes[22..26], &[0x0B, 0, 0, 0]);
    assert_eq!(&bytes[26..], &[0xDE, 0xAD]);
    assert_eq!(p.encoded_len(), bytes.len());
    let plain = sample_packet(false);
    assert_eq!(plain.encoded_len(), 22);
    assert_eq!(plain.encode().len(), 22);
}

#[test]
fn packet_roundtrip() {
    for with_sack in [false, true] {
        let p = sample_packet(with_sack);
        let decoded = UtpPacket::decode(&p.encode()).unwrap();
        assert_eq!(decoded, p);
        assert_eq!(decoded.payload(), &vec![0xDE, 0xAD]);
    }
}

#[test]
fn packet_decode_errors() {
    assert_eq!(
        UtpPacket::decode(&[0x01; 10]),
        Err(UtpPacketError::InvalidHeader(UtpPacketHeaderError::InvalidLen))
    );
    let empty_data = PacketBuilder::new(UtpPacketType::Data, 1, 1, 1, 1).build();
    assert_eq!(UtpPacket::decode(&empty_data.encode()), Err(UtpPacketError::EmptyDataPayload));

    let mut bytes = sample_packet(false).encode();
    bytes[1] = 1;
    bytes.truncate(21);
    assert_eq!(
        UtpPacket::decode(&bytes),
        Err(UtpPacketError::InvalidExtension(ExtensionError::InsufficientLen))
    );

    let mut bytes = sample_packet(false).encode();
    bytes.truncate(20);
    bytes[1] = 1;
    bytes.extend_from_slice(&[0, 3, 1, 2, 3]);
    assert_eq!(
        UtpPacket::decode(&bytes),
        Err(UtpPacketError::InvalidExtension(ExtensionError::InvalidSelectiveAck(
            SelectiveAckError::InsufficientLen
        )))
    );

    let mut bad_type = sample_packet(false).encode();
    bad_type[0] = 0x71;
    assert_eq!(
        UtpPacket::decode(&bad_type),
        Err(UtpPacketError::InvalidHeader(UtpPacketHeaderError::InvalidPacketType(InvalidPacketType)))
    );
}

#[test]
fn packet_decode_skips_unknown_extensions() {
    let mut bytes = sample_packet(false).encode();
    bytes.truncate(20);
    bytes[1] = 9;
    bytes.extend_from_slice(&[1, 2, 0xAA, 0xBB]);
    bytes.extend_from_slice(&[0, 4, 0x01, 0, 0, 0]);
    bytes.extend_from_slice(&[7, 7]);
    let p = UtpPacket::decode(&bytes).unwrap();
    assert_eq!(p.payload(), &vec![7, 7]);
    let sack = p.selective_ack().unwrap();
    assert!(sack.acked()[0]);
    assert_eq!(sack.acked().len(), 32);
}

#[test]
fn builder_from_packet_roundtrip() {
    for with_sack in [false, true] {
        let p = sample_packet(with_sack);
        let again = PacketBuilder::from(p.clone()).build();
        assert_eq!(again, p);
    }
    let empty = PacketBuilder::new(UtpPacketType::Fin, 3, 4, 5, 6).build();
    assert_eq!(PacketBuilder::from(empty.clone()).build(), empty);
}

#[test]
fn packet_summary_text() {
    let p = PacketBuilder::new(UtpPacketType::Syn, 5, 6, 7, 8).ack_num(9).ts_diff_micros(10).build();
    assert_eq!(
        p.summary(),
        "packet cid=5 packetType=ST_SYN seqNr=8 ackNr=9 timestamp=6 timestampDiff=10 remoteWindow=7"
    );
}
