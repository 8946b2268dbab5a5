use lib::archive::legacy::old2::utp_type::UtpType as OldUtpType;
use lib::archive::legacy::old2::utp_state::UtpState as OldUtpState;
use lib::utils::clock::{unix_millis, unix_nanos};
use lib::utils::random::{gen, gen_array, gen_array_seeded, gen_seeded};
use lib::utp::event::{SocketEvent, StreamEvent};
use lib::utp::inter::utp_types::UtpTypes as InterUtpTypes;
use lib::utp::packet::{PacketBuilder, UtpPacketType};
use lib::utp::utp_packet::{UtpHeader, UtpPacket, HEADER_SIZE};
use lib::utp::utp_state::UtpState;
use lib::utp::utp_type::UtpType;
use lib::utp::utp_types::UtpTypes;

#[test]
fn utp_type_values() {
    let kinds = [UtpType::StData, UtpType::StFin, UtpType::StState, UtpType::StReset, UtpType::StSyn];
    for (i, k) in kinds.iter().enumerate() {
        assert_eq!(k.value(), i as u8);
        assert_eq!(UtpType::from_value(&(i as u8)).unwrap().value(), i as u8);
    }
    assert!(UtpType::from_value(&5).is_err());
    assert!(UtpType::from_value(&255).is_err());
}

#[test]
fn old_utp_type_values() {
    let kinds = [OldUtpType::Data, OldUtpType::Fin, OldUtpType::Ack, OldUtpType::Reset, OldUtpType::Syn];
    for (i, k) in kinds.iter().enumerate() {
        assert_eq!(k.value(), i as u8);
        assert_eq!(&OldUtpType::from_value(&(i as u8)).unwrap(), k);
    }
    assert_eq!(OldUtpType::from_value(&7), Err(()));
    let _ = OldUtpState::Closed;
}

#[test]
fn utp_types_values() {
    let kinds = [UtpTypes::StData, UtpTypes::StFin, UtpTypes::StState, UtpTypes::StReset, UtpTypes::StSyn];
    for (i, k) in kinds.iter().enumerate() {
        assert_eq!(k.value(), i as u32);
        assert_eq!(&UtpTypes::from_value(&(i as u32)).unwrap(), k);
    }
    assert_eq!(UtpTypes::from_value(&5), Err(()));
    assert_eq!(UtpTypes::from_value(&u32::MAX), Err(()));
}

#[test]
fn inter_utp_types_codes() {
    let kinds = [InterUtpTypes::Data, InterUtpTypes::Fin, InterUtpTypes::Ack, InterUtpTypes::Reset, InterUtpTypes::Syn];
    for (i, k) in kinds.iter().enumerate() {
        assert_eq!(k.get_code(), i as u8);
        assert_eq!(&InterUtpTypes::from_code(&(i as u8)).unwrap(), k);
    }
    let err = InterUtpTypes::from_code(&9).unwrap_err();
    assert_eq!(err.kind(), std::io::ErrorKind::InvalidInput);
    assert_eq!(err.to_string(), "Unknown UTP type code");
}

#[test]
fn utp_packet_to_bytes_layout() {
    let p = UtpPacket::new_at(vec![9, 8, 7], 0xABCD, 0x0102, 0x0304, 0x1122_3344);
    let bytes = p.to_bytes();
    assert_eq!(
        bytes,
        vec![
            0x11, 0x00, 0xAB, 0xCD, 0x11, 0x22, 0x33, 0x44, 0, 0, 0, 0, 0, 0, 0, 0, 0x01, 0x02,
            0x03, 0x04, 9, 8, 7
        ]
    );
    assert_eq!(bytes.len(), HEADER_SIZE + 3);
}

#[test]
fn utp_packet_roundtrip() {
    let p = UtpPacket {
        header: UtpHeader {
            _type: UtpType::StSyn,
            version: 15,
            extension: 3,
            connection_id: 65535,
            timestamp: 1,
            timestamp_diff: 2,
            wnd_size: 3,
            seq_nr: 4,
            ack_nr: 5,
        },
        payload: vec![1, 2, 3, 4],
    };
    let q = UtpPacket::from_bytes(&p.to_bytes());
    assert_eq!(q.header._type.value(), 4);
    assert_eq!(q.header.version, 15);
    assert_eq!(q.header.extension, 3);
    assert_eq!(q.header.connection_id, 65535);
    assert_eq!(q.header.timestamp, 1);
    assert_eq!(q.header.timestamp_diff, 2);
    assert_eq!(q.header.wnd_size, 3);
    assert_eq!(q.header.seq_nr, 4);
    assert_eq!(q.header.ack_nr, 5);
    assert_eq!(q.payload, vec![1, 2, 3, 4]);
}

#[test]
fn utp_packet_version_masked() {
    let p = UtpPacket {
        header: UtpHeader {
            _type: UtpType::StData,
            version: 0x21,
            extension: 0,
            connection_id: 0,
            timestamp: 0,
            timestamp_diff: 0,
            wnd_size: 0,
            seq_nr: 0,
            ack_nr: 0,
        },
        payload: vec![],
    };
    assert_eq!(p.to_bytes()[0], 0x01);
    assert_eq!(UtpPacket::from_bytes(&p.to_bytes()).header.version, 1);
}

#[test]
fn utp_packet_new_fields() {
    let p = UtpPacket::new(vec![5], 10, 11, 12);
    assert_eq!(p.header._type.value(), 1);
    assert_eq!(p.header.version, 1);
    assert_eq!(p.header.extension, 0);
    assert_eq!(p.header.connection_id, 10);
    assert_eq!(p.header.seq_nr, 11);
    assert_eq!(p.header.ack_nr, 12);
    assert_eq!(p.header.timestamp_diff, 0);
    assert_eq!(p.header.wnd_size, 0);
    assert_eq!(p.payload, vec![5]);
}

#[test]
fn random_seeded_values() {
    assert_eq!(gen_seeded::<u16>(1), 32558);
    assert_eq!(gen_seeded::<u8>(1), 46);
    assert_eq!(gen_seeded::<u32>(1), 1284865838);
    assert_eq!(gen_seeded::<u64>(1), 0x5851_f42d_4c95_7f2e);
    assert_eq!(gen_array_seeded::<u16, 3>(1), [32558, 11543, 22028]);
    let arr: [u16; 0] = gen_array_seeded::<u16, 0>(5);
    assert_eq!(arr.len(), 0);
}

fn lcg(seed: u64) -> u64 {
    seed.wrapping_mul(6364136223846793005).wrapping_add(1)
}

#[test]
fn random_from_clock() {
    let arr: [u64; 4] = gen_array::<u64, 4>();
    for i in 0..3 {
        assert_eq!(arr[i + 1], lcg(arr[i]));
    }
    let _ = gen::<u16>();
}

#[test]
fn random_signed_and_word_types() {
    let s1 = lcg(1);
    assert_eq!(gen_seeded::<i8>(1), s1 as i8);
    assert_eq!(gen_seeded::<i16>(1), s1 as i16);
    assert_eq!(gen_seeded::<i32>(1), s1 as i32);
    assert_eq!(gen_seeded::<i64>(1), 0x5851_f42d_4c95_7f2e_i64);
    assert_eq!(gen_seeded::<usize>(1), s1 as usize);
    assert_eq!(gen_seeded::<isize>(1), s1 as isize);
    assert_eq!(gen_seeded::<i8>(1), 46);
    let s2 = lcg(s1);
    assert_eq!(gen_array_seeded::<i16, 2>(1), [s1 as i16, s2 as i16]);
    assert_eq!(s2 as i16, 11543);
    let _ = gen::<i32>();
}

#[test]
fn clock_is_after_epoch() {
    assert!(unix_millis() > 1_600_000_000_000);
    assert!(unix_nanos() > 1_600_000_000_000_000_000);
}

#[test]
fn events_clone() {
    let p = PacketBuilder::new(UtpPacketType::Fin, 1, 2, 3, 4).build();
    let e = StreamEvent::Incoming(p.clone());
    match e.clone() {
        StreamEvent::Incoming(q) => assert_eq!(q, p),
        StreamEvent::Shutdown => panic!("wrong event"),
    }
    let s: SocketEvent<u32> = SocketEvent::Outgoing((p.clone(), 7));
    match s.clone() {
        SocketEvent::Outgoing((q, peer)) => {
            assert_eq!(q, p);
            assert_eq!(peer, 7);
        }
        SocketEvent::Shutdown(_) => panic!("wrong event"),
    }
    assert!(matches!(SocketEvent::<u32>::Shutdown(3).clone(), SocketEvent::Shutdown(3)));
    assert!(matches!(StreamEvent::Shutdown.clone(), StreamEvent::Shutdown));
    let _ = UtpState::Connected;
}
