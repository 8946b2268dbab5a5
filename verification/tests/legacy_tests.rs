use lib::archive::legacy::old2::utp_state::UtpState;
use lib::archive::legacy::old2::utp_type::UtpType;
use lib::utp::legacy::old2::utp_stream::{keep_data, UtpInner};
use lib::utp::legacy::utp_socket::{copy_payload, OutgoingHeader, ReceiveAction, SendRefusal, SocketCore};

#[test]
fn inner_handshake_and_read() {
    let mut inner = UtpInner::new();
    assert!(!inner.is_connected());
    assert_eq!(inner.on_handshake_reply(&UtpType::Syn, 5), Err(()));
    assert!(!inner.is_connected());
    assert_eq!(inner.on_handshake_reply(&UtpType::Ack, 5), Ok(()));
    assert!(inner.is_connected());

    inner.on_packet(&UtpType::Data, 6, 100, 10, vec![1, 2, 3, 4, 5], 15);
    inner.on_packet(&UtpType::Ack, 7, 100, 10, vec![9, 9], 15);
    inner.on_packet(&UtpType::Data, 8, 100, 10, vec![6], 15);

    let mut buf = [0u8; 4];
    assert_eq!(inner.read(&mut buf), 4);
    assert_eq!(buf, [1, 2, 3, 4]);
    let mut big = [7u8; 6];
    assert_eq!(inner.read(&mut big), 2);
    assert_eq!(big, [5, 6, 7, 7, 7, 7]);
    assert_eq!(inner.read(&mut big), 0);
}

#[test]
fn socket_core_send_window() {
    let mut core = SocketCore::connecting(41);
    assert_eq!(
        core.syn_header(),
        OutgoingHeader { conn_id: 41, seq_nr: 1, ack_nr: 0, wnd_size: 0, reply_micro: 0 }
    );
    assert_eq!(core.send(10), Err(SendRefusal::NotConnected));
    assert_eq!(core.on_handshake_reply(&UtpType::Data, 3), Err(()));
    assert_eq!(core.on_handshake_reply(&UtpType::Ack, 3), Ok(()));
    assert!(core.is_connected());
    // the peer has advertised no window yet
    assert_eq!(core.send(10), Err(SendRefusal::WindowFull));
    assert_eq!(core.on_packet(&UtpType::Reset, 4, 960, 0, 250), ReceiveAction::ReceiveAgain);
    assert_eq!(
        core.send(10),
        Ok(OutgoingHeader { conn_id: 42, seq_nr: 2, ack_nr: 4, wnd_size: 0, reply_micro: 250 })
    );
    assert_eq!(
        core.send(900),
        Ok(OutgoingHeader { conn_id: 42, seq_nr: 3, ack_nr: 4, wnd_size: 30, reply_micro: 250 })
    );
    assert_eq!(
        core.send(1),
        Ok(OutgoingHeader { conn_id: 42, seq_nr: 4, ack_nr: 4, wnd_size: 950, reply_micro: 250 })
    );
    // 971 bytes in flight plus sequence number 5 exceed the 960-byte window
    assert_eq!(core.send(1), Err(SendRefusal::WindowFull));
}

#[test]
fn socket_core_receive() {
    let mut core = SocketCore::bound(7);
    assert_eq!(core.accept_handed_over(1), Err(()));
    let mut core = SocketCore::connecting(7);
    assert_eq!(core.accept_handed_over(1), Ok(()));
    assert_eq!(
        core.on_packet(&UtpType::Data, 9, 500, 100, 160),
        ReceiveAction::Acknowledge(OutgoingHeader { conn_id: 8, seq_nr: 1, ack_nr: 9, wnd_size: 0, reply_micro: 60 })
    );
    assert_eq!(
        core.fin_header(),
        OutgoingHeader { conn_id: 8, seq_nr: 1, ack_nr: 9, wnd_size: 0, reply_micro: 60 }
    );
    assert_eq!(core.on_packet(&UtpType::Fin, 10, 500, 100, 100), ReceiveAction::Closed);
    assert!(!core.is_connected());
    assert_eq!(core.send(1), Err(SendRefusal::NotConnected));
    assert_eq!(core.accept_handed_over(11), Err(()));
    let _ = UtpState::Closed;
}

#[test]
fn copy_payload_truncates() {
    let mut buf = [0u8; 3];
    assert_eq!(copy_payload(&mut buf, &[1, 2, 3, 4]), 3);
    assert_eq!(buf, [1, 2, 3]);
    let mut buf = [9u8; 3];
    assert_eq!(copy_payload(&mut buf, &[1]), 1);
    assert_eq!(buf, [1, 9, 9]);
}

#[test]
fn stream_headers() {
    let core = SocketCore::connecting(100);
    assert_eq!(
        core.stream_syn_header(),
        OutgoingHeader { conn_id: 100, seq_nr: 1, ack_nr: 0, wnd_size: 1500, reply_micro: 0 }
    );
    assert_eq!(
        core.stream_data_header(7, 30),
        Some(OutgoingHeader { conn_id: 101, seq_nr: 2, ack_nr: 7, wnd_size: 0, reply_micro: 30 })
    );
}

#[test]
fn send_limits() {
    let core = SocketCore::bound(3);
    assert!(core.send_within_limits(usize::MAX));
    assert!(core.send_queued_within_limits(u32::MAX));
    let mut core = SocketCore::connecting(3);
    assert_eq!(core.on_handshake_reply(&UtpType::Ack, 1), Ok(()));
    // nothing fits the empty window, so the payload length is never added
    assert!(core.send_within_limits(usize::MAX));
    assert!(core.send_queued_within_limits(10));
    assert_eq!(core.on_packet(&UtpType::Ack, 2, 1000, 0, 0), ReceiveAction::ReceiveAgain);
    assert!(core.send_within_limits(100));
    assert!(!core.send_within_limits(u32::MAX as usize));
    assert!(core.send(100).is_ok());
    assert!(!core.send_queued_within_limits(u32::MAX));
}

#[test]
fn keep_data_only_for_data() {
    let mut buffer = vec![1];
    keep_data(&mut buffer, &UtpType::Fin, vec![2]);
    assert_eq!(buffer, vec![1]);
    keep_data(&mut buffer, &UtpType::Data, vec![2, 3]);
    assert_eq!(buffer, vec![1, 2, 3]);
}

#[test]
fn run_keeps_data_in_arrival_order() {
    let mut buffer = vec![0];
    let run = [
        (UtpType::Data, vec![1, 2]),
        (UtpType::Ack, vec![9]),
        (UtpType::Syn, vec![]),
        (UtpType::Data, vec![3]),
        (UtpType::Fin, vec![8, 8]),
        (UtpType::Data, vec![4, 5]),
    ];
    for (kind, payload) in run {
        keep_data(&mut buffer, &kind, payload);
    }
    assert_eq!(buffer, vec![0, 1, 2, 3, 4, 5]);
}
