use game_client::error::SocketError;
use game_client::sends::{
    send_dir, send_gameping, send_login, send_message, send_pickup, send_ping, send_register,
    send_removetradeitem,
};
use game_client::socket::{EncryptionState, Socket};
use game_client::types::MessageChannel;

#[test]
fn dir_packet_bytes() {
    let mut socket = Socket::new();
    send_dir(&mut socket, 2).unwrap();
    let out = socket.take_outgoing();
    assert_eq!(out.len(), 1);
    assert!(!out[0].secure);
    assert_eq!(out[0].bytes, vec![3, 0, 0, 0, 0, 0, 0, 0, 6, 0, 2]);
    assert!(socket.take_outgoing().is_empty());
}

#[test]
fn pickup_packet_has_only_its_identifier() {
    let mut socket = Socket::new();
    send_pickup(&mut socket).unwrap();
    let out = socket.take_outgoing();
    assert_eq!(out[0].bytes, vec![2, 0, 0, 0, 0, 0, 0, 0, 11, 0]);
}

#[test]
fn trade_removal_carries_a_u64_amount() {
    let mut socket = Socket::new();
    send_removetradeitem(&mut socket, 4, 300).unwrap();
    let out = socket.take_outgoing();
    assert_eq!(
        out[0].bytes,
        vec![12, 0, 0, 0, 0, 0, 0, 0, 27, 0, 4, 0, 44, 1, 0, 0, 0, 0, 0, 0]
    );
}

#[test]
fn register_and_login_take_the_secure_path() {
    let mut socket = Socket::new();
    send_register(&mut socket, "ann".to_string(), "pw".to_string(), "a@b".to_string(), 1, (0, 1, 2))
        .unwrap();
    send_login(&mut socket, "ann".to_string(), "pw".to_string(), (0, 1, 2), "").unwrap();
    let out = socket.take_outgoing();
    assert_eq!(out.len(), 2);
    assert!(out[0].secure && out[1].secure);
    let payload_len = 2 + (8 + 3) + (8 + 2) + (8 + 3) + 1 + 6;
    assert_eq!(out[0].bytes.len(), 8 + payload_len);
    assert_eq!(out[0].bytes[0] as usize, payload_len);
    assert_eq!(&out[0].bytes[8..10], &[2, 0]);
    assert_eq!(&out[1].bytes[8..10], &[3, 0]);
}

#[test]
fn message_packet_layout() {
    let mut socket = Socket::new();
    send_message(&mut socket, MessageChannel::Global, "hi".to_string(), String::new()).unwrap();
    let out = socket.take_outgoing();
    assert_eq!(
        out[0].bytes,
        vec![
            22, 0, 0, 0, 0, 0, 0, 0, 18, 0, 2, 0, 2, 0, 0, 0, 0, 0, 0, 0, b'h', b'i', 0, 0, 0,
            0, 0, 0, 0, 0
        ]
    );
}

#[test]
fn ping_path_follows_encryption_state() {
    let mut socket = Socket::new();
    send_ping(&mut socket).unwrap();
    socket.encrypt_state = EncryptionState::WriteTransfering;
    send_ping(&mut socket).unwrap();
    socket.encrypt_state = EncryptionState::ReadWrite;
    send_gameping(&mut socket).unwrap();
    let out = socket.take_outgoing();
    assert_eq!(out.len(), 3);
    assert!(!out[0].secure);
    assert!(out[1].secure);
    assert!(out[2].secure);
    assert_eq!(out[0].bytes, vec![10, 0, 0, 0, 0, 0, 0, 0, 1, 0, 0, 0, 0, 0, 0, 0, 0, 0]);
    assert_eq!(&out[2].bytes[8..10], &[32, 0]);
}

#[test]
fn closed_connection_is_transport_error() {
    let mut socket = Socket::new();
    socket.connected = false;
    assert_eq!(send_dir(&mut socket, 1), Err(SocketError::TransportError));
    assert!(socket.take_outgoing().is_empty());
}
