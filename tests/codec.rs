use game_client::codec::PacketBuffer;
use game_client::error::SocketError;
use game_client::types::{read_opt_entity, write_opt_entity, Command, Entity, MapPosition, MessageChannel, Position};

fn contents(buf: &mut PacketBuffer) -> Vec<u8> {
    buf.to_vec()
}

#[test]
fn u16_is_little_endian() {
    let mut buf = PacketBuffer::new().unwrap();
    buf.write_u16(0x1234).unwrap();
    assert_eq!(contents(&mut buf), vec![0x34, 0x12]);
}

#[test]
fn negative_i32_is_twos_complement() {
    let mut buf = PacketBuffer::new().unwrap();
    buf.write_i32(-2).unwrap();
    assert_eq!(contents(&mut buf), vec![0xfe, 0xff, 0xff, 0xff]);
}

#[test]
fn fixed_width_round_trip() {
    let mut buf = PacketBuffer::new().unwrap();
    buf.write_u8(200).unwrap();
    buf.write_u16(65535).unwrap();
    buf.write_u32(0xdead_beef).unwrap();
    buf.write_u64(u64::MAX).unwrap();
    buf.write_i32(i32::MIN).unwrap();
    buf.write_i64(-1234567890123).unwrap();
    buf.write_bool(true).unwrap();
    buf.write_bool(false).unwrap();
    buf.move_cursor_to_start();
    assert_eq!(buf.read_u8(), Ok(200));
    assert_eq!(buf.read_u16(), Ok(65535));
    assert_eq!(buf.read_u32(), Ok(0xdead_beef));
    assert_eq!(buf.read_u64(), Ok(u64::MAX));
    assert_eq!(buf.read_i32(), Ok(i32::MIN));
    assert_eq!(buf.read_i64(), Ok(-1234567890123));
    assert_eq!(buf.read_bool(), Ok(true));
    assert_eq!(buf.read_bool(), Ok(false));
    assert_eq!(buf.cursor(), buf.length());
}

#[test]
fn string_round_trip_and_layout() {
    let mut buf = PacketBuffer::new().unwrap();
    buf.write_str("héllo").unwrap();
    buf.write_str("").unwrap();
    let bytes = contents(&mut buf);
    assert_eq!(&bytes[0..8], &[6, 0, 0, 0, 0, 0, 0, 0]);
    assert_eq!(&bytes[8..14], "héllo".as_bytes());
    assert_eq!(&bytes[14..22], &[0; 8]);
    buf.move_cursor_to_start();
    assert_eq!(buf.read_string(), Ok("héllo".to_string()));
    assert_eq!(buf.read_string(), Ok(String::new()));
}

#[test]
fn truncated_read_is_decode_error() {
    let mut buf = PacketBuffer::from_bytes(&[1, 2, 3]).unwrap();
    assert_eq!(buf.read_u32(), Err(SocketError::DecodeError));
    assert_eq!(buf.cursor(), 0);
    assert_eq!(buf.read_u16(), Ok(0x0201));
    assert_eq!(buf.read_u16(), Err(SocketError::DecodeError));
    assert_eq!(buf.read_u8(), Ok(3));
}

#[test]
fn invalid_utf8_is_decode_error() {
    let mut buf = PacketBuffer::from_bytes(&[2, 0, 0, 0, 0, 0, 0, 0, 0xff, 0xfe]).unwrap();
    assert_eq!(buf.read_string(), Err(SocketError::DecodeError));
    assert_eq!(buf.cursor(), 0);
}

#[test]
fn string_longer_than_data_is_decode_error() {
    let mut buf = PacketBuffer::from_bytes(&[9, 0, 0, 0, 0, 0, 0, 0, b'a']).unwrap();
    assert_eq!(buf.read_string(), Err(SocketError::DecodeError));
    assert_eq!(buf.cursor(), 0);
}

#[test]
fn packet_header_holds_payload_length() {
    let mut buf = PacketBuffer::new_packet().unwrap();
    assert_eq!(buf.length(), 8);
    buf.write_u16(7).unwrap();
    buf.write_u8(9).unwrap();
    buf.finish().unwrap();
    assert_eq!(buf.cursor(), 0);
    assert_eq!(contents(&mut buf), vec![3, 0, 0, 0, 0, 0, 0, 0, 7, 0, 9]);
}

#[test]
fn move_cursor_past_end_is_rejected() {
    let mut buf = PacketBuffer::from_bytes(&[1, 2, 3, 4]).unwrap();
    assert_eq!(buf.move_cursor(5), Err(SocketError::DecodeError));
    assert_eq!(buf.cursor(), 0);
    assert_eq!(buf.move_cursor(4), Ok(()));
    assert_eq!(buf.cursor(), 4);
    assert_eq!(buf.move_cursor(2), Ok(()));
    assert_eq!(buf.read_u8(), Ok(3));
}

#[test]
fn position_round_trip() {
    let p = Position { x: -5, y: 17, map: MapPosition { x: 1, y: -1, group: 3 } };
    let mut buf = PacketBuffer::new().unwrap();
    p.write_to(&mut buf).unwrap();
    assert_eq!(buf.length(), 20);
    buf.move_cursor_to_start();
    assert_eq!(Position::read_from(&mut buf), Ok(p));
}

#[test]
fn optional_entity_round_trip() {
    let mut buf = PacketBuffer::new().unwrap();
    write_opt_entity(&mut buf, Some(Entity(42))).unwrap();
    write_opt_entity(&mut buf, None).unwrap();
    let bytes = contents(&mut buf);
    assert_eq!(bytes, vec![1, 42, 0, 0, 0, 0, 0, 0, 0, 2]);
    buf.move_cursor_to_start();
    assert_eq!(read_opt_entity(&mut buf), Ok(Some(Entity(42))));
    assert_eq!(read_opt_entity(&mut buf), Ok(None));
}

#[test]
fn optional_entity_bad_flag_is_decode_error() {
    let mut buf = PacketBuffer::from_bytes(&[3]).unwrap();
    assert_eq!(read_opt_entity(&mut buf), Err(SocketError::DecodeError));
    assert_eq!(buf.cursor(), 0);
}

#[test]
fn channel_round_trip() {
    let mut buf = PacketBuffer::new().unwrap();
    MessageChannel::Whisper.write_to(&mut buf).unwrap();
    assert_eq!(contents(&mut buf), vec![6, 0]);
    buf.move_cursor_to_start();
    assert_eq!(MessageChannel::read_from(&mut buf), Ok(MessageChannel::Whisper));
    let mut bad = PacketBuffer::from_bytes(&[9, 0]).unwrap();
    assert_eq!(MessageChannel::read_from(&mut bad), Err(SocketError::DecodeError));
    assert_eq!(bad.cursor(), 0);
}

#[test]
fn command_round_trip() {
    let p = Position { x: 3, y: 4, map: MapPosition { x: 0, y: 0, group: 1 } };
    let commands = vec![
        Command::KickPlayer,
        Command::KickPlayerByName("bob".to_string()),
        Command::WarpTo(p),
        Command::SpawnNpc(-7, p),
        Command::Trade,
    ];
    let mut buf = PacketBuffer::new().unwrap();
    for c in &commands {
        c.write_to(&mut buf).unwrap();
    }
    buf.move_cursor_to_start();
    for c in &commands {
        assert_eq!(&Command::read_from(&mut buf).unwrap(), c);
    }
    assert_eq!(buf.cursor(), buf.length());
}

#[test]
fn command_unknown_tag_is_decode_error() {
    let mut buf = PacketBuffer::from_bytes(&[6, 0]).unwrap();
    assert_eq!(Command::read_from(&mut buf), Err(SocketError::DecodeError));
    assert_eq!(buf.cursor(), 0);
}
