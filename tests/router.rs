use game_client::codec::PacketBuffer;
use game_client::error::SocketError;
use game_client::packets::ServerPackets;
use game_client::router::{handle_data, read_packet_id, PacketHandler, PacketRouter};

type Handler = fn(&mut Ctx, &mut PacketBuffer) -> Result<(), SocketError>;

struct Ctx {
    seen: Vec<(ServerPackets, u8)>,
}

impl PacketHandler<Handler> for Ctx {
    fn handle(
        &mut self,
        handler: &Handler,
        _id: ServerPackets,
        data: &mut PacketBuffer,
    ) -> Result<(), SocketError> {
        handler(self, data)
    }
}

fn on_ping(ctx: &mut Ctx, data: &mut PacketBuffer) -> Result<(), SocketError> {
    let v = data.read_u8()?;
    ctx.seen.push((ServerPackets::Ping, v));
    Ok(())
}

fn on_alert(_ctx: &mut Ctx, _data: &mut PacketBuffer) -> Result<(), SocketError> {
    Err(SocketError::DecodeError)
}

fn router() -> PacketRouter<Handler> {
    let mut r: PacketRouter<Handler> = PacketRouter::new();
    r.add(ServerPackets::Ping, on_ping);
    r.add(ServerPackets::AlertMsg, on_alert);
    r
}

#[test]
fn known_packet_runs_its_handler() {
    let r = router();
    let mut ctx = Ctx { seen: Vec::new() };
    let ping_id = ServerPackets::Ping.id();
    let mut data = PacketBuffer::from_bytes(&[ping_id as u8, 0, 9]).unwrap();
    assert_eq!(handle_data(&r, &mut ctx, &mut data), Ok(()));
    assert_eq!(ctx.seen, vec![(ServerPackets::Ping, 9)]);
    assert_eq!(data.cursor(), 3);
}

#[test]
fn handler_error_is_returned_unchanged() {
    let r = router();
    let mut ctx = Ctx { seen: Vec::new() };
    let mut data = PacketBuffer::from_bytes(&[2, 0]).unwrap();
    assert_eq!(handle_data(&r, &mut ctx, &mut data), Err(SocketError::DecodeError));
}

#[test]
fn unregistered_packet_is_invalid_and_runs_nothing() {
    let r = router();
    let mut ctx = Ctx { seen: Vec::new() };
    let id = ServerPackets::LoginOk.id();
    let mut data = PacketBuffer::from_bytes(&[id as u8, 0, 9]).unwrap();
    assert_eq!(handle_data(&r, &mut ctx, &mut data), Err(SocketError::InvalidPacket));
    assert!(ctx.seen.is_empty());
}

#[test]
fn unknown_identifier_is_invalid_and_runs_nothing() {
    let r = router();
    let mut ctx = Ctx { seen: Vec::new() };
    let mut data = PacketBuffer::from_bytes(&[0xe7, 0x03, 9]).unwrap();
    assert_eq!(handle_data(&r, &mut ctx, &mut data), Err(SocketError::InvalidPacket));
    assert!(ctx.seen.is_empty());
    let mut short = PacketBuffer::from_bytes(&[1]).unwrap();
    assert_eq!(handle_data(&r, &mut ctx, &mut short), Err(SocketError::InvalidPacket));
    assert!(ctx.seen.is_empty());
}

#[test]
fn later_registration_replaces_earlier() {
    let mut r: PacketRouter<Handler> = PacketRouter::new();
    r.add(ServerPackets::Ping, on_alert);
    r.add(ServerPackets::Ping, on_ping);
    let mut ctx = Ctx { seen: Vec::new() };
    let mut data = PacketBuffer::from_bytes(&[ServerPackets::Ping.id() as u8, 0, 1]).unwrap();
    assert_eq!(handle_data(&r, &mut ctx, &mut data), Ok(()));
    assert_eq!(ctx.seen.len(), 1);
    assert!(r.get(ServerPackets::Damage).is_none());
}

#[test]
fn identifiers_count_from_one() {
    assert_eq!(ServerPackets::OnlineCheck.id(), 1);
    assert_eq!(ServerPackets::from_id(1), Some(ServerPackets::OnlineCheck));
    assert_eq!(ServerPackets::from_id(0), None);
    let mut data = PacketBuffer::from_bytes(&[0, 0]).unwrap();
    assert_eq!(read_packet_id(&mut data), Err(SocketError::InvalidPacket));
    assert_eq!(data.cursor(), 0);
}

#[test]
fn route_finds_the_handler_or_leaves_the_cursor() {
    let r = router();
    let mut data = PacketBuffer::from_bytes(&[ServerPackets::Ping.id() as u8, 0, 5]).unwrap();
    let (id, _) = game_client::router::route(&r, &mut data).unwrap();
    assert_eq!(id, ServerPackets::Ping);
    assert_eq!(data.cursor(), 2);
    let mut other = PacketBuffer::from_bytes(&[ServerPackets::Damage.id() as u8, 0]).unwrap();
    assert!(game_client::router::route(&r, &mut other).is_err());
    assert_eq!(other.cursor(), 0);
}
