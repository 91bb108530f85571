//! Values carried in packet payloads, with their wire encodings.

use vstd::prelude::*;
use vstd::utf8::encode_utf8;
use crate::codec::{
    dec_i32, dec_str, dec_u16, dec_u64, dec_u8, enc_i32, enc_str, enc_u16, enc_u64, enc_u8,
    lemma_codec_round_trip_fixed, lemma_codec_round_trip_str, pow256, PacketBuffer,
};
use crate::error::SocketError;

verus! {

/// A map coordinate: the map's grid position and its group.
#[derive(Clone, Copy, Debug, PartialEq, Eq, Structural)]
pub struct MapPosition {
    pub x: i32,
    pub y: i32,
    pub group: i32,
}

/// A tile position on a map.
#[derive(Clone, Copy, Debug, PartialEq, Eq, Structural)]
pub struct Position {
    pub x: i32,
    pub y: i32,
    pub map: MapPosition,
}

/// A world entity, identified by its bit pattern.
#[derive(Clone, Copy, Debug, PartialEq, Eq, Structural)]
pub struct Entity(pub u64);

/// The channel a chat message is sent on.
#[derive(Clone, Copy, Debug, PartialEq, Eq, Structural)]
pub enum MessageChannel {
    /// Players on the same map.
    Local,
    Global,
    Trade,
    Party,
    Guild,
    Whisper,
    Quest,
    Npc,
}

/// An administrative command sent to the server.
#[derive(Clone, Debug, PartialEq, Eq)]
pub enum Command {
    KickPlayer,
    KickPlayerByName(String),
    WarpTo(Position),
    SpawnNpc(i32, Position),
    Trade,
}

/// What a `Command` holds, with the name as a sequence of characters.
pub ghost enum CommandView {
    KickPlayer,
    KickPlayerByName(Seq<char>),
    WarpTo(Position),
    SpawnNpc(i32, Position),
    Trade,
}

impl View for Command {
    type V = CommandView;

    open spec fn view(&self) -> CommandView {
        match self {
            Command::KickPlayer => CommandView::KickPlayer,
            Command::KickPlayerByName(name) => CommandView::KickPlayerByName(name@),
            Command::WarpTo(p) => CommandView::WarpTo(*p),
            Command::SpawnNpc(n, p) => CommandView::SpawnNpc(*n, *p),
            Command::Trade => CommandView::Trade,
        }
    }
}

pub open spec fn enc_position(p: Position) -> Seq<u8> {
    enc_i32(p.x) + enc_i32(p.y) + enc_i32(p.map.x) + enc_i32(p.map.y) + enc_i32(p.map.group)
}

pub open spec fn enc_entity(e: Entity) -> Seq<u8> {
    enc_u64(e.0)
}

/// A presence byte (1 = present, 2 = absent), then the entity if present.
pub open spec fn enc_opt_entity(o: Option<Entity>) -> Seq<u8> {
    match o {
        Some(e) => enc_u8(1) + enc_entity(e),
        None => enc_u8(2),
    }
}

/// The ordinal of a channel, counting from 1.
pub open spec fn channel_id(c: MessageChannel) -> u16 {
    match c {
        MessageChannel::Local => 1,
        MessageChannel::Global => 2,
        MessageChannel::Trade => 3,
        MessageChannel::Party => 4,
        MessageChannel::Guild => 5,
        MessageChannel::Whisper => 6,
        MessageChannel::Quest => 7,
        MessageChannel::Npc => 8,
    }
}

pub open spec fn channel_of(id: u16) -> Option<MessageChannel> {
    if id == 1 {
        Some(MessageChannel::Local)
    } else if id == 2 {
        Some(MessageChannel::Global)
    } else if id == 3 {
        Some(MessageChannel::Trade)
    } else if id == 4 {
        Some(MessageChannel::Party)
    } else if id == 5 {
        Some(MessageChannel::Guild)
    } else if id == 6 {
        Some(MessageChannel::Whisper)
    } else if id == 7 {
        Some(MessageChannel::Quest)
    } else if id == 8 {
        Some(MessageChannel::Npc)
    } else {
        None
    }
}

pub open spec fn enc_channel(c: MessageChannel) -> Seq<u8> {
    enc_u16(channel_id(c))
}

/// A command: its ordinal as a `u16` counting from 1, then its fields.
pub open spec fn enc_command(c: CommandView) -> Seq<u8> {
    match c {
        CommandView::KickPlayer => enc_u16(1),
        CommandView::KickPlayerByName(name) => enc_u16(2) + enc_str(name),
        CommandView::WarpTo(p) => enc_u16(3) + enc_position(p),
        CommandView::SpawnNpc(n, p) => enc_u16(4) + enc_i32(n) + enc_position(p),
        CommandView::Trade => enc_u16(5),
    }
}

pub open spec fn dec_position(s: Seq<u8>) -> Option<Position> {
    if s.len() >= 20 {
        Some(
            Position {
                x: dec_i32(s).unwrap(),
                y: dec_i32(s.skip(4)).unwrap(),
                map: MapPosition {
                    x: dec_i32(s.skip(8)).unwrap(),
                    y: dec_i32(s.skip(12)).unwrap(),
                    group: dec_i32(s.skip(16)).unwrap(),
                },
            },
        )
    } else {
        None
    }
}

/// An optional entity and the number of bytes it takes.
pub open spec fn dec_opt_entity(s: Seq<u8>) -> Option<(Option<Entity>, nat)> {
    match dec_u8(s) {
        Some(1) => match dec_u64(s.skip(1)) {
            Some(v) => Some((Some(Entity(v)), 9)),
            None => None,
        },
        Some(2) => Some((None, 1)),
        _ => None,
    }
}

pub open spec fn dec_channel(s: Seq<u8>) -> Option<MessageChannel> {
    match dec_u16(s) {
        Some(id) => channel_of(id),
        None => None,
    }
}

/// A command and the number of bytes it takes.
pub open spec fn dec_command(s: Seq<u8>) -> Option<(CommandView, nat)> {
    match dec_u16(s) {
        Some(1) => Some((CommandView::KickPlayer, 2)),
        Some(2) => match dec_str(s.skip(2)) {
            Some((name, k)) => Some((CommandView::KickPlayerByName(name), 2 + k)),
            None => None,
        },
        Some(3) => match dec_position(s.skip(2)) {
            Some(p) => Some((CommandView::WarpTo(p), 22)),
            None => None,
        },
        Some(4) => match (dec_i32(s.skip(2)), dec_position(s.skip(6))) {
            (Some(n), Some(p)) => Some((CommandView::SpawnNpc(n, p), 26)),
            _ => None,
        },
        Some(5) => Some((CommandView::Trade, 2)),
        _ => None,
    }
}


proof fn lemma_i32_then(v: i32, rest: Seq<u8>)
    ensures
        dec_i32(enc_i32(v) + rest) == Some(v),
        enc_i32(v).len() == 4,
{
    lemma_codec_round_trip_fixed(0, 0, 0, 0, v, 0, false, rest);
}

/// The five `i32` fields of a position, in order, at the start of `s`.
proof fn lemma_position_fields(p: Position, rest: Seq<u8>)
    ensures
        dec_position(enc_position(p) + rest) == Some(p),
        enc_position(p).len() == 20,
{
    let r4 = enc_i32(p.map.group) + rest;
    let r3 = enc_i32(p.map.y) + r4;
    let r2 = enc_i32(p.map.x) + r3;
    let r1 = enc_i32(p.y) + r2;
    let s = enc_position(p) + rest;
    lemma_i32_then(p.map.group, rest);
    lemma_i32_then(p.map.y, r4);
    lemma_i32_then(p.map.x, r3);
    lemma_i32_then(p.y, r2);
    lemma_i32_then(p.x, r1);
    assert(s =~= enc_i32(p.x) + r1);
    assert(s.skip(4) =~= r1);
    assert(s.skip(8) =~= r2);
    assert(s.skip(12) =~= r3);
    assert(s.skip(16) =~= r4);
}

/// Writing a position, an optional entity or a channel and reading the same
/// type back from those bytes, whatever follows them, gives the value
/// written and consumes exactly its bytes.
pub proof fn lemma_codec_round_trip_values(
    p: Position,
    o: Option<Entity>,
    c: MessageChannel,
    rest: Seq<u8>,
)
    ensures
        dec_position(enc_position(p) + rest) == Some(p),
        enc_position(p).len() == 20,
        dec_opt_entity(enc_opt_entity(o) + rest) == Some((o, enc_opt_entity(o).len())),
        dec_channel(enc_channel(c) + rest) == Some(c),
        enc_channel(c).len() == 2,
{
    lemma_position_fields(p, rest);
    lemma_codec_round_trip_fixed(0, channel_id(c), 0, 0, 0, 0, false, rest);
    match o {
        Some(e) => {
            let s = enc_opt_entity(o) + rest;
            lemma_codec_round_trip_fixed(1, 0, 0, e.0, 0, 0, false, enc_entity(e) + rest);
            lemma_codec_round_trip_fixed(0, 0, 0, e.0, 0, 0, false, rest);
            assert(s =~= enc_u8(1) + (enc_entity(e) + rest));
            assert(s.skip(1) =~= enc_entity(e) + rest);
        },
        None => {
            lemma_codec_round_trip_fixed(2, 0, 0, 0, 0, 0, false, rest);
        },
    }
}

proof fn lemma_u16_then(v: u16, rest: Seq<u8>)
    ensures
        dec_u16(enc_u16(v) + rest) == Some(v),
        enc_u16(v).len() == 2,
{
    lemma_codec_round_trip_fixed(0, v, 0, 0, 0, 0, false, rest);
}

proof fn lemma_command_name(name: Seq<char>, rest: Seq<u8>)
    requires
        encode_utf8(name).len() < pow256(8),
    ensures
        dec_command(enc_command(CommandView::KickPlayerByName(name)) + rest) == Some(
            (
                CommandView::KickPlayerByName(name),
                enc_command(CommandView::KickPlayerByName(name)).len(),
            ),
        ),
{
    let s = enc_command(CommandView::KickPlayerByName(name)) + rest;
    lemma_u16_then(2, enc_str(name) + rest);
    assert(s =~= enc_u16(2) + (enc_str(name) + rest));
    assert(s.skip(2) =~= enc_str(name) + rest);
    lemma_codec_round_trip_str(name, rest);
}

proof fn lemma_command_warp(p: Position, rest: Seq<u8>)
    ensures
        dec_command(enc_command(CommandView::WarpTo(p)) + rest) == Some(
            (CommandView::WarpTo(p), enc_command(CommandView::WarpTo(p)).len()),
        ),
{
    let s = enc_command(CommandView::WarpTo(p)) + rest;
    lemma_u16_then(3, enc_position(p) + rest);
    lemma_position_fields(p, rest);
    assert(s =~= enc_u16(3) + (enc_position(p) + rest));
    assert(s.skip(2) =~= enc_position(p) + rest);
}

proof fn lemma_command_spawn(n: i32, p: Position, rest: Seq<u8>)
    ensures
        dec_command(enc_command(CommandView::SpawnNpc(n, p)) + rest) == Some(
            (CommandView::SpawnNpc(n, p), enc_command(CommandView::SpawnNpc(n, p)).len()),
        ),
{
    let s = enc_command(CommandView::SpawnNpc(n, p)) + rest;
    let r1 = enc_position(p) + rest;
    lemma_u16_then(4, enc_i32(n) + r1);
    lemma_i32_then(n, r1);
    lemma_position_fields(p, rest);
    assert(s =~= enc_u16(4) + (enc_i32(n) + r1));
    assert(s.skip(2) =~= enc_i32(n) + r1);
    assert(s.skip(6) =~= r1);
}

/// Writing a command and reading a command back from those bytes, whatever
/// follows them, gives the command written and consumes exactly its bytes.
pub proof fn lemma_codec_round_trip_command(c: CommandView, rest: Seq<u8>)
    requires
        c matches CommandView::KickPlayerByName(name) ==> encode_utf8(name).len() < pow256(8),
    ensures
        dec_command(enc_command(c) + rest) == Some((c, enc_command(c).len())),
{
    match c {
        CommandView::KickPlayer => lemma_u16_then(1, rest),
        CommandView::KickPlayerByName(name) => lemma_command_name(name, rest),
        CommandView::WarpTo(p) => lemma_command_warp(p, rest),
        CommandView::SpawnNpc(n, p) => lemma_command_spawn(n, p, rest),
        CommandView::Trade => lemma_u16_then(5, rest),
    }
}


impl Position {
    pub fn write_to(&self, buf: &mut PacketBuffer) -> (r: Result<(), SocketError>)
        requires
            old(buf).wf(),
            old(buf).at_end(),
        ensures
            final(buf).wf(),
            r is Ok ==> final(buf).bytes() == old(buf).bytes() + enc_position(*self) && final(buf).at_end(),
            r is Err ==> r->Err_0 == SocketError::BufferError,
    {
        let ghost b0 = buf.bytes();
        buf.write_i32(self.x)?;
        buf.write_i32(self.y)?;
        buf.write_i32(self.map.x)?;
        buf.write_i32(self.map.y)?;
        buf.write_i32(self.map.group)?;
        assert(buf.bytes() =~= b0 + enc_position(*self));
        Ok(())
    }

    pub fn read_from(buf: &mut PacketBuffer) -> (r: Result<Position, SocketError>)
        requires
            old(buf).wf(),
        ensures
            final(buf).wf(),
            final(buf).bytes() == old(buf).bytes(),
            dec_position(old(buf).unread()) matches Some(p) ==> r == Ok::<Position, SocketError>(p)
                && final(buf).pos() == old(buf).pos() + 20,
            dec_position(old(buf).unread()) is None ==> r == Err::<Position, SocketError>(SocketError::DecodeError)
                && final(buf).pos() == old(buf).pos(),
    {
        let ghost u = buf.unread();
        let ghost b = buf.bytes();
        let ghost p0 = buf.pos();
        proof {
            buf.lemma_wf();
        }
        if buf.length() - buf.cursor() < 20 {
            return Err(SocketError::DecodeError);
        }
        let x = buf.read_i32()?;
        assert(buf.unread() =~= u.skip(4));
        let y = buf.read_i32()?;
        assert(buf.unread() =~= u.skip(8));
        let mx = buf.read_i32()?;
        assert(buf.unread() =~= u.skip(12));
        let my = buf.read_i32()?;
        assert(buf.unread() =~= u.skip(16));
        let group = buf.read_i32()?;
        Ok(Position { x, y, map: MapPosition { x: mx, y: my, group } })
    }
}

impl Entity {
    pub fn write_to(&self, buf: &mut PacketBuffer) -> (r: Result<(), SocketError>)
        requires
            old(buf).wf(),
            old(buf).at_end(),
        ensures
            final(buf).wf(),
            r is Ok ==> final(buf).bytes() == old(buf).bytes() + enc_entity(*self) && final(buf).at_end(),
            r is Err ==> r->Err_0 == SocketError::BufferError,
    {
        buf.write_u64(self.0)
    }
}

/// Writes a presence byte (1 = present, 2 = absent), then the entity if
/// present.
pub fn write_opt_entity(buf: &mut PacketBuffer, o: Option<Entity>) -> (r: Result<(), SocketError>)
        requires
            old(buf).wf(),
            old(buf).at_end(),
        ensures
            final(buf).wf(),
            r is Ok ==> final(buf).bytes() == old(buf).bytes() + enc_opt_entity(o) && final(buf).at_end(),
            r is Err ==> r->Err_0 == SocketError::BufferError,
{
    match o {
        Some(e) => {
            let ghost b0 = buf.bytes();
            buf.write_u8(1)?;
            e.write_to(buf)?;
            assert(buf.bytes() =~= b0 + enc_opt_entity(o));
            Ok(())
        },
        None => buf.write_u8(2),
    }
}

/// Reads an optional entity written by `write_opt_entity`.
pub fn read_opt_entity(buf: &mut PacketBuffer) -> (r: Result<Option<Entity>, SocketError>)
        requires
            old(buf).wf(),
        ensures
            final(buf).wf(),
            final(buf).bytes() == old(buf).bytes(),
            dec_opt_entity(old(buf).unread()) matches Some((o, k)) ==> r == Ok::<Option<Entity>, SocketError>(o)
                && final(buf).pos() == old(buf).pos() + k,
            dec_opt_entity(old(buf).unread()) is None ==> r == Err::<Option<Entity>, SocketError>(SocketError::DecodeError)
                && final(buf).pos() == old(buf).pos(),
{
    let ghost u = buf.unread();
    proof {
        buf.lemma_wf();
    }
    if buf.length() - buf.cursor() < 1 {
        return Err(SocketError::DecodeError);
    }
    let flag = buf.read_u8()?;
    assert(buf.unread() =~= u.skip(1));
    if flag == 1 {
        match buf.read_u64() {
            Ok(v) => Ok(Some(Entity(v))),
            Err(e) => {
                let _ = buf.move_cursor(buf.cursor() - 1);
                Err(e)
            },
        }
    } else if flag == 2 {
        Ok(None)
    } else {
        let _ = buf.move_cursor(buf.cursor() - 1);
        Err(SocketError::DecodeError)
    }
}

impl MessageChannel {
    /// The channel's ordinal, counting from 1.
    pub fn id(&self) -> (r: u16)
        ensures
            r == channel_id(*self),
    {
        match self {
            MessageChannel::Local => 1,
            MessageChannel::Global => 2,
            MessageChannel::Trade => 3,
            MessageChannel::Party => 4,
            MessageChannel::Guild => 5,
            MessageChannel::Whisper => 6,
            MessageChannel::Quest => 7,
            MessageChannel::Npc => 8,
        }
    }

    /// The channel with ordinal `id`, if there is one.
    pub fn from_id(id: u16) -> (r: Option<MessageChannel>)
        ensures
            r == channel_of(id),
    {
        match id {
            1 => Some(MessageChannel::Local),
            2 => Some(MessageChannel::Global),
            3 => Some(MessageChannel::Trade),
            4 => Some(MessageChannel::Party),
            5 => Some(MessageChannel::Guild),
            6 => Some(MessageChannel::Whisper),
            7 => Some(MessageChannel::Quest),
            8 => Some(MessageChannel::Npc),
            _ => None,
        }
    }

    pub fn write_to(&self, buf: &mut PacketBuffer) -> (r: Result<(), SocketError>)
        requires
            old(buf).wf(),
            old(buf).at_end(),
        ensures
            final(buf).wf(),
            r is Ok ==> final(buf).bytes() == old(buf).bytes() + enc_channel(*self) && final(buf).at_end(),
            r is Err ==> r->Err_0 == SocketError::BufferError,
    {
        buf.write_u16(self.id())
    }

    pub fn read_from(buf: &mut PacketBuffer) -> (r: Result<MessageChannel, SocketError>)
        requires
            old(buf).wf(),
        ensures
            final(buf).wf(),
            final(buf).bytes() == old(buf).bytes(),
            dec_channel(old(buf).unread()) matches Some(c) ==> r == Ok::<MessageChannel, SocketError>(c)
                && final(buf).pos() == old(buf).pos() + 2,
            dec_channel(old(buf).unread()) is None ==> r == Err::<MessageChannel, SocketError>(SocketError::DecodeError)
                && final(buf).pos() == old(buf).pos(),
    {
        proof {
            buf.lemma_wf();
        }
        let id = buf.read_u16()?;
        match MessageChannel::from_id(id) {
            Some(c) => Ok(c),
            None => {
                let _ = buf.move_cursor(buf.cursor() - 2);
                Err(SocketError::DecodeError)
            },
        }
    }
}

impl Command {
    pub fn write_to(&self, buf: &mut PacketBuffer) -> (r: Result<(), SocketError>)
        requires
            old(buf).wf(),
            old(buf).at_end(),
        ensures
            final(buf).wf(),
            r is Ok ==> final(buf).bytes() == old(buf).bytes() + enc_command(self@) && final(buf).at_end(),
            r is Err ==> r->Err_0 == SocketError::BufferError,
    {
        let ghost b0 = buf.bytes();
        match self {
            Command::KickPlayer => buf.write_u16(1),
            Command::KickPlayerByName(name) => {
                buf.write_u16(2)?;
                buf.write_str(name.as_str())?;
                assert(buf.bytes() =~= b0 + enc_command(self@));
                Ok(())
            },
            Command::WarpTo(p) => {
                buf.write_u16(3)?;
                p.write_to(buf)?;
                assert(buf.bytes() =~= b0 + enc_command(self@));
                Ok(())
            },
            Command::SpawnNpc(n, p) => {
                buf.write_u16(4)?;
                buf.write_i32(*n)?;
                p.write_to(buf)?;
                assert(buf.bytes() =~= b0 + enc_command(self@));
                Ok(())
            },
            Command::Trade => buf.write_u16(5),
        }
    }

    /// Reads a command; on failure the cursor is left where it was.
    pub fn read_from(buf: &mut PacketBuffer) -> (r: Result<Command, SocketError>)
        requires
            old(buf).wf(),
        ensures
            final(buf).wf(),
            final(buf).bytes() == old(buf).bytes(),
            dec_command(old(buf).unread()) matches Some((c, k)) ==> r is Ok && r->Ok_0@ == c
                && final(buf).pos() == old(buf).pos() + k,
            dec_command(old(buf).unread()) is None ==> r == Err::<Command, SocketError>(SocketError::DecodeError)
                && final(buf).pos() == old(buf).pos(),
    {
        let start = buf.cursor();
        let ghost u = buf.unread();
        proof {
            buf.lemma_wf();
        }
        let id = buf.read_u16()?;
        assert(buf.unread() =~= u.skip(2));
        let r = if id == 1 {
            Ok(Command::KickPlayer)
        } else if id == 2 {
            match buf.read_string() {
                Ok(name) => Ok(Command::KickPlayerByName(name)),
                Err(e) => Err(e),
            }
        } else if id == 3 {
            match Position::read_from(buf) {
                Ok(p) => Ok(Command::WarpTo(p)),
                Err(e) => Err(e),
            }
        } else if id == 4 {
            match buf.read_i32() {
                Ok(n) => {
                    assert(buf.unread() =~= u.skip(6));
                    match Position::read_from(buf) {
                        Ok(p) => Ok(Command::SpawnNpc(n, p)),
                        Err(e) => Err(e),
                    }
                },
                Err(e) => Err(e),
            }
        } else if id == 5 {
            Ok(Command::Trade)
        } else {
            Err(SocketError::DecodeError)
        };
        if r.is_err() {
            let _ = buf.move_cursor(start);
        }
        r
    }
}

} // verus!
