//! Outgoing packets: each function builds one framed packet and queues it
//! on the socket.

use vstd::prelude::*;
use crate::codec::{
    enc_str, enc_u16, enc_u64, enc_u8, lemma_codec_round_trip_fixed, PacketBuffer,
};
use crate::error::SocketError;
use crate::packets::{client_packet_id, ClientPacket};
use crate::socket::{EncryptionState, Socket};
use crate::types::{
    enc_channel, enc_command, enc_opt_entity, enc_position, write_opt_entity, Command, Entity,
    MessageChannel, Position,
};

verus! {

/// A packet on the wire: its payload length as a `u64`, then the payload.
pub open spec fn frame(payload: Seq<u8>) -> Seq<u8> {
    enc_u64(payload.len() as u64) + payload
}

/// The payload of a client packet: its identifier, then its fields.
pub open spec fn payload(id: ClientPacket, fields: Seq<u8>) -> Seq<u8> {
    enc_u16(client_packet_id(id)) + fields
}

/// `new` is `old` after an attempt, answered with `r`, to send `payload` on
/// the secure path (`secure`) or the plaintext one. The encryption state and
/// the connection flag are kept. On success the framed packet is queued
/// last; otherwise nothing is queued, and the failure is a closed connection
/// or a buffer that could not grow. A closed connection always fails.
pub open spec fn packet_sent(
    old: Socket,
    new: Socket,
    secure: bool,
    payload: Seq<u8>,
    r: Result<(), SocketError>,
) -> bool {
    &&& new.encrypt_state == old.encrypt_state
    &&& new.connected == old.connected
    &&& r is Ok ==> new.sent() == old.sent().push((secure, frame(payload)))
    &&& r is Err ==> new.sent() == old.sent()
    &&& !old.connected ==> r is Err
    &&& r is Err ==> r->Err_0 == SocketError::BufferError || (r->Err_0
        == SocketError::TransportError && !old.connected)
}

/// Whether packets must take the secure path in this state.
pub open spec fn secure_path(state: EncryptionState) -> bool {
    state != EncryptionState::Plain
}

proof fn lemma_header(payload: Seq<u8>)
    ensures
        (enc_u64(0) + payload).skip(8) == payload,
        (enc_u64(0) + payload).len() == 8 + payload.len(),
{
    lemma_codec_round_trip_fixed(0, 0, 0, 0, 0, 0, false, payload);
    assert((enc_u64(0) + payload).skip(8) =~= payload);
}

/// Asks the server to create an account.
pub fn send_register(
    socket: &mut Socket,
    username: String,
    password: String,
    email: String,
    sprite: u8,
    app_version: (u16, u16, u16),
) -> (r: Result<(), SocketError>)
    ensures
        packet_sent(
            *old(socket),
            *final(socket),
            true,
            payload(
                ClientPacket::Register,
                enc_str(username@)
                    + enc_str(password@)
                    + enc_str(email@)
                    + enc_u8(sprite)
                    + enc_u16(app_version.0)
                    + enc_u16(app_version.1)
                    + enc_u16(app_version.2),
            ),
            r,
        ),
{
    let mut buf = PacketBuffer::new_packet()?;
    let ghost b0 = buf.bytes();
    ClientPacket::Register.write_to(&mut buf)?;
    buf.write_str(username.as_str())?;
    buf.write_str(password.as_str())?;
    buf.write_str(email.as_str())?;
    buf.write_u8(sprite)?;
    buf.write_u16(app_version.0)?;
    buf.write_u16(app_version.1)?;
    buf.write_u16(app_version.2)?;
    let ghost p = payload(
        ClientPacket::Register,
        enc_str(username@)
            + enc_str(password@)
            + enc_str(email@)
            + enc_u8(sprite)
            + enc_u16(app_version.0)
            + enc_u16(app_version.1)
            + enc_u16(app_version.2),
    );
    assert(buf.bytes() =~= b0 + p);
    proof {
        lemma_header(p);
    }
    buf.finish()?;
    socket.tls_send(buf)
}

/// Logs in, or reconnects with a code.
pub fn send_login(
    socket: &mut Socket,
    username: String,
    password: String,
    app_version: (u16, u16, u16),
    reconnect_code: &str,
) -> (r: Result<(), SocketError>)
    ensures
        packet_sent(
            *old(socket),
            *final(socket),
            true,
            payload(
                ClientPacket::Login,
                enc_str(username@)
                    + enc_str(password@)
                    + enc_u16(app_version.0)
                    + enc_u16(app_version.1)
                    + enc_u16(app_version.2)
                    + enc_str(reconnect_code@),
            ),
            r,
        ),
{
    let mut buf = PacketBuffer::new_packet()?;
    let ghost b0 = buf.bytes();
    ClientPacket::Login.write_to(&mut buf)?;
    buf.write_str(username.as_str())?;
    buf.write_str(password.as_str())?;
    buf.write_u16(app_version.0)?;
    buf.write_u16(app_version.1)?;
    buf.write_u16(app_version.2)?;
    buf.write_str(reconnect_code)?;
    let ghost p = payload(
        ClientPacket::Login,
        enc_str(username@)
            + enc_str(password@)
            + enc_u16(app_version.0)
            + enc_u16(app_version.1)
            + enc_u16(app_version.2)
            + enc_str(reconnect_code@),
    );
    assert(buf.bytes() =~= b0 + p);
    proof {
        lemma_header(p);
    }
    buf.finish()?;
    socket.tls_send(buf)
}

/// Answers the server's handshake.
pub fn send_handshake(socket: &mut Socket, handshake: String) -> (r: Result<(), SocketError>)
    ensures
        packet_sent(
            *old(socket),
            *final(socket),
            false,
            payload(ClientPacket::HandShake, enc_str(handshake@)),
            r,
        ),
{
    let mut buf = PacketBuffer::new_packet()?;
    let ghost b0 = buf.bytes();
    ClientPacket::HandShake.write_to(&mut buf)?;
    buf.write_str(handshake.as_str())?;
    let ghost p = payload(ClientPacket::HandShake, enc_str(handshake@));
    assert(buf.bytes() =~= b0 + p);
    proof {
        lemma_header(p);
    }
    buf.finish()?;
    socket.send(buf)
}

/// Moves the player one step.
pub fn send_move(socket: &mut Socket, dir: u8, pos: Position) -> (r: Result<(), SocketError>)
    ensures
        packet_sent(
            *old(socket),
            *final(socket),
            false,
            payload(ClientPacket::Move, enc_u8(dir) + enc_position(pos)),
            r,
        ),
{
    let mut buf = PacketBuffer::new_packet()?;
    let ghost b0 = buf.bytes();
    ClientPacket::Move.write_to(&mut buf)?;
    buf.write_u8(dir)?;
    pos.write_to(&mut buf)?;
    let ghost p = payload(ClientPacket::Move, enc_u8(dir) + enc_position(pos));
    assert(buf.bytes() =~= b0 + p);
    proof {
        lemma_header(p);
    }
    buf.finish()?;
    socket.send(buf)
}

/// Turns the player.
pub fn send_dir(socket: &mut Socket, dir: u8) -> (r: Result<(), SocketError>)
    ensures
        packet_sent(
            *old(socket),
            *final(socket),
            false,
            payload(ClientPacket::Dir, enc_u8(dir)),
            r,
        ),
{
    let mut buf = PacketBuffer::new_packet()?;
    let ghost b0 = buf.bytes();
    ClientPacket::Dir.write_to(&mut buf)?;
    buf.write_u8(dir)?;
    let ghost p = payload(ClientPacket::Dir, enc_u8(dir));
    assert(buf.bytes() =~= b0 + p);
    proof {
        lemma_header(p);
    }
    buf.finish()?;
    socket.send(buf)
}

/// Attacks, optionally a given target.
pub fn send_attack(
    socket: &mut Socket,
    dir: u8,
    entity: Option<Entity>,
) -> (r: Result<(), SocketError>)
    ensures
        packet_sent(
            *old(socket),
            *final(socket),
            false,
            payload(ClientPacket::Attack, enc_u8(dir) + enc_opt_entity(entity)),
            r,
        ),
{
    let mut buf = PacketBuffer::new_packet()?;
    let ghost b0 = buf.bytes();
    ClientPacket::Attack.write_to(&mut buf)?;
    buf.write_u8(dir)?;
    write_opt_entity(&mut buf, entity)?;
    let ghost p = payload(ClientPacket::Attack, enc_u8(dir) + enc_opt_entity(entity));
    assert(buf.bytes() =~= b0 + p);
    proof {
        lemma_header(p);
    }
    buf.finish()?;
    socket.send(buf)
}

/// Uses an inventory item.
pub fn send_useitem(socket: &mut Socket, slot: u16) -> (r: Result<(), SocketError>)
    ensures
        packet_sent(
            *old(socket),
            *final(socket),
            false,
            payload(ClientPacket::UseItem, enc_u16(slot)),
            r,
        ),
{
    let mut buf = PacketBuffer::new_packet()?;
    let ghost b0 = buf.bytes();
    ClientPacket::UseItem.write_to(&mut buf)?;
    buf.write_u16(slot)?;
    let ghost p = payload(ClientPacket::UseItem, enc_u16(slot));
    assert(buf.bytes() =~= b0 + p);
    proof {
        lemma_header(p);
    }
    buf.finish()?;
    socket.send(buf)
}

/// Takes off an equipped item.
pub fn send_unequip(socket: &mut Socket, slot: u16) -> (r: Result<(), SocketError>)
    ensures
        packet_sent(
            *old(socket),
            *final(socket),
            false,
            payload(ClientPacket::Unequip, enc_u16(slot)),
            r,
        ),
{
    let mut buf = PacketBuffer::new_packet()?;
    let ghost b0 = buf.bytes();
    ClientPacket::Unequip.write_to(&mut buf)?;
    buf.write_u16(slot)?;
    let ghost p = payload(ClientPacket::Unequip, enc_u16(slot));
    assert(buf.bytes() =~= b0 + p);
    proof {
        lemma_header(p);
    }
    buf.finish()?;
    socket.send(buf)
}

/// Moves items between inventory slots.
pub fn send_switchinvslot(
    socket: &mut Socket,
    oldslot: u16,
    newslot: u16,
    amount: u16,
) -> (r: Result<(), SocketError>)
    ensures
        packet_sent(
            *old(socket),
            *final(socket),
            false,
            payload(
                ClientPacket::SwitchInvSlot,
                enc_u16(oldslot)
                    + enc_u16(newslot)
                    + enc_u16(amount),
            ),
            r,
        ),
{
    let mut buf = PacketBuffer::new_packet()?;
    let ghost b0 = buf.bytes();
    ClientPacket::SwitchInvSlot.write_to(&mut buf)?;
    buf.write_u16(oldslot)?;
    buf.write_u16(newslot)?;
    buf.write_u16(amount)?;
    let ghost p = payload(
        ClientPacket::SwitchInvSlot,
        enc_u16(oldslot)
            + enc_u16(newslot)
            + enc_u16(amount),
    );
    assert(buf.bytes() =~= b0 + p);
    proof {
        lemma_header(p);
    }
    buf.finish()?;
    socket.send(buf)
}

/// Picks up what lies under the player.
pub fn send_pickup(socket: &mut Socket) -> (r: Result<(), SocketError>)
    ensures
        packet_sent(
            *old(socket),
            *final(socket),
            false,
            payload(ClientPacket::PickUp, Seq::<u8>::empty()),
            r,
        ),
{
    let mut buf = PacketBuffer::new_packet()?;
    let ghost b0 = buf.bytes();
    ClientPacket::PickUp.write_to(&mut buf)?;
    let ghost p = payload(ClientPacket::PickUp, Seq::<u8>::empty());
    assert(buf.bytes() =~= b0 + p);
    proof {
        lemma_header(p);
    }
    buf.finish()?;
    socket.send(buf)
}

/// Drops items from an inventory slot.
pub fn send_dropitem(socket: &mut Socket, slot: u16, amount: u16) -> (r: Result<(), SocketError>)
    ensures
        packet_sent(
            *old(socket),
            *final(socket),
            false,
            payload(ClientPacket::DropItem, enc_u16(slot) + enc_u16(amount)),
            r,
        ),
{
    let mut buf = PacketBuffer::new_packet()?;
    let ghost b0 = buf.bytes();
    ClientPacket::DropItem.write_to(&mut buf)?;
    buf.write_u16(slot)?;
    buf.write_u16(amount)?;
    let ghost p = payload(ClientPacket::DropItem, enc_u16(slot) + enc_u16(amount));
    assert(buf.bytes() =~= b0 + p);
    proof {
        lemma_header(p);
    }
    buf.finish()?;
    socket.send(buf)
}

/// Destroys an inventory item.
pub fn send_deleteitem(socket: &mut Socket, slot: u16) -> (r: Result<(), SocketError>)
    ensures
        packet_sent(
            *old(socket),
            *final(socket),
            false,
            payload(ClientPacket::DeleteItem, enc_u16(slot)),
            r,
        ),
{
    let mut buf = PacketBuffer::new_packet()?;
    let ghost b0 = buf.bytes();
    ClientPacket::DeleteItem.write_to(&mut buf)?;
    buf.write_u16(slot)?;
    let ghost p = payload(ClientPacket::DeleteItem, enc_u16(slot));
    assert(buf.bytes() =~= b0 + p);
    proof {
        lemma_header(p);
    }
    buf.finish()?;
    socket.send(buf)
}

/// Moves items between storage slots.
pub fn send_switchstorageslot(
    socket: &mut Socket,
    oldslot: u16,
    newslot: u16,
    amount: u16,
) -> (r: Result<(), SocketError>)
    ensures
        packet_sent(
            *old(socket),
            *final(socket),
            false,
            payload(
                ClientPacket::SwitchStorageSlot,
                enc_u16(oldslot)
                    + enc_u16(newslot)
                    + enc_u16(amount),
            ),
            r,
        ),
{
    let mut buf = PacketBuffer::new_packet()?;
    let ghost b0 = buf.bytes();
    ClientPacket::SwitchStorageSlot.write_to(&mut buf)?;
    buf.write_u16(oldslot)?;
    buf.write_u16(newslot)?;
    buf.write_u16(amount)?;
    let ghost p = payload(
        ClientPacket::SwitchStorageSlot,
        enc_u16(oldslot)
            + enc_u16(newslot)
            + enc_u16(amount),
    );
    assert(buf.bytes() =~= b0 + p);
    proof {
        lemma_header(p);
    }
    buf.finish()?;
    socket.send(buf)
}

/// Destroys a storage item.
pub fn send_deletestorageitem(socket: &mut Socket, slot: u16) -> (r: Result<(), SocketError>)
    ensures
        packet_sent(
            *old(socket),
            *final(socket),
            false,
            payload(ClientPacket::DeleteStorageItem, enc_u16(slot)),
            r,
        ),
{
    let mut buf = PacketBuffer::new_packet()?;
    let ghost b0 = buf.bytes();
    ClientPacket::DeleteStorageItem.write_to(&mut buf)?;
    buf.write_u16(slot)?;
    let ghost p = payload(ClientPacket::DeleteStorageItem, enc_u16(slot));
    assert(buf.bytes() =~= b0 + p);
    proof {
        lemma_header(p);
    }
    buf.finish()?;
    socket.send(buf)
}

/// Moves items from the inventory into storage.
pub fn send_deposititem(
    socket: &mut Socket,
    inv_slot: u16,
    bank_slot: u16,
    amount: u16,
) -> (r: Result<(), SocketError>)
    ensures
        packet_sent(
            *old(socket),
            *final(socket),
            false,
            payload(
                ClientPacket::DepositItem,
                enc_u16(inv_slot)
                    + enc_u16(bank_slot)
                    + enc_u16(amount),
            ),
            r,
        ),
{
    let mut buf = PacketBuffer::new_packet()?;
    let ghost b0 = buf.bytes();
    ClientPacket::DepositItem.write_to(&mut buf)?;
    buf.write_u16(inv_slot)?;
    buf.write_u16(bank_slot)?;
    buf.write_u16(amount)?;
    let ghost p = payload(
        ClientPacket::DepositItem,
        enc_u16(inv_slot)
            + enc_u16(bank_slot)
            + enc_u16(amount),
    );
    assert(buf.bytes() =~= b0 + p);
    proof {
        lemma_header(p);
    }
    buf.finish()?;
    socket.send(buf)
}

/// Moves items from storage into the inventory.
pub fn send_withdrawitem(
    socket: &mut Socket,
    inv_slot: u16,
    bank_slot: u16,
    amount: u16,
) -> (r: Result<(), SocketError>)
    ensures
        packet_sent(
            *old(socket),
            *final(socket),
            false,
            payload(
                ClientPacket::WithdrawItem,
                enc_u16(inv_slot)
                    + enc_u16(bank_slot)
                    + enc_u16(amount),
            ),
            r,
        ),
{
    let mut buf = PacketBuffer::new_packet()?;
    let ghost b0 = buf.bytes();
    ClientPacket::WithdrawItem.write_to(&mut buf)?;
    buf.write_u16(inv_slot)?;
    buf.write_u16(bank_slot)?;
    buf.write_u16(amount)?;
    let ghost p = payload(
        ClientPacket::WithdrawItem,
        enc_u16(inv_slot)
            + enc_u16(bank_slot)
            + enc_u16(amount),
    );
    assert(buf.bytes() =~= b0 + p);
    proof {
        lemma_header(p);
    }
    buf.finish()?;
    socket.send(buf)
}

/// Sends a chat message on a channel, with a recipient name for whispers.
pub fn send_message(
    socket: &mut Socket,
    channel: MessageChannel,
    msg: String,
    name: String,
) -> (r: Result<(), SocketError>)
    ensures
        packet_sent(
            *old(socket),
            *final(socket),
            false,
            payload(ClientPacket::Message, enc_channel(channel) + enc_str(msg@) + enc_str(name@)),
            r,
        ),
{
    let mut buf = PacketBuffer::new_packet()?;
    let ghost b0 = buf.bytes();
    ClientPacket::Message.write_to(&mut buf)?;
    channel.write_to(&mut buf)?;
    buf.write_str(msg.as_str())?;
    buf.write_str(name.as_str())?;
    let ghost p = payload(
        ClientPacket::Message,
        enc_channel(channel)
            + enc_str(msg@)
            + enc_str(name@),
    );
    assert(buf.bytes() =~= b0 + p);
    proof {
        lemma_header(p);
    }
    buf.finish()?;
    socket.send(buf)
}

/// Sends an administrative command.
pub fn send_command(socket: &mut Socket, command: Command) -> (r: Result<(), SocketError>)
    ensures
        packet_sent(
            *old(socket),
            *final(socket),
            false,
            payload(ClientPacket::Command, enc_command(command@)),
            r,
        ),
{
    let mut buf = PacketBuffer::new_packet()?;
    let ghost b0 = buf.bytes();
    ClientPacket::Command.write_to(&mut buf)?;
    command.write_to(&mut buf)?;
    let ghost p = payload(ClientPacket::Command, enc_command(command@));
    assert(buf.bytes() =~= b0 + p);
    proof {
        lemma_header(p);
    }
    buf.finish()?;
    socket.send(buf)
}

/// Sets or clears the player's target.
pub fn send_settarget(socket: &mut Socket, entity: Option<Entity>) -> (r: Result<(), SocketError>)
    ensures
        packet_sent(
            *old(socket),
            *final(socket),
            false,
            payload(ClientPacket::SetTarget, enc_opt_entity(entity)),
            r,
        ),
{
    let mut buf = PacketBuffer::new_packet()?;
    let ghost b0 = buf.bytes();
    ClientPacket::SetTarget.write_to(&mut buf)?;
    write_opt_entity(&mut buf, entity)?;
    let ghost p = payload(ClientPacket::SetTarget, enc_opt_entity(entity));
    assert(buf.bytes() =~= b0 + p);
    proof {
        lemma_header(p);
    }
    buf.finish()?;
    socket.send(buf)
}

/// Closes the storage window.
pub fn send_closestorage(socket: &mut Socket) -> (r: Result<(), SocketError>)
    ensures
        packet_sent(
            *old(socket),
            *final(socket),
            false,
            payload(ClientPacket::CloseStorage, Seq::<u8>::empty()),
            r,
        ),
{
    let mut buf = PacketBuffer::new_packet()?;
    let ghost b0 = buf.bytes();
    ClientPacket::CloseStorage.write_to(&mut buf)?;
    let ghost p = payload(ClientPacket::CloseStorage, Seq::<u8>::empty());
    assert(buf.bytes() =~= b0 + p);
    proof {
        lemma_header(p);
    }
    buf.finish()?;
    socket.send(buf)
}

/// Closes the shop window.
pub fn send_closeshop(socket: &mut Socket) -> (r: Result<(), SocketError>)
    ensures
        packet_sent(
            *old(socket),
            *final(socket),
            false,
            payload(ClientPacket::CloseShop, Seq::<u8>::empty()),
            r,
        ),
{
    let mut buf = PacketBuffer::new_packet()?;
    let ghost b0 = buf.bytes();
    ClientPacket::CloseShop.write_to(&mut buf)?;
    let ghost p = payload(ClientPacket::CloseShop, Seq::<u8>::empty());
    assert(buf.bytes() =~= b0 + p);
    proof {
        lemma_header(p);
    }
    buf.finish()?;
    socket.send(buf)
}

/// Closes the trade window.
pub fn send_closetrade(socket: &mut Socket) -> (r: Result<(), SocketError>)
    ensures
        packet_sent(
            *old(socket),
            *final(socket),
            false,
            payload(ClientPacket::CloseTrade, Seq::<u8>::empty()),
            r,
        ),
{
    let mut buf = PacketBuffer::new_packet()?;
    let ghost b0 = buf.bytes();
    ClientPacket::CloseTrade.write_to(&mut buf)?;
    let ghost p = payload(ClientPacket::CloseTrade, Seq::<u8>::empty());
    assert(buf.bytes() =~= b0 + p);
    proof {
        lemma_header(p);
    }
    buf.finish()?;
    socket.send(buf)
}

/// Buys a shop item.
pub fn send_buyitem(socket: &mut Socket, slot: u16) -> (r: Result<(), SocketError>)
    ensures
        packet_sent(
            *old(socket),
            *final(socket),
            false,
            payload(ClientPacket::BuyItem, enc_u16(slot)),
            r,
        ),
{
    let mut buf = PacketBuffer::new_packet()?;
    let ghost b0 = buf.bytes();
    ClientPacket::BuyItem.write_to(&mut buf)?;
    buf.write_u16(slot)?;
    let ghost p = payload(ClientPacket::BuyItem, enc_u16(slot));
    assert(buf.bytes() =~= b0 + p);
    proof {
        lemma_header(p);
    }
    buf.finish()?;
    socket.send(buf)
}

/// Sells items from an inventory slot.
pub fn send_sellitem(socket: &mut Socket, slot: u16, amount: u16) -> (r: Result<(), SocketError>)
    ensures
        packet_sent(
            *old(socket),
            *final(socket),
            false,
            payload(ClientPacket::SellItem, enc_u16(slot) + enc_u16(amount)),
            r,
        ),
{
    let mut buf = PacketBuffer::new_packet()?;
    let ghost b0 = buf.bytes();
    ClientPacket::SellItem.write_to(&mut buf)?;
    buf.write_u16(slot)?;
    buf.write_u16(amount)?;
    let ghost p = payload(ClientPacket::SellItem, enc_u16(slot) + enc_u16(amount));
    assert(buf.bytes() =~= b0 + p);
    proof {
        lemma_header(p);
    }
    buf.finish()?;
    socket.send(buf)
}

/// Offers items in a trade.
pub fn send_addtradeitem(
    socket: &mut Socket,
    slot: u16,
    amount: u16,
) -> (r: Result<(), SocketError>)
    ensures
        packet_sent(
            *old(socket),
            *final(socket),
            false,
            payload(ClientPacket::AddTradeItem, enc_u16(slot) + enc_u16(amount)),
            r,
        ),
{
    let mut buf = PacketBuffer::new_packet()?;
    let ghost b0 = buf.bytes();
    ClientPacket::AddTradeItem.write_to(&mut buf)?;
    buf.write_u16(slot)?;
    buf.write_u16(amount)?;
    let ghost p = payload(ClientPacket::AddTradeItem, enc_u16(slot) + enc_u16(amount));
    assert(buf.bytes() =~= b0 + p);
    proof {
        lemma_header(p);
    }
    buf.finish()?;
    socket.send(buf)
}

/// Withdraws offered items from a trade.
pub fn send_removetradeitem(
    socket: &mut Socket,
    slot: u16,
    amount: u64,
) -> (r: Result<(), SocketError>)
    ensures
        packet_sent(
            *old(socket),
            *final(socket),
            false,
            payload(ClientPacket::RemoveTradeItem, enc_u16(slot) + enc_u64(amount)),
            r,
        ),
{
    let mut buf = PacketBuffer::new_packet()?;
    let ghost b0 = buf.bytes();
    ClientPacket::RemoveTradeItem.write_to(&mut buf)?;
    buf.write_u16(slot)?;
    buf.write_u64(amount)?;
    let ghost p = payload(ClientPacket::RemoveTradeItem, enc_u16(slot) + enc_u64(amount));
    assert(buf.bytes() =~= b0 + p);
    proof {
        lemma_header(p);
    }
    buf.finish()?;
    socket.send(buf)
}

/// Sets the money offered in a trade.
pub fn send_updatetrademoney(socket: &mut Socket, amount: u64) -> (r: Result<(), SocketError>)
    ensures
        packet_sent(
            *old(socket),
            *final(socket),
            false,
            payload(ClientPacket::UpdateTradeMoney, enc_u64(amount)),
            r,
        ),
{
    let mut buf = PacketBuffer::new_packet()?;
    let ghost b0 = buf.bytes();
    ClientPacket::UpdateTradeMoney.write_to(&mut buf)?;
    buf.write_u64(amount)?;
    let ghost p = payload(ClientPacket::UpdateTradeMoney, enc_u64(amount));
    assert(buf.bytes() =~= b0 + p);
    proof {
        lemma_header(p);
    }
    buf.finish()?;
    socket.send(buf)
}

/// Submits the trade offer.
pub fn send_submittrade(socket: &mut Socket) -> (r: Result<(), SocketError>)
    ensures
        packet_sent(
            *old(socket),
            *final(socket),
            false,
            payload(ClientPacket::SubmitTrade, Seq::<u8>::empty()),
            r,
        ),
{
    let mut buf = PacketBuffer::new_packet()?;
    let ghost b0 = buf.bytes();
    ClientPacket::SubmitTrade.write_to(&mut buf)?;
    let ghost p = payload(ClientPacket::SubmitTrade, Seq::<u8>::empty());
    assert(buf.bytes() =~= b0 + p);
    proof {
        lemma_header(p);
    }
    buf.finish()?;
    socket.send(buf)
}

/// Accepts a trade request.
pub fn send_accepttrade(socket: &mut Socket) -> (r: Result<(), SocketError>)
    ensures
        packet_sent(
            *old(socket),
            *final(socket),
            false,
            payload(ClientPacket::AcceptTrade, Seq::<u8>::empty()),
            r,
        ),
{
    let mut buf = PacketBuffer::new_packet()?;
    let ghost b0 = buf.bytes();
    ClientPacket::AcceptTrade.write_to(&mut buf)?;
    let ghost p = payload(ClientPacket::AcceptTrade, Seq::<u8>::empty());
    assert(buf.bytes() =~= b0 + p);
    proof {
        lemma_header(p);
    }
    buf.finish()?;
    socket.send(buf)
}

/// Declines a trade request.
pub fn send_declinetrade(socket: &mut Socket) -> (r: Result<(), SocketError>)
    ensures
        packet_sent(
            *old(socket),
            *final(socket),
            false,
            payload(ClientPacket::DeclineTrade, Seq::<u8>::empty()),
            r,
        ),
{
    let mut buf = PacketBuffer::new_packet()?;
    let ghost b0 = buf.bytes();
    ClientPacket::DeclineTrade.write_to(&mut buf)?;
    let ghost p = payload(ClientPacket::DeclineTrade, Seq::<u8>::empty());
    assert(buf.bytes() =~= b0 + p);
    proof {
        lemma_header(p);
    }
    buf.finish()?;
    socket.send(buf)
}

/// Checks that the connection is alive.
pub fn send_ping(socket: &mut Socket) -> (r: Result<(), SocketError>)
    ensures
        packet_sent(
            *old(socket),
            *final(socket),
            secure_path(old(socket).encrypt_state),
            payload(ClientPacket::OnlineCheck, enc_u64(0)),
            r,
        ),
{
    let mut buf = PacketBuffer::new_packet()?;
    let ghost b0 = buf.bytes();
    ClientPacket::OnlineCheck.write_to(&mut buf)?;
    buf.write_u64(0)?;
    let ghost p = payload(ClientPacket::OnlineCheck, enc_u64(0));
    assert(buf.bytes() =~= b0 + p);
    proof {
        lemma_header(p);
    }
    buf.finish()?;
    match socket.encrypt_state {
        EncryptionState::Plain => socket.send(buf),
        EncryptionState::ReadWrite | EncryptionState::WriteTransfering => socket.tls_send(buf),
    }
}

/// Measures the round trip to the game server.
pub fn send_gameping(socket: &mut Socket) -> (r: Result<(), SocketError>)
    ensures
        packet_sent(
            *old(socket),
            *final(socket),
            secure_path(old(socket).encrypt_state),
            payload(ClientPacket::Ping, enc_u64(0)),
            r,
        ),
{
    let mut buf = PacketBuffer::new_packet()?;
    let ghost b0 = buf.bytes();
    ClientPacket::Ping.write_to(&mut buf)?;
    buf.write_u64(0)?;
    let ghost p = payload(ClientPacket::Ping, enc_u64(0));
    assert(buf.bytes() =~= b0 + p);
    proof {
        lemma_header(p);
    }
    buf.finish()?;
    match socket.encrypt_state {
        EncryptionState::Plain => socket.send(buf),
        EncryptionState::ReadWrite | EncryptionState::WriteTransfering => socket.tls_send(buf),
    }
}

} // verus!
