//! Packet identifiers. Each direction has its own closed set; an
//! identifier is sent as its ordinal, counting from 1, in a `u16`.

use vstd::prelude::*;
use crate::codec::PacketBuffer;
use crate::error::SocketError;

verus! {

/// Packets sent by the client.
#[derive(Clone, Copy, Debug, PartialEq, Eq, Structural)]
pub enum ClientPacket {
    OnlineCheck,
    Register,
    Login,
    HandShake,
    Move,
    Dir,
    Attack,
    UseItem,
    Unequip,
    SwitchInvSlot,
    PickUp,
    DropItem,
    DeleteItem,
    SwitchStorageSlot,
    DeleteStorageItem,
    DepositItem,
    WithdrawItem,
    Message,
    Command,
    SetTarget,
    CloseStorage,
    CloseShop,
    CloseTrade,
    BuyItem,
    SellItem,
    AddTradeItem,
    RemoveTradeItem,
    UpdateTradeMoney,
    SubmitTrade,
    AcceptTrade,
    DeclineTrade,
    Ping,
}

/// Packets sent by the server.
#[derive(Clone, Copy, Debug, PartialEq, Eq, Structural)]
pub enum ServerPackets {
    OnlineCheck,
    AlertMsg,
    FltAlert,
    LoginOk,
    MapItems,
    MyIndex,
    PlayerData,
    PlayerSpawn,
    PlayerMove,
    PlayerWarp,
    PlayerMapSwap,
    DataRemoveList,
    DataRemove,
    PlayerDir,
    PlayerVitals,
    PlayerInv,
    PlayerInvSlot,
    PlayerStorage,
    PlayerStorageSlot,
    KeyInput,
    PlayerAttack,
    PlayerEquipment,
    PlayerAction,
    PlayerLevel,
    PlayerMoney,
    PlayerStun,
    PlayerVariables,
    PlayerVariable,
    PlayerDeath,
    NpcDeath,
    PlayerPvp,
    PlayerPk,
    PlayerEmail,
    NpcUnload,
    ChatMsg,
    EntityUnload,
    OpenStorage,
    OpenShop,
    ClearIsUsingType,
    UpdateTradeItem,
    UpdateTradeMoney,
    InitTrade,
    TradeStatus,
    TradeRequest,
    PlayItemSfx,
    Damage,
    Ping,
    HandShake,
    ClearData,
}

/// The ordinal of a client packet, counting from 1.
pub open spec fn client_packet_id(p: ClientPacket) -> u16 {
    match p {
        ClientPacket::OnlineCheck => 1,
        ClientPacket::Register => 2,
        ClientPacket::Login => 3,
        ClientPacket::HandShake => 4,
        ClientPacket::Move => 5,
        ClientPacket::Dir => 6,
        ClientPacket::Attack => 7,
        ClientPacket::UseItem => 8,
        ClientPacket::Unequip => 9,
        ClientPacket::SwitchInvSlot => 10,
        ClientPacket::PickUp => 11,
        ClientPacket::DropItem => 12,
        ClientPacket::DeleteItem => 13,
        ClientPacket::SwitchStorageSlot => 14,
        ClientPacket::DeleteStorageItem => 15,
        ClientPacket::DepositItem => 16,
        ClientPacket::WithdrawItem => 17,
        ClientPacket::Message => 18,
        ClientPacket::Command => 19,
        ClientPacket::SetTarget => 20,
        ClientPacket::CloseStorage => 21,
        ClientPacket::CloseShop => 22,
        ClientPacket::CloseTrade => 23,
        ClientPacket::BuyItem => 24,
        ClientPacket::SellItem => 25,
        ClientPacket::AddTradeItem => 26,
        ClientPacket::RemoveTradeItem => 27,
        ClientPacket::UpdateTradeMoney => 28,
        ClientPacket::SubmitTrade => 29,
        ClientPacket::AcceptTrade => 30,
        ClientPacket::DeclineTrade => 31,
        ClientPacket::Ping => 32,
    }
}

/// The ordinal of a server packet, counting from 1.
pub open spec fn server_packet_id(p: ServerPackets) -> u16 {
    match p {
        ServerPackets::OnlineCheck => 1,
        ServerPackets::AlertMsg => 2,
        ServerPackets::FltAlert => 3,
        ServerPackets::LoginOk => 4,
        ServerPackets::MapItems => 5,
        ServerPackets::MyIndex => 6,
        ServerPackets::PlayerData => 7,
        ServerPackets::PlayerSpawn => 8,
        ServerPackets::PlayerMove => 9,
        ServerPackets::PlayerWarp => 10,
        ServerPackets::PlayerMapSwap => 11,
        ServerPackets::DataRemoveList => 12,
        ServerPackets::DataRemove => 13,
        ServerPackets::PlayerDir => 14,
        ServerPackets::PlayerVitals => 15,
        ServerPackets::PlayerInv => 16,
        ServerPackets::PlayerInvSlot => 17,
        ServerPackets::PlayerStorage => 18,
        ServerPackets::PlayerStorageSlot => 19,
        ServerPackets::KeyInput => 20,
        ServerPackets::PlayerAttack => 21,
        ServerPackets::PlayerEquipment => 22,
        ServerPackets::PlayerAction => 23,
        ServerPackets::PlayerLevel => 24,
        ServerPackets::PlayerMoney => 25,
        ServerPackets::PlayerStun => 26,
        ServerPackets::PlayerVariables => 27,
        ServerPackets::PlayerVariable => 28,
        ServerPackets::PlayerDeath => 29,
        ServerPackets::NpcDeath => 30,
        ServerPackets::PlayerPvp => 31,
        ServerPackets::PlayerPk => 32,
        ServerPackets::PlayerEmail => 33,
        ServerPackets::NpcUnload => 34,
        ServerPackets::ChatMsg => 35,
        ServerPackets::EntityUnload => 36,
        ServerPackets::OpenStorage => 37,
        ServerPackets::OpenShop => 38,
        ServerPackets::ClearIsUsingType => 39,
        ServerPackets::UpdateTradeItem => 40,
        ServerPackets::UpdateTradeMoney => 41,
        ServerPackets::InitTrade => 42,
        ServerPackets::TradeStatus => 43,
        ServerPackets::TradeRequest => 44,
        ServerPackets::PlayItemSfx => 45,
        ServerPackets::Damage => 46,
        ServerPackets::Ping => 47,
        ServerPackets::HandShake => 48,
        ServerPackets::ClearData => 49,
    }
}

/// The server packet with ordinal `id`, if there is one.
pub open spec fn server_packet_of(id: u16) -> Option<ServerPackets> {
    if 1 <= id <= 49 {
        Some(choose|p: ServerPackets| server_packet_id(p) == id)
    } else {
        None
    }
}

impl ClientPacket {
    pub fn id(&self) -> (r: u16)
        ensures
            r == client_packet_id(*self),
    {
        match self {
            ClientPacket::OnlineCheck => 1,
            ClientPacket::Register => 2,
            ClientPacket::Login => 3,
            ClientPacket::HandShake => 4,
            ClientPacket::Move => 5,
            ClientPacket::Dir => 6,
            ClientPacket::Attack => 7,
            ClientPacket::UseItem => 8,
            ClientPacket::Unequip => 9,
            ClientPacket::SwitchInvSlot => 10,
            ClientPacket::PickUp => 11,
            ClientPacket::DropItem => 12,
            ClientPacket::DeleteItem => 13,
            ClientPacket::SwitchStorageSlot => 14,
            ClientPacket::DeleteStorageItem => 15,
            ClientPacket::DepositItem => 16,
            ClientPacket::WithdrawItem => 17,
            ClientPacket::Message => 18,
            ClientPacket::Command => 19,
            ClientPacket::SetTarget => 20,
            ClientPacket::CloseStorage => 21,
            ClientPacket::CloseShop => 22,
            ClientPacket::CloseTrade => 23,
            ClientPacket::BuyItem => 24,
            ClientPacket::SellItem => 25,
            ClientPacket::AddTradeItem => 26,
            ClientPacket::RemoveTradeItem => 27,
            ClientPacket::UpdateTradeMoney => 28,
            ClientPacket::SubmitTrade => 29,
            ClientPacket::AcceptTrade => 30,
            ClientPacket::DeclineTrade => 31,
            ClientPacket::Ping => 32,
        }
    }

    pub fn write_to(&self, buf: &mut PacketBuffer) -> (r: Result<(), SocketError>)
        requires
            old(buf).wf(),
            old(buf).at_end(),
        ensures
            final(buf).wf(),
            r is Ok ==> final(buf).bytes() == old(buf).bytes() + crate::codec::enc_u16(
                client_packet_id(*self),
            ) && final(buf).at_end(),
            r is Err ==> r->Err_0 == SocketError::BufferError,
    {
        buf.write_u16(self.id())
    }
}

impl ServerPackets {
    pub fn id(&self) -> (r: u16)
        ensures
            r == server_packet_id(*self),
    {
        match self {
            ServerPackets::OnlineCheck => 1,
            ServerPackets::AlertMsg => 2,
            ServerPackets::FltAlert => 3,
            ServerPackets::LoginOk => 4,
            ServerPackets::MapItems => 5,
            ServerPackets::MyIndex => 6,
            ServerPackets::PlayerData => 7,
            ServerPackets::PlayerSpawn => 8,
            ServerPackets::PlayerMove => 9,
            ServerPackets::PlayerWarp => 10,
            ServerPackets::PlayerMapSwap => 11,
            ServerPackets::DataRemoveList => 12,
            ServerPackets::DataRemove => 13,
            ServerPackets::PlayerDir => 14,
            ServerPackets::PlayerVitals => 15,
            ServerPackets::PlayerInv => 16,
            ServerPackets::PlayerInvSlot => 17,
            ServerPackets::PlayerStorage => 18,
            ServerPackets::PlayerStorageSlot => 19,
            ServerPackets::KeyInput => 20,
            ServerPackets::PlayerAttack => 21,
            ServerPackets::PlayerEquipment => 22,
            ServerPackets::PlayerAction => 23,
            ServerPackets::PlayerLevel => 24,
            ServerPackets::PlayerMoney => 25,
            ServerPackets::PlayerStun => 26,
            ServerPackets::PlayerVariables => 27,
            ServerPackets::PlayerVariable => 28,
            ServerPackets::PlayerDeath => 29,
            ServerPackets::NpcDeath => 30,
            ServerPackets::PlayerPvp => 31,
            ServerPackets::PlayerPk => 32,
            ServerPackets::PlayerEmail => 33,
            ServerPackets::NpcUnload => 34,
            ServerPackets::ChatMsg => 35,
            ServerPackets::EntityUnload => 36,
            ServerPackets::OpenStorage => 37,
            ServerPackets::OpenShop => 38,
            ServerPackets::ClearIsUsingType => 39,
            ServerPackets::UpdateTradeItem => 40,
            ServerPackets::UpdateTradeMoney => 41,
            ServerPackets::InitTrade => 42,
            ServerPackets::TradeStatus => 43,
            ServerPackets::TradeRequest => 44,
            ServerPackets::PlayItemSfx => 45,
            ServerPackets::Damage => 46,
            ServerPackets::Ping => 47,
            ServerPackets::HandShake => 48,
            ServerPackets::ClearData => 49,
        }
    }

    /// The server packet with ordinal `id`, if there is one.
    pub fn from_id(id: u16) -> (r: Option<ServerPackets>)
        ensures
            r == server_packet_of(id),
            r matches Some(p) ==> server_packet_id(p) == id,
    {
        let r = match id {
            1 => Some(ServerPackets::OnlineCheck),
            2 => Some(ServerPackets::AlertMsg),
            3 => Some(ServerPackets::FltAlert),
            4 => Some(ServerPackets::LoginOk),
            5 => Some(ServerPackets::MapItems),
            6 => Some(ServerPackets::MyIndex),
            7 => Some(ServerPackets::PlayerData),
            8 => Some(ServerPackets::PlayerSpawn),
            9 => Some(ServerPackets::PlayerMove),
            10 => Some(ServerPackets::PlayerWarp),
            11 => Some(ServerPackets::PlayerMapSwap),
            12 => Some(ServerPackets::DataRemoveList),
            13 => Some(ServerPackets::DataRemove),
            14 => Some(ServerPackets::PlayerDir),
            15 => Some(ServerPackets::PlayerVitals),
            16 => Some(ServerPackets::PlayerInv),
            17 => Some(ServerPackets::PlayerInvSlot),
            18 => Some(ServerPackets::PlayerStorage),
            19 => Some(ServerPackets::PlayerStorageSlot),
            20 => Some(ServerPackets::KeyInput),
            21 => Some(ServerPackets::PlayerAttack),
            22 => Some(ServerPackets::PlayerEquipment),
            23 => Some(ServerPackets::PlayerAction),
            24 => Some(ServerPackets::PlayerLevel),
            25 => Some(ServerPackets::PlayerMoney),
            26 => Some(ServerPackets::PlayerStun),
            27 => Some(ServerPackets::PlayerVariables),
            28 => Some(ServerPackets::PlayerVariable),
            29 => Some(ServerPackets::PlayerDeath),
            30 => Some(ServerPackets::NpcDeath),
            31 => Some(ServerPackets::PlayerPvp),
            32 => Some(ServerPackets::PlayerPk),
            33 => Some(ServerPackets::PlayerEmail),
            34 => Some(ServerPackets::NpcUnload),
            35 => Some(ServerPackets::ChatMsg),
            36 => Some(ServerPackets::EntityUnload),
            37 => Some(ServerPackets::OpenStorage),
            38 => Some(ServerPackets::OpenShop),
            39 => Some(ServerPackets::ClearIsUsingType),
            40 => Some(ServerPackets::UpdateTradeItem),
            41 => Some(ServerPackets::UpdateTradeMoney),
            42 => Some(ServerPackets::InitTrade),
            43 => Some(ServerPackets::TradeStatus),
            44 => Some(ServerPackets::TradeRequest),
            45 => Some(ServerPackets::PlayItemSfx),
            46 => Some(ServerPackets::Damage),
            47 => Some(ServerPackets::Ping),
            48 => Some(ServerPackets::HandShake),
            49 => Some(ServerPackets::ClearData),
            _ => None,
        };
        proof {
            if let Some(p) = r {
                assert(server_packet_id(p) == id);
            }
        }
        r
    }
}

} // verus!
