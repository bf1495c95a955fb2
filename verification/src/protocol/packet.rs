use vstd::prelude::*;

use crate::protocol::ClientId;
use crate::protocol::packet::pkt_accept::Accept;
use crate::protocol::packet::pkt_change_room::ChangeRoom;
use crate::protocol::packet::pkt_character::{Character, CharacterV};
use crate::protocol::packet::pkt_connection::{Connection, ConnectionV};
use crate::protocol::packet::pkt_error::{Error, ErrorV};
use crate::protocol::packet::pkt_fight::Fight;
use crate::protocol::packet::pkt_game::{Game, GameV};
use crate::protocol::packet::pkt_leave::Leave;
use crate::protocol::packet::pkt_loot::{Loot, LootV};
use crate::protocol::packet::pkt_message::{Message, MessageV};
use crate::protocol::packet::pkt_pvp_fight::{PVPFight, PVPFightV};
use crate::protocol::packet::pkt_room::{Room, RoomV};
use crate::protocol::packet::pkt_start::Start;
use crate::protocol::packet::pkt_version::{Version, VersionV};

pub mod pkt_accept;
pub mod pkt_change_room;
pub mod pkt_character;
pub mod pkt_connection;
pub mod pkt_error;
pub mod pkt_fight;
pub mod pkt_game;
pub mod pkt_leave;
pub mod pkt_loot;
pub mod pkt_message;
pub mod pkt_pvp_fight;
pub mod pkt_room;
pub mod pkt_start;
pub mod pkt_version;

verus! {

/// A packet as it comes off the wire: who sent it, its kind byte, and the
/// bytes that follow the kind byte.
pub struct Packet {
    pub author: ClientId,
    pub message_type: u8,
    pub body: Vec<u8>,
}

impl Packet {
    pub fn new(author: ClientId, id: u8, bytes: Vec<u8>) -> (p: Packet)
        ensures
            p.author == author,
            p.message_type == id,
            p.body@ == bytes@,
    {
        Packet { author, message_type: id, body: bytes }
    }
}

/// A packet together with the client it comes from or goes to.
pub enum Protocol {
    Message(ClientId, Message),
    ChangeRoom(ClientId, ChangeRoom),
    Fight(ClientId, Fight),
    PVPFight(ClientId, PVPFight),
    Loot(ClientId, Loot),
    Start(ClientId, Start),
    Error(ClientId, Error),
    Accept(ClientId, Accept),
    Room(ClientId, Room),
    Character(ClientId, Character),
    Game(ClientId, Game),
    Leave(ClientId, Leave),
    Connection(ClientId, Connection),
    Version(ClientId, Version),
}

/// The value of a `Protocol`.
pub enum ProtocolV {
    Message(ClientId, MessageV),
    ChangeRoom(ClientId, ChangeRoom),
    Fight(ClientId, Fight),
    PVPFight(ClientId, PVPFightV),
    Loot(ClientId, LootV),
    Start(ClientId, Start),
    Error(ClientId, ErrorV),
    Accept(ClientId, Accept),
    Room(ClientId, RoomV),
    Character(ClientId, CharacterV),
    Game(ClientId, GameV),
    Leave(ClientId, Leave),
    Connection(ClientId, ConnectionV),
    Version(ClientId, VersionV),
}

impl View for Protocol {
    type V = ProtocolV;

    open spec fn view(&self) -> ProtocolV {
        match self {
            Protocol::Message(c, p) => ProtocolV::Message(*c, p@),
            Protocol::ChangeRoom(c, p) => ProtocolV::ChangeRoom(*c, *p),
            Protocol::Fight(c, p) => ProtocolV::Fight(*c, *p),
            Protocol::PVPFight(c, p) => ProtocolV::PVPFight(*c, p@),
            Protocol::Loot(c, p) => ProtocolV::Loot(*c, p@),
            Protocol::Start(c, p) => ProtocolV::Start(*c, *p),
            Protocol::Error(c, p) => ProtocolV::Error(*c, p@),
            Protocol::Accept(c, p) => ProtocolV::Accept(*c, *p),
            Protocol::Room(c, p) => ProtocolV::Room(*c, p@),
            Protocol::Character(c, p) => ProtocolV::Character(*c, p@),
            Protocol::Game(c, p) => ProtocolV::Game(*c, p@),
            Protocol::Leave(c, p) => ProtocolV::Leave(*c, *p),
            Protocol::Connection(c, p) => ProtocolV::Connection(*c, p@),
            Protocol::Version(c, p) => ProtocolV::Version(*c, p@),
        }
    }
}

impl ProtocolV {
    /// The client the packet comes from or goes to.
    pub open spec fn client(self) -> ClientId {
        match self {
            ProtocolV::Message(c, _) => c,
            ProtocolV::ChangeRoom(c, _) => c,
            ProtocolV::Fight(c, _) => c,
            ProtocolV::PVPFight(c, _) => c,
            ProtocolV::Loot(c, _) => c,
            ProtocolV::Start(c, _) => c,
            ProtocolV::Error(c, _) => c,
            ProtocolV::Accept(c, _) => c,
            ProtocolV::Room(c, _) => c,
            ProtocolV::Character(c, _) => c,
            ProtocolV::Game(c, _) => c,
            ProtocolV::Leave(c, _) => c,
            ProtocolV::Connection(c, _) => c,
            ProtocolV::Version(c, _) => c,
        }
    }

    /// The bytes of the packet on the wire.
    pub open spec fn wire(self) -> Seq<u8> {
        match self {
            ProtocolV::Message(_, p) => p.wire(),
            ProtocolV::ChangeRoom(_, p) => p.wire(),
            ProtocolV::Fight(_, p) => p.wire(),
            ProtocolV::PVPFight(_, p) => p.wire(),
            ProtocolV::Loot(_, p) => p.wire(),
            ProtocolV::Start(_, p) => p.wire(),
            ProtocolV::Error(_, p) => p.wire(),
            ProtocolV::Accept(_, p) => p.wire(),
            ProtocolV::Room(_, p) => p.wire(),
            ProtocolV::Character(_, p) => p.wire(),
            ProtocolV::Game(_, p) => p.wire(),
            ProtocolV::Leave(_, p) => p.wire(),
            ProtocolV::Connection(_, p) => p.wire(),
            ProtocolV::Version(_, p) => p.wire(),
        }
    }
}

impl Protocol {
    /// The client the packet comes from or goes to.
    pub fn client(&self) -> (c: ClientId)
        ensures
            c == self@.client(),
    {
        match self {
            Protocol::Message(c, _) => *c,
            Protocol::ChangeRoom(c, _) => *c,
            Protocol::Fight(c, _) => *c,
            Protocol::PVPFight(c, _) => *c,
            Protocol::Loot(c, _) => *c,
            Protocol::Start(c, _) => *c,
            Protocol::Error(c, _) => *c,
            Protocol::Accept(c, _) => *c,
            Protocol::Room(c, _) => *c,
            Protocol::Character(c, _) => *c,
            Protocol::Game(c, _) => *c,
            Protocol::Leave(c, _) => *c,
            Protocol::Connection(c, _) => *c,
            Protocol::Version(c, _) => *c,
        }
    }

    /// The bytes that sending the packet writes to its client.
    pub fn serialize(&self) -> (out: Vec<u8>)
        ensures
            out@ == self@.wire(),
    {
        match self {
            Protocol::Message(_, p) => p.serialize(),
            Protocol::ChangeRoom(_, p) => p.serialize(),
            Protocol::Fight(_, p) => p.serialize(),
            Protocol::PVPFight(_, p) => p.serialize(),
            Protocol::Loot(_, p) => p.serialize(),
            Protocol::Start(_, p) => p.serialize(),
            Protocol::Error(_, p) => p.serialize(),
            Protocol::Accept(_, p) => p.serialize(),
            Protocol::Room(_, p) => p.serialize(),
            Protocol::Character(_, p) => p.serialize(),
            Protocol::Game(_, p) => p.serialize(),
            Protocol::Leave(_, p) => p.serialize(),
            Protocol::Connection(_, p) => p.serialize(),
            Protocol::Version(_, p) => p.serialize(),
        }
    }
}

} // verus!
