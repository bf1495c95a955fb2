use vstd::prelude::*;

use crate::protocol::ClientId;
use vstd::utf8::encode_utf8;

use crate::protocol::codec::{copy_range, le16, lemma_le16_roundtrip, read_u16, u16_of};
use crate::protocol::packet::pkt_connection::trimmed_name_ok;
use crate::protocol::packet::{Packet, Protocol, ProtocolV};
use crate::protocol::packet::pkt_change_room::ChangeRoom;
use crate::protocol::packet::pkt_character::{Character, CharacterV, lemma_character_roundtrip};
use crate::protocol::packet::pkt_fight::Fight;
use crate::protocol::packet::pkt_leave::Leave;
use crate::protocol::packet::pkt_loot::{Loot, LootV, lemma_loot_roundtrip};
use crate::protocol::packet::pkt_message::{Message, MessageV, lemma_message_roundtrip};
use crate::protocol::packet::pkt_pvp_fight::{PVPFight, PVPFightV, lemma_pvp_fight_roundtrip};
use crate::protocol::packet::pkt_start::Start;
use crate::protocol::pkt_type::PktType;

verus! {

/// The number of bytes that follow the kind byte of a packet before its
/// variable part; `None` for bytes that name no packet kind.
pub open spec fn fixed_len(t: u8) -> Option<nat> {
    if t == 1 { Some(66) }
    else if t == 2 { Some(2) }
    else if t == 3 { Some(0) }
    else if t == 4 { Some(32) }
    else if t == 5 { Some(32) }
    else if t == 6 { Some(0) }
    else if t == 7 { Some(3) }
    else if t == 8 { Some(1) }
    else if t == 9 { Some(36) }
    else if t == 10 { Some(47) }
    else if t == 11 { Some(6) }
    else if t == 12 { Some(0) }
    else if t == 13 { Some(36) }
    else if t == 14 { Some(4) }
    else { None }
}

/// Where, within the fixed part of a body, the little-endian length of the
/// variable part stands; `None` for kinds without a variable part.
pub open spec fn length_field(t: u8) -> Option<int> {
    if t == 1 { Some(0) }
    else if t == 7 { Some(1) }
    else if t == 9 { Some(34) }
    else if t == 10 { Some(45) }
    else if t == 11 { Some(4) }
    else if t == 13 { Some(34) }
    else if t == 14 { Some(2) }
    else { None }
}

/// Whether the server takes packets of this kind from clients; the others
/// are only ever sent by the server.
pub open spec fn accepted_from_client(t: u8) -> bool {
    t == 1 || t == 2 || t == 3 || t == 4 || t == 5 || t == 6 || t == 10 || t == 12
}

/// What reading the start of a client's byte stream gives.
pub enum ReadOutcome {
    /// A whole packet of `consumed` bytes.
    Packet(usize, Protocol),
    /// A whole packet of `consumed` bytes, of a kind clients may not send.
    Rejected(usize),
    /// A first byte that names no packet kind.
    Unsupported(u8),
    /// The bytes end before the packet does.
    Incomplete,
}

/// The value of a `ReadOutcome`.
pub enum ReadOutcomeV {
    Packet(nat, ProtocolV),
    Rejected(nat),
    Unsupported(u8),
    Incomplete,
}

impl View for ReadOutcome {
    type V = ReadOutcomeV;

    open spec fn view(&self) -> ReadOutcomeV {
        match self {
            ReadOutcome::Packet(n, p) => ReadOutcomeV::Packet(*n as nat, p@),
            ReadOutcome::Rejected(n) => ReadOutcomeV::Rejected(*n as nat),
            ReadOutcome::Unsupported(t) => ReadOutcomeV::Unsupported(*t),
            ReadOutcome::Incomplete => ReadOutcomeV::Incomplete,
        }
    }
}

/// The packet a client sent, read from the kind byte and body.
pub open spec fn client_packet(author: ClientId, t: u8, body: Seq<u8>) -> ProtocolV {
    if t == 1 {
        ProtocolV::Message(author, MessageV::from_body(t, body))
    } else if t == 2 {
        ProtocolV::ChangeRoom(author, ChangeRoom::from_body(t, body))
    } else if t == 3 {
        ProtocolV::Fight(author, Fight { message_type: PktType::Fight })
    } else if t == 4 {
        ProtocolV::PVPFight(author, PVPFightV::from_body(t, body))
    } else if t == 5 {
        ProtocolV::Loot(author, LootV::from_body(t, body))
    } else if t == 6 {
        ProtocolV::Start(author, Start { message_type: PktType::Start })
    } else if t == 10 {
        ProtocolV::Character(author, CharacterV::from_body(author, t, body))
    } else {
        ProtocolV::Leave(author, Leave { message_type: PktType::Leave })
    }
}

/// The length of the packet at the start of `bytes`, whose fixed part is
/// there.
pub open spec fn packet_len(bytes: Seq<u8>) -> nat {
    let t = bytes[0];
    let n = fixed_len(t).unwrap();
    match length_field(t) {
        Some(i) => 1 + n + (u16_of(bytes[1 + i], bytes[2 + i]) as nat),
        None => 1 + n,
    }
}

/// What reading the start of `bytes`, from client `author`, gives.
pub open spec fn read_spec(bytes: Seq<u8>, author: ClientId) -> ReadOutcomeV {
    if bytes.len() == 0 {
        ReadOutcomeV::Incomplete
    } else {
        let t = bytes[0];
        match fixed_len(t) {
            None => ReadOutcomeV::Unsupported(t),
            Some(n) => if bytes.len() < 1 + n {
                ReadOutcomeV::Incomplete
            } else {
                let total = packet_len(bytes);
                if bytes.len() < total {
                    ReadOutcomeV::Incomplete
                } else if accepted_from_client(t) {
                    ReadOutcomeV::Packet(
                        total,
                        client_packet(author, t, bytes.subrange(1, total as int)),
                    )
                } else {
                    ReadOutcomeV::Rejected(total)
                }
            },
        }
    }
}

/// Whether a packet can travel from a client to the server unchanged: it is
/// of a kind the server takes, its kind field matches, its text fits the
/// fixed fields, and its length fields count the bytes of its text.
pub open spec fn client_sendable(p: ProtocolV) -> bool {
    match p {
        ProtocolV::Message(_, m) => {
            &&& m.message_type == PktType::Message
            &&& m.wire_ok()
            &&& m.message_len == encode_utf8(m.message).len()
        },
        ProtocolV::ChangeRoom(_, c) => c.message_type == PktType::ChangeRoom,
        ProtocolV::Fight(_, f) => f.message_type == PktType::Fight,
        ProtocolV::PVPFight(_, x) => {
            &&& x.message_type == PktType::PVPFight
            &&& trimmed_name_ok(x.target_name)
        },
        ProtocolV::Loot(_, x) => {
            &&& x.message_type == PktType::Loot
            &&& trimmed_name_ok(x.target_name)
        },
        ProtocolV::Start(_, x) => x.message_type == PktType::Start,
        ProtocolV::Character(_, c) => {
            &&& c.message_type == PktType::Character
            &&& c.wire_ok()
            &&& c.description_len == encode_utf8(c.description).len()
        },
        ProtocolV::Leave(_, x) => x.message_type == PktType::Leave,
        _ => false,
    }
}

/// The packet as the server reads it from client `author`: the same packet,
/// now from `author` (a character also records `author` as its player).
pub open spec fn as_received(p: ProtocolV, author: ClientId) -> ProtocolV {
    match p {
        ProtocolV::Message(_, m) => ProtocolV::Message(author, m),
        ProtocolV::ChangeRoom(_, c) => ProtocolV::ChangeRoom(author, c),
        ProtocolV::Fight(_, f) => ProtocolV::Fight(author, f),
        ProtocolV::PVPFight(_, x) => ProtocolV::PVPFight(author, x),
        ProtocolV::Loot(_, x) => ProtocolV::Loot(author, x),
        ProtocolV::Start(_, x) => ProtocolV::Start(author, x),
        ProtocolV::Character(_, c) => ProtocolV::Character(
            author,
            CharacterV { author: Some(author), ..c },
        ),
        _ => ProtocolV::Leave(author, Leave { message_type: PktType::Leave }),
    }
}

/// A stream that starts with a whole packet of an accepted kind reads as
/// that packet.
proof fn lemma_read_whole(w: Seq<u8>, rest: Seq<u8>, author: ClientId)
    requires
        w.len() >= 1,
        fixed_len(w[0]) is Some,
        w.len() >= 1 + fixed_len(w[0]).unwrap(),
        packet_len(w) == w.len(),
        accepted_from_client(w[0]),
    ensures
        read_spec(w + rest, author) == ReadOutcomeV::Packet(
            w.len(),
            client_packet(author, w[0], w.drop_first()),
        ),
{
    let bytes = w + rest;
    let n = fixed_len(w[0]).unwrap();
    assert(bytes[0] == w[0]);
    match length_field(w[0]) {
        Some(i) => {
            assert(0 <= i && i + 1 < n) by {
                assert(length_field(w[0]) == Some(i));
            }
            assert(bytes[1 + i] == w[1 + i]);
            assert(bytes[2 + i] == w[2 + i]);
        },
        None => {},
    }
    assert(packet_len(bytes) == packet_len(w));
    assert(bytes.subrange(1, w.len() as int) =~= w.drop_first());
}

/// What the server reads of a packet that a client wrote is that packet:
/// reading a client's stream that starts with the bytes of a packet gives
/// the packet back and consumes exactly its bytes, whatever follows them.
pub proof fn lemma_read_after_write(p: ProtocolV, rest: Seq<u8>, author: ClientId)
    requires
        client_sendable(p),
    ensures
        read_spec(p.wire() + rest, author) == ReadOutcomeV::Packet(
            p.wire().len(),
            as_received(p, author),
        ),
{
    let w = p.wire();
    match p {
        ProtocolV::Message(_, m) => {
            lemma_message_roundtrip(m);
            assert(w[1] == le16(m.message_len)[0] && w[2] == le16(m.message_len)[1]);
            lemma_le16_roundtrip(m.message_len);
            lemma_read_whole(w, rest, author);
        },
        ProtocolV::ChangeRoom(_, c) => {
            lemma_le16_roundtrip(c.room_number);
            assert(w.drop_first()[0] == le16(c.room_number)[0]);
            lemma_read_whole(w, rest, author);
        },
        ProtocolV::Fight(_, f) => {
            lemma_read_whole(w, rest, author);
        },
        ProtocolV::PVPFight(_, x) => {
            lemma_pvp_fight_roundtrip(x);
            lemma_read_whole(w, rest, author);
        },
        ProtocolV::Loot(_, x) => {
            lemma_loot_roundtrip(x);
            lemma_read_whole(w, rest, author);
        },
        ProtocolV::Start(_, x) => {
            lemma_read_whole(w, rest, author);
        },
        ProtocolV::Character(_, c) => {
            lemma_character_roundtrip(c, author);
            assert(w[46] == le16(c.description_len)[0] && w[47] == le16(c.description_len)[1]);
            lemma_le16_roundtrip(c.description_len);
            lemma_read_whole(w, rest, author);
        },
        ProtocolV::Leave(_, x) => {
            lemma_read_whole(w, rest, author);
        },
        _ => {},
    }
}

/// Bytes that arrive later never change a read that did not have to wait
/// for them: a whole packet, a refused one, or an unknown kind stays what it
/// was.
pub proof fn lemma_read_stable(bytes: Seq<u8>, more: Seq<u8>, author: ClientId)
    requires
        !(read_spec(bytes, author) is Incomplete),
    ensures
        read_spec(bytes + more, author) == read_spec(bytes, author),
{
    let all = bytes + more;
    assert(all[0] == bytes[0]);
    let t = bytes[0];
    match fixed_len(t) {
        None => {},
        Some(n) => {
            match length_field(t) {
                Some(i) => {
                    assert(0 <= i && i + 1 < n) by {
                        assert(length_field(t) == Some(i));
                    }
                    assert(all[1 + i] == bytes[1 + i]);
                    assert(all[2 + i] == bytes[2 + i]);
                },
                None => {},
            }
            assert(packet_len(all) == packet_len(bytes));
            let total = packet_len(bytes);
            assert(all.subrange(1, total as int) =~= bytes.subrange(1, total as int));
        },
    }
}

/// What the reading side of a connection does next with the bytes it has.
pub enum Step {
    /// Hand the packet to the game and drop its bytes.
    Forward(usize, Protocol),
    /// Drop the bytes of a packet clients may not send, and go on.
    Skip(usize),
    /// Wait for more bytes.
    ReadMore,
    /// End the connection: the stream names no packet kind.
    Stop,
}

/// The value of a `Step`.
pub enum StepV {
    Forward(nat, ProtocolV),
    Skip(nat),
    ReadMore,
    Stop,
}

impl View for Step {
    type V = StepV;

    open spec fn view(&self) -> StepV {
        match self {
            Step::Forward(n, p) => StepV::Forward(*n as nat, p@),
            Step::Skip(n) => StepV::Skip(*n as nat),
            Step::ReadMore => StepV::ReadMore,
            Step::Stop => StepV::Stop,
        }
    }
}

/// The step that follows a read: a packet goes to the game, a refused one
/// is skipped, an unknown kind ends the connection, and a packet not yet
/// whole waits for more bytes.
pub open spec fn step_of(r: ReadOutcomeV) -> StepV {
    match r {
        ReadOutcomeV::Packet(n, p) => StepV::Forward(n, p),
        ReadOutcomeV::Rejected(n) => StepV::Skip(n),
        ReadOutcomeV::Unsupported(_) => StepV::Stop,
        ReadOutcomeV::Incomplete => StepV::ReadMore,
    }
}

/// The reading side of a client's connection.
pub struct Client {
    pub id: ClientId,
}

impl Client {
    pub fn new(id: ClientId) -> (c: Client)
        ensures
            c.id == id,
    {
        Client { id }
    }

    /// Reads the packet at the start of `bytes`, the bytes the client has
    /// sent and the server has not read yet.
    pub fn read(&self, bytes: &[u8]) -> (r: ReadOutcome)
        ensures
            r@ == read_spec(bytes@, self.id),
    {
        if bytes.len() == 0 {
            return ReadOutcome::Incomplete;
        }
        let t = bytes[0];
        let (fixed, field): (usize, Option<usize>) = match t {
            1 => (66, Some(0)),
            2 => (2, None),
            3 => (0, None),
            4 => (32, None),
            5 => (32, None),
            6 => (0, None),
            7 => (3, Some(1)),
            8 => (1, None),
            9 => (36, Some(34)),
            10 => (47, Some(45)),
            11 => (6, Some(4)),
            12 => (0, None),
            13 => (36, Some(34)),
            14 => (4, Some(2)),
            _ => {
                return ReadOutcome::Unsupported(t);
            },
        };
        if bytes.len() < 1 + fixed {
            return ReadOutcome::Incomplete;
        }
        let total: usize = match field {
            Some(i) => 1 + fixed + read_u16(bytes, 1 + i) as usize,
            None => 1 + fixed,
        };
        if bytes.len() < total {
            return ReadOutcome::Incomplete;
        }
        let accepted = t == 1 || t == 2 || t == 3 || t == 4 || t == 5 || t == 6 || t == 10 || t
            == 12;
        if !accepted {
            return ReadOutcome::Rejected(total);
        }
        let packet = Packet::new(self.id, t, copy_range(bytes, 1, total));
        let p = match t {
            1 => Protocol::Message(self.id, Message::deserialize(&packet)),
            2 => Protocol::ChangeRoom(self.id, ChangeRoom::deserialize(&packet)),
            3 => Protocol::Fight(self.id, Fight::default()),
            4 => Protocol::PVPFight(self.id, PVPFight::deserialize(&packet)),
            5 => Protocol::Loot(self.id, Loot::deserialize(&packet)),
            6 => Protocol::Start(self.id, Start::default()),
            10 => Protocol::Character(self.id, Character::deserialize(&packet)),
            _ => Protocol::Leave(self.id, Leave::default()),
        };
        ReadOutcome::Packet(total, p)
    }

    /// What to do next with `bytes`, the bytes the client has sent and the
    /// server has not read yet. A packet forwarded or skipped takes at least
    /// one of them and no more than there are.
    pub fn next_step(&self, bytes: &[u8]) -> (s: Step)
        ensures
            s@ == step_of(read_spec(bytes@, self.id)),
            s matches Step::Forward(n, _) ==> 1 <= n <= bytes@.len(),
            s matches Step::Skip(n) ==> 1 <= n <= bytes@.len(),
    {
        match self.read(bytes) {
            ReadOutcome::Packet(n, p) => Step::Forward(n, p),
            ReadOutcome::Rejected(n) => Step::Skip(n),
            ReadOutcome::Unsupported(_) => Step::Stop,
            ReadOutcome::Incomplete => Step::ReadMore,
        }
    }
}

} // verus!
