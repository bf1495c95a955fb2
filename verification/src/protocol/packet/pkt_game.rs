use vstd::prelude::*;
use vstd::string::StringSliceAdditionalSpecFns;
use vstd::utf8::{decode_utf8, encode_utf8, valid_utf8};

use crate::protocol::codec::{
    copy_range, le16, len16, lemma_le16_roundtrip, lemma_text_roundtrip, push_str, push_u16,
    read_u16, text_from_bytes_strict, text_len16, u16_of,
};
use crate::protocol::packet::Packet;
use crate::protocol::pkt_type::{PktType, pkt_type_code, pkt_type_of};

verus! {

/// Tells a newly connected client the rules of the game: the stat points
/// a character starts with, the stat limit, and a description.
pub struct Game {
    pub message_type: PktType,
    pub initial_points: u16,
    pub stat_limit: u16,
    pub description_len: u16,
    pub description: String,
}

/// The value of a `Game` packet.
pub struct GameV {
    pub message_type: PktType,
    pub initial_points: u16,
    pub stat_limit: u16,
    pub description_len: u16,
    pub description: Seq<char>,
}

impl View for Game {
    type V = GameV;

    open spec fn view(&self) -> GameV {
        GameV {
            message_type: self.message_type,
            initial_points: self.initial_points,
            stat_limit: self.stat_limit,
            description_len: self.description_len,
            description: self.description@,
        }
    }
}

/// Size of a `Game` body before its description.
pub const GAME_FIXED_LEN: usize = 6;

impl GameV {
    /// The bytes of the packet on the wire.
    pub open spec fn wire(self) -> Seq<u8> {
        seq![pkt_type_code(self.message_type)] + le16(self.initial_points) + le16(self.stat_limit)
            + le16(self.description_len) + encode_utf8(self.description)
    }

    /// The description bytes that a body announces.
    pub open spec fn description_bytes(body: Seq<u8>) -> Seq<u8> {
        body.subrange(6, 6 + u16_of(body[4], body[5]))
    }

    /// The packet read from its body, if its description is UTF-8.
    pub open spec fn from_body(message_type: u8, body: Seq<u8>) -> Option<GameV> {
        let d = GameV::description_bytes(body);
        if valid_utf8(d) {
            Some(
                GameV {
                    message_type: pkt_type_of(message_type),
                    initial_points: u16_of(body[0], body[1]),
                    stat_limit: u16_of(body[2], body[3]),
                    description_len: u16_of(body[4], body[5]),
                    description: decode_utf8(d),
                },
            )
        } else {
            None
        }
    }
}

/// Reading back the body of a written `Game` packet gives it again, when
/// its length field is the byte length of its description.
pub proof fn lemma_game_roundtrip(g: GameV)
    requires
        g.description_len == encode_utf8(g.description).len(),
    ensures
        g.wire()[0] == pkt_type_code(g.message_type),
        g.wire().len() == 1 + GAME_FIXED_LEN + g.description_len,
        GameV::from_body(g.wire()[0], g.wire().drop_first()) == Some(g),
{
    let b = g.wire().drop_first();
    lemma_le16_roundtrip(g.initial_points);
    lemma_le16_roundtrip(g.stat_limit);
    lemma_le16_roundtrip(g.description_len);
    assert(b[0] == le16(g.initial_points)[0] && b[1] == le16(g.initial_points)[1]);
    assert(b[2] == le16(g.stat_limit)[0] && b[3] == le16(g.stat_limit)[1]);
    assert(b[4] == le16(g.description_len)[0] && b[5] == le16(g.description_len)[1]);
    assert(GameV::description_bytes(b) =~= encode_utf8(g.description));
    lemma_text_roundtrip(g.description);
    crate::protocol::pkt_type::lemma_pkt_type_code_roundtrip(g.message_type);
}

impl Game {
    /// The packet that tells a client the rules of the game.
    pub fn new(initial_points: u16, stat_limit: u16, description: &str) -> (g: Game)
        ensures
            g@ == (GameV {
                message_type: PktType::Game,
                initial_points,
                stat_limit,
                description_len: len16(description@),
                description: description@,
            }),
    {
        Game {
            message_type: PktType::Game,
            initial_points,
            stat_limit,
            description_len: text_len16(description),
            description: description.to_owned(),
        }
    }

    pub fn serialize(&self) -> (out: Vec<u8>)
        ensures
            out@ == self@.wire(),
    {
        let mut out: Vec<u8> = Vec::new();
        out.push(self.message_type.code());
        push_u16(&mut out, self.initial_points);
        push_u16(&mut out, self.stat_limit);
        push_u16(&mut out, self.description_len);
        push_str(&mut out, self.description.as_str());
        assert(out@ =~= self@.wire());
        out
    }

    /// Reads the packet; `None` when its description is not UTF-8.
    pub fn deserialize(packet: &Packet) -> (g: Option<Game>)
        requires
            packet.body@.len() >= GAME_FIXED_LEN,
            packet.body@.len() >= GAME_FIXED_LEN + u16_of(packet.body@[4], packet.body@[5]),
        ensures
            match g {
                Some(g) => GameV::from_body(packet.message_type, packet.body@) == Some(g@),
                None => GameV::from_body(packet.message_type, packet.body@) is None,
            },
    {
        let body = packet.body.as_slice();
        let dlen = read_u16(body, 4);
        let bytes = copy_range(body, GAME_FIXED_LEN, GAME_FIXED_LEN + dlen as usize);
        match text_from_bytes_strict(bytes) {
            Some(description) => Some(
                Game {
                    message_type: PktType::from(packet.message_type),
                    initial_points: read_u16(body, 0),
                    stat_limit: read_u16(body, 2),
                    description_len: dlen,
                    description,
                },
            ),
            None => None,
        }
    }
}

} // verus!
