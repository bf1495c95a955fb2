use vstd::prelude::*;
use vstd::string::StringSliceAdditionalSpecFns;
use vstd::utf8::encode_utf8;

use crate::protocol::ClientId;
use crate::protocol::codec::{
    lemma_le16_roundtrip, lemma_le16_signed_roundtrip, lemma_text_roundtrip,
    lemma_until_nul_padded, nul_free, copy_range, copy_until_nul, i16_of, le16, le16_signed, padded, push_i16, push_padded,
    push_str, push_u16, read_i16, read_u16, text_from_bytes_lossy, u16_of, until_nul, text_of,
};
use crate::protocol::flags::{CharacterFlags, KNOWN_BITS};
use crate::protocol::packet::Packet;
use crate::protocol::pkt_type::{PktType, pkt_type_code, pkt_type_of};

verus! {

/// A player or a monster, as the Lurk `Character` packet describes it.
/// `author` is the client that plays the character, if any.
pub struct Character {
    pub author: Option<ClientId>,
    pub message_type: PktType,
    pub name: String,
    pub flags: CharacterFlags,
    pub attack: u16,
    pub defense: u16,
    pub regen: u16,
    pub health: i16,
    pub gold: u16,
    pub current_room: u16,
    pub description_len: u16,
    pub description: String,
}

/// The value of a `Character`: its text as characters, its flags as a byte.
pub struct CharacterV {
    pub author: Option<ClientId>,
    pub message_type: PktType,
    pub name: Seq<char>,
    pub flags: u8,
    pub attack: u16,
    pub defense: u16,
    pub regen: u16,
    pub health: i16,
    pub gold: u16,
    pub current_room: u16,
    pub description_len: u16,
    pub description: Seq<char>,
}

impl View for Character {
    type V = CharacterV;

    open spec fn view(&self) -> CharacterV {
        CharacterV {
            author: self.author,
            message_type: self.message_type,
            name: self.name@,
            flags: self.flags.spec_bits(),
            attack: self.attack,
            defense: self.defense,
            regen: self.regen,
            health: self.health,
            gold: self.gold,
            current_room: self.current_room,
            description_len: self.description_len,
            description: self.description@,
        }
    }
}

/// Size of a `Character` body before its description.
pub const CHARACTER_FIXED_LEN: usize = 47;

impl CharacterV {
    /// The bytes of the packet on the wire.
    pub open spec fn wire(self) -> Seq<u8> {
        seq![pkt_type_code(self.message_type)] + padded(encode_utf8(self.name), 32) + seq![
            self.flags,
        ] + le16(self.attack) + le16(self.defense) + le16(self.regen) + le16_signed(self.health)
            + le16(self.gold) + le16(self.current_room) + le16(self.description_len) + encode_utf8(
            self.description,
        )
    }

    /// The character read from a body that `author` sent.
    pub open spec fn from_body(author: ClientId, message_type: u8, body: Seq<u8>) -> CharacterV {
        CharacterV {
            author: Some(author),
            message_type: pkt_type_of(message_type),
            name: text_of(until_nul(body.subrange(0, 32))),
            flags: body[32] & KNOWN_BITS,
            attack: u16_of(body[33], body[34]),
            defense: u16_of(body[35], body[36]),
            regen: u16_of(body[37], body[38]),
            health: i16_of(body[39], body[40]),
            gold: u16_of(body[41], body[42]),
            current_room: u16_of(body[43], body[44]),
            description_len: u16_of(body[45], body[46]),
            description: text_of(body.subrange(47, body.len() as int)),
        }
    }

    /// Whether the character can be written and read back unchanged: its
    /// name fits the 32-byte field and holds no zero byte, and its flags use
    /// only the known bits.
    pub open spec fn wire_ok(self) -> bool {
        &&& encode_utf8(self.name).len() <= 32
        &&& nul_free(encode_utf8(self.name))
        &&& self.flags & KNOWN_BITS == self.flags
    }

    /// A copy of a character with the stats a newly joined player starts
    /// with.
    pub open spec fn with_defaults(self) -> CharacterV {
        CharacterV { health: 100, gold: 0, current_room: 0, flags: 0xc0, ..self }
    }
}

/// Reading back the body of a written character gives the character again,
/// now authored by the client that sent it.
pub proof fn lemma_character_roundtrip(c: CharacterV, author: ClientId)
    requires
        c.wire_ok(),
    ensures
        c.wire().len() >= 1 + CHARACTER_FIXED_LEN,
        c.wire()[0] == pkt_type_code(c.message_type),
        CharacterV::from_body(author, c.wire()[0], c.wire().drop_first()) == (CharacterV {
            author: Some(author),
            ..c
        }),
{
    let w = c.wire();
    let b = w.drop_first();
    let nb = encode_utf8(c.name);
    let db = encode_utf8(c.description);
    assert(padded(nb, 32).len() == 32);
    assert(b.subrange(0, 32) =~= padded(nb, 32));
    lemma_until_nul_padded(nb, 32);
    lemma_text_roundtrip(c.name);
    lemma_text_roundtrip(c.description);
    assert(b.subrange(47, b.len() as int) =~= db);
    assert(b[32] == c.flags);
    lemma_le16_roundtrip(c.attack);
    lemma_le16_roundtrip(c.defense);
    lemma_le16_roundtrip(c.regen);
    lemma_le16_signed_roundtrip(c.health);
    lemma_le16_roundtrip(c.gold);
    lemma_le16_roundtrip(c.current_room);
    lemma_le16_roundtrip(c.description_len);
    assert(b[33] == le16(c.attack)[0] && b[34] == le16(c.attack)[1]);
    assert(b[35] == le16(c.defense)[0] && b[36] == le16(c.defense)[1]);
    assert(b[37] == le16(c.regen)[0] && b[38] == le16(c.regen)[1]);
    assert(b[39] == le16_signed(c.health)[0] && b[40] == le16_signed(c.health)[1]);
    assert(b[41] == le16(c.gold)[0] && b[42] == le16(c.gold)[1]);
    assert(b[43] == le16(c.current_room)[0] && b[44] == le16(c.current_room)[1]);
    assert(b[45] == le16(c.description_len)[0] && b[46] == le16(c.description_len)[1]);
    crate::protocol::pkt_type::lemma_pkt_type_code_roundtrip(c.message_type);
}

impl Character {
    /// A copy of this character.
    pub fn copy(&self) -> (c: Character)
        ensures
            c@ == self@,
    {
        Character {
            author: self.author,
            message_type: self.message_type,
            name: self.name.clone(),
            flags: self.flags,
            attack: self.attack,
            defense: self.defense,
            regen: self.regen,
            health: self.health,
            gold: self.gold,
            current_room: self.current_room,
            description_len: self.description_len,
            description: self.description.clone(),
        }
    }

    /// The character a new player starts as, taken from the one the client
    /// sent: full health, no gold, in the first room, alive and joining
    /// battles but not yet ready.
    pub fn with_defaults_from(incoming: &Character) -> (c: Character)
        ensures
            c@ == incoming@.with_defaults(),
    {
        Character {
            health: 100,
            gold: 0,
            current_room: 0,
            flags: CharacterFlags::reset(),
            ..incoming.copy()
        }
    }

    pub fn serialize(&self) -> (out: Vec<u8>)
        ensures
            out@ == self@.wire(),
    {
        let mut out: Vec<u8> = Vec::new();
        out.push(self.message_type.code());
        push_padded(&mut out, self.name.as_str(), 32);
        out.push(self.flags.bits());
        push_u16(&mut out, self.attack);
        push_u16(&mut out, self.defense);
        push_u16(&mut out, self.regen);
        push_i16(&mut out, self.health);
        push_u16(&mut out, self.gold);
        push_u16(&mut out, self.current_room);
        push_u16(&mut out, self.description_len);
        push_str(&mut out, self.description.as_str());
        assert(out@ =~= self@.wire());
        out
    }

    pub fn deserialize(packet: &Packet) -> (c: Character)
        requires
            packet.body@.len() >= CHARACTER_FIXED_LEN,
        ensures
            c@ == CharacterV::from_body(packet.author, packet.message_type, packet.body@),
    {
        let body = packet.body.as_slice();
        let name_bytes = copy_until_nul(body, 0, 32);
        let desc_bytes = copy_range(body, CHARACTER_FIXED_LEN, body.len());
        let c = Character {
            author: Some(packet.author),
            message_type: PktType::from(packet.message_type),
            name: text_from_bytes_lossy(name_bytes.as_slice()),
            flags: CharacterFlags::from_bits_truncate(body[32]),
            attack: read_u16(body, 33),
            defense: read_u16(body, 35),
            regen: read_u16(body, 37),
            health: read_i16(body, 39),
            gold: read_u16(body, 41),
            current_room: read_u16(body, 43),
            description_len: read_u16(body, 45),
            description: text_from_bytes_lossy(desc_bytes.as_slice()),
        };
        c
    }
}

} // verus!
