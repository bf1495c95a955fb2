use vstd::prelude::*;
use vstd::string::StringSliceAdditionalSpecFns;
use vstd::utf8::encode_utf8;

use crate::protocol::codec::{
    copy_range, copy_trim_nul, lemma_le16_roundtrip, lemma_text_roundtrip, lemma_trim_padded,
    le16, padded, push_padded, push_str, push_u16, read_u16, text_from_bytes_lossy, text_of,
    trim_nul_end, u16_of,
};
use crate::protocol::packet::Packet;
use crate::protocol::pkt_type::{PktType, pkt_type_code, pkt_type_of};

verus! {

/// Tells a client about an exit from its room to another room.
pub struct Connection {
    pub message_type: PktType,
    pub room_number: u16,
    pub room_name: String,
    pub description_len: u16,
    pub description: String,
}

/// The value of a `Connection` packet.
pub struct ConnectionV {
    pub message_type: PktType,
    pub room_number: u16,
    pub room_name: Seq<char>,
    pub description_len: u16,
    pub description: Seq<char>,
}

impl View for Connection {
    type V = ConnectionV;

    open spec fn view(&self) -> ConnectionV {
        ConnectionV {
            message_type: self.message_type,
            room_number: self.room_number,
            room_name: self.room_name@,
            description_len: self.description_len,
            description: self.description@,
        }
    }
}

/// Size of a `Connection` or `Room` body before its description.
pub const ROOM_FIXED_LEN: usize = 36;

/// Whether a name can be written to a 32-byte field and read back with its
/// trailing zero bytes trimmed: it fits, and its last byte is not zero.
pub open spec fn trimmed_name_ok(name: Seq<char>) -> bool {
    let b = encode_utf8(name);
    &&& b.len() <= 32
    &&& (b.len() == 0 || b.last() != 0)
}

impl ConnectionV {
    /// The bytes of the packet on the wire.
    pub open spec fn wire(self) -> Seq<u8> {
        seq![pkt_type_code(self.message_type)] + le16(self.room_number) + padded(
            encode_utf8(self.room_name),
            32,
        ) + le16(self.description_len) + encode_utf8(self.description)
    }

    /// The packet read from its body.
    pub open spec fn from_body(message_type: u8, body: Seq<u8>) -> ConnectionV {
        ConnectionV {
            message_type: pkt_type_of(message_type),
            room_number: u16_of(body[0], body[1]),
            room_name: text_of(trim_nul_end(body.subrange(2, 34))),
            description_len: u16_of(body[34], body[35]),
            description: text_of(body.subrange(36, body.len() as int)),
        }
    }
}

/// Reading back the body of a written connection gives it again.
pub proof fn lemma_connection_roundtrip(c: ConnectionV)
    requires
        trimmed_name_ok(c.room_name),
    ensures
        c.wire().len() >= 1 + ROOM_FIXED_LEN,
        c.wire()[0] == pkt_type_code(c.message_type),
        ConnectionV::from_body(c.wire()[0], c.wire().drop_first()) == c,
{
    let b = c.wire().drop_first();
    let nb = encode_utf8(c.room_name);
    assert(padded(nb, 32).len() == 32);
    assert(b.subrange(2, 34) =~= padded(nb, 32));
    lemma_trim_padded(nb, 32);
    lemma_text_roundtrip(c.room_name);
    lemma_text_roundtrip(c.description);
    assert(b.subrange(36, b.len() as int) =~= encode_utf8(c.description));
    lemma_le16_roundtrip(c.room_number);
    lemma_le16_roundtrip(c.description_len);
    assert(b[0] == le16(c.room_number)[0] && b[1] == le16(c.room_number)[1]);
    assert(b[34] == le16(c.description_len)[0] && b[35] == le16(c.description_len)[1]);
    crate::protocol::pkt_type::lemma_pkt_type_code_roundtrip(c.message_type);
}

impl Connection {
    pub fn serialize(&self) -> (out: Vec<u8>)
        ensures
            out@ == self@.wire(),
    {
        let mut out: Vec<u8> = Vec::new();
        out.push(self.message_type.code());
        push_u16(&mut out, self.room_number);
        push_padded(&mut out, self.room_name.as_str(), 32);
        push_u16(&mut out, self.description_len);
        push_str(&mut out, self.description.as_str());
        assert(out@ =~= self@.wire());
        out
    }

    pub fn deserialize(packet: &Packet) -> (c: Connection)
        requires
            packet.body@.len() >= ROOM_FIXED_LEN,
        ensures
            c@ == ConnectionV::from_body(packet.message_type, packet.body@),
    {
        let body = packet.body.as_slice();
        let name_bytes = copy_trim_nul(body, 2, 34);
        let desc_bytes = copy_range(body, ROOM_FIXED_LEN, body.len());
        Connection {
            message_type: PktType::from(packet.message_type),
            room_number: read_u16(body, 0),
            room_name: text_from_bytes_lossy(name_bytes.as_slice()),
            description_len: read_u16(body, 34),
            description: text_from_bytes_lossy(desc_bytes.as_slice()),
        }
    }
}

} // verus!
