use vstd::prelude::*;

use crate::protocol::codec::{le16, push_u16, read_u16, u16_of};
use crate::protocol::packet::Packet;
use crate::protocol::pkt_type::{PktType, pkt_type_code, pkt_type_of};

verus! {

/// A client's request to move to another room.
#[derive(Clone, Copy, Debug, PartialEq, Eq, Structural)]
pub struct ChangeRoom {
    pub message_type: PktType,
    pub room_number: u16,
}

impl ChangeRoom {
    /// The bytes of the packet on the wire.
    pub open spec fn wire(self) -> Seq<u8> {
        seq![pkt_type_code(self.message_type)] + le16(self.room_number)
    }

    /// The packet read from its body.
    pub open spec fn from_body(message_type: u8, body: Seq<u8>) -> ChangeRoom {
        ChangeRoom { message_type: pkt_type_of(message_type), room_number: u16_of(body[0], body[1]) }
    }

    pub fn serialize(&self) -> (out: Vec<u8>)
        ensures
            out@ == self.wire(),
    {
        let mut out: Vec<u8> = Vec::new();
        out.push(self.message_type.code());
        push_u16(&mut out, self.room_number);
        out
    }

    pub fn deserialize(packet: &Packet) -> (c: ChangeRoom)
        requires
            packet.body@.len() >= 2,
        ensures
            c == ChangeRoom::from_body(packet.message_type, packet.body@),
    {
        ChangeRoom {
            message_type: PktType::from(packet.message_type),
            room_number: read_u16(packet.body.as_slice(), 0),
        }
    }
}

} // verus!
