use vstd::prelude::*;

use crate::protocol::packet::Packet;
use crate::protocol::pkt_type::{PktType, pkt_type_code, pkt_type_of};

verus! {

/// A client's request to fight the monsters of its room.
#[derive(Clone, Copy, Debug, PartialEq, Eq, Structural)]
pub struct Fight {
    pub message_type: PktType,
}

impl Default for Fight {
    fn default() -> (f: Fight)
        ensures
            f.message_type == PktType::Fight,
    {
        Fight { message_type: PktType::Fight }
    }
}

impl Fight {
    /// The bytes of the packet on the wire.
    pub open spec fn wire(self) -> Seq<u8> {
        seq![pkt_type_code(self.message_type)]
    }

    pub fn serialize(&self) -> (out: Vec<u8>)
        ensures
            out@ == self.wire(),
    {
        let mut out: Vec<u8> = Vec::new();
        out.push(self.message_type.code());
        assert(out@ =~= self.wire());
        out
    }

    pub fn deserialize(packet: &Packet) -> (f: Fight)
        ensures
            f.message_type == pkt_type_of(packet.message_type),
    {
        Fight { message_type: PktType::from(packet.message_type) }
    }
}

} // verus!
