use vstd::prelude::*;

use crate::protocol::packet::Packet;
use crate::protocol::pkt_type::{PktType, pkt_type_code, pkt_type_of};

verus! {

/// A client's notice that it leaves the game.
#[derive(Clone, Copy, Debug, PartialEq, Eq, Structural)]
pub struct Leave {
    pub message_type: PktType,
}

impl Default for Leave {
    fn default() -> (f: Leave)
        ensures
            f.message_type == PktType::Leave,
    {
        Leave { message_type: PktType::Leave }
    }
}

impl Leave {
    /// The bytes of the packet on the wire.
    pub open spec fn wire(self) -> Seq<u8> {
        seq![pkt_type_code(self.message_type)]
    }

    pub fn serialize(&self) -> (out: Vec<u8>)
        ensures
            out@ == self.wire(),
    {
        let mut out: Vec<u8> = Vec::new();
        out.push(self.message_type.code());
        assert(out@ =~= self.wire());
        out
    }

    pub fn deserialize(packet: &Packet) -> (f: Leave)
        ensures
            f.message_type == pkt_type_of(packet.message_type),
    {
        Leave { message_type: PktType::from(packet.message_type) }
    }
}

} // verus!
