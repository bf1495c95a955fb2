use vstd::prelude::*;

use crate::protocol::packet::Packet;
use crate::protocol::pkt_type::{PktType, pkt_type_code, pkt_type_of};

verus! {

/// Tells a client that the server accepted a packet of some kind.
#[derive(Clone, Copy, Debug, PartialEq, Eq, Structural)]
pub struct Accept {
    pub message_type: PktType,
    pub accept_type: u8,
}

impl Accept {
    /// The bytes of the packet on the wire.
    pub open spec fn wire(self) -> Seq<u8> {
        seq![pkt_type_code(self.message_type), self.accept_type]
    }

    /// The packet read from its body.
    pub open spec fn from_body(message_type: u8, body: Seq<u8>) -> Accept {
        Accept { message_type: pkt_type_of(message_type), accept_type: body[0] }
    }

    /// An `Accept` for packets of kind `accept_type`.
    pub fn new(accept_type: PktType) -> (a: Accept)
        ensures
            a.message_type == PktType::Accept,
            a.accept_type == pkt_type_code(accept_type),
    {
        Accept { message_type: PktType::Accept, accept_type: accept_type.code() }
    }

    pub fn serialize(&self) -> (out: Vec<u8>)
        ensures
            out@ == self.wire(),
    {
        let mut out: Vec<u8> = Vec::new();
        out.push(self.message_type.code());
        out.push(self.accept_type);
        assert(out@ =~= self.wire());
        out
    }

    pub fn deserialize(packet: &Packet) -> (a: Accept)
        requires
            packet.body@.len() >= 1,
        ensures
            a == Accept::from_body(packet.message_type, packet.body@),
    {
        Accept { message_type: PktType::from(packet.message_type), accept_type: packet.body[0] }
    }
}

} // verus!
