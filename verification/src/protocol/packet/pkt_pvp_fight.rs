use vstd::prelude::*;
use vstd::string::StringSliceAdditionalSpecFns;
use vstd::utf8::encode_utf8;

use crate::protocol::codec::{
    copy_trim_nul, lemma_text_roundtrip, lemma_trim_padded, padded, push_padded,
    text_from_bytes_lossy, text_of, trim_nul_end,
};
use crate::protocol::packet::Packet;
use crate::protocol::packet::pkt_connection::trimmed_name_ok;
use crate::protocol::packet::pkt_loot::TARGET_LEN;
use crate::protocol::pkt_type::{PktType, pkt_type_code, pkt_type_of};

verus! {

/// A client's request to fight another player.
pub struct PVPFight {
    pub message_type: PktType,
    pub target_name: String,
}

/// The value of a `PVPFight` packet.
pub struct PVPFightV {
    pub message_type: PktType,
    pub target_name: Seq<char>,
}

impl View for PVPFight {
    type V = PVPFightV;

    open spec fn view(&self) -> PVPFightV {
        PVPFightV { message_type: self.message_type, target_name: self.target_name@ }
    }
}

impl PVPFightV {
    /// The bytes of the packet on the wire.
    pub open spec fn wire(self) -> Seq<u8> {
        seq![pkt_type_code(self.message_type)] + padded(encode_utf8(self.target_name), 32)
    }

    /// The packet read from its body.
    pub open spec fn from_body(message_type: u8, body: Seq<u8>) -> PVPFightV {
        PVPFightV {
            message_type: pkt_type_of(message_type),
            target_name: text_of(trim_nul_end(body.subrange(0, 32))),
        }
    }
}

/// Reading back the body of a written packet gives it again.
pub proof fn lemma_pvp_fight_roundtrip(l: PVPFightV)
    requires
        trimmed_name_ok(l.target_name),
    ensures
        l.wire().len() == 1 + TARGET_LEN,
        l.wire()[0] == pkt_type_code(l.message_type),
        PVPFightV::from_body(l.wire()[0], l.wire().drop_first()) == l,
{
    let b = l.wire().drop_first();
    let nb = encode_utf8(l.target_name);
    assert(b.subrange(0, 32) =~= padded(nb, 32));
    lemma_trim_padded(nb, 32);
    lemma_text_roundtrip(l.target_name);
    crate::protocol::pkt_type::lemma_pkt_type_code_roundtrip(l.message_type);
}

impl PVPFight {
    pub fn serialize(&self) -> (out: Vec<u8>)
        ensures
            out@ == self@.wire(),
    {
        let mut out: Vec<u8> = Vec::new();
        out.push(self.message_type.code());
        push_padded(&mut out, self.target_name.as_str(), TARGET_LEN);
        assert(out@ =~= self@.wire());
        out
    }

    pub fn deserialize(packet: &Packet) -> (l: PVPFight)
        requires
            packet.body@.len() >= TARGET_LEN,
        ensures
            l@ == PVPFightV::from_body(packet.message_type, packet.body@),
    {
        let body = packet.body.as_slice();
        let name = copy_trim_nul(body, 0, TARGET_LEN);
        PVPFight {
            message_type: PktType::from(packet.message_type),
            target_name: text_from_bytes_lossy(name.as_slice()),
        }
    }
}

} // verus!
