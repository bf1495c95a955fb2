use vstd::prelude::*;

use crate::protocol::codec::{le16, push_u16};
use crate::protocol::packet::Packet;
use crate::protocol::pkt_type::{PktType, pkt_type_code, pkt_type_of};

verus! {

/// Tells a client the protocol version the server speaks.
pub struct Version {
    pub message_type: PktType,
    pub major_rev: u8,
    pub minor_rev: u8,
    pub extension_len: u16,
    pub extensions: Option<Vec<u8>>,
}

/// The value of a `Version` packet.
pub struct VersionV {
    pub message_type: PktType,
    pub major_rev: u8,
    pub minor_rev: u8,
    pub extension_len: u16,
    pub extensions: Option<Seq<u8>>,
}

impl View for Version {
    type V = VersionV;

    open spec fn view(&self) -> VersionV {
        VersionV {
            message_type: self.message_type,
            major_rev: self.major_rev,
            minor_rev: self.minor_rev,
            extension_len: self.extension_len,
            extensions: match self.extensions {
                Some(e) => Some(e@),
                None => None,
            },
        }
    }
}

/// Size of a `Version` body before its extensions.
pub const VERSION_FIXED_LEN: usize = 4;

impl VersionV {
    /// The bytes of the packet on the wire.
    pub open spec fn wire(self) -> Seq<u8> {
        seq![pkt_type_code(self.message_type), self.major_rev, self.minor_rev] + le16(
            self.extension_len,
        ) + match self.extensions {
            Some(e) => e,
            None => Seq::empty(),
        }
    }

    /// The packet read from its body; the extensions are not read.
    pub open spec fn from_body(message_type: u8, body: Seq<u8>) -> VersionV {
        VersionV {
            message_type: pkt_type_of(message_type),
            major_rev: body[0],
            minor_rev: body[1],
            extension_len: 0,
            extensions: None,
        }
    }
}

/// Reading back the body of a written version without extensions gives it
/// again.
pub proof fn lemma_version_roundtrip(v: VersionV)
    requires
        v.extension_len == 0,
        v.extensions is None,
    ensures
        v.wire().len() == 1 + VERSION_FIXED_LEN,
        v.wire()[0] == pkt_type_code(v.message_type),
        VersionV::from_body(v.wire()[0], v.wire().drop_first()) == v,
{
    crate::protocol::pkt_type::lemma_pkt_type_code_roundtrip(v.message_type);
}

impl Version {
    /// The packet that announces protocol version `major.minor`, with no
    /// extensions.
    pub fn new(major_rev: u8, minor_rev: u8) -> (v: Version)
        ensures
            v@ == (VersionV {
                message_type: PktType::Version,
                major_rev,
                minor_rev,
                extension_len: 0,
                extensions: None,
            }),
    {
        Version {
            message_type: PktType::Version,
            major_rev,
            minor_rev,
            extension_len: 0,
            extensions: None,
        }
    }

    pub fn serialize(&self) -> (out: Vec<u8>)
        ensures
            out@ == self@.wire(),
    {
        let mut out: Vec<u8> = Vec::new();
        out.push(self.message_type.code());
        out.push(self.major_rev);
        out.push(self.minor_rev);
        push_u16(&mut out, self.extension_len);
        match &self.extensions {
            Some(e) => {
                let mut i: usize = 0;
                let ghost start = out@;
                while i < e.len()
                    invariant
                        i <= e@.len(),
                        out@ == start + e@.take(i as int),
                    decreases e@.len() - i,
                {
                    out.push(e[i]);
                    assert(e@.take(i + 1) =~= e@.take(i as int).push(e@[i as int]));
                    i = i + 1;
                }
                assert(e@.take(e@.len() as int) =~= e@);
            },
            None => {},
        }
        assert(out@ =~= self@.wire());
        out
    }

    pub fn deserialize(packet: &Packet) -> (v: Version)
        requires
            packet.body@.len() >= 2,
        ensures
            v@ == VersionV::from_body(packet.message_type, packet.body@),
    {
        Version {
            message_type: PktType::from(packet.message_type),
            major_rev: packet.body[0],
            minor_rev: packet.body[1],
            extension_len: 0,
            extensions: None,
        }
    }
}

} // verus!
