use vstd::prelude::*;
use vstd::string::StringSliceAdditionalSpecFns;
use vstd::utf8::encode_utf8;

use crate::protocol::codec::{
    copy_trim_nul, le16, len16, lemma_le16_roundtrip, lemma_text_roundtrip, lemma_trim_padded,
    push_str, push_u16, read_u16, text_from_bytes_lossy, text_len16, text_of, trim_nul_end,
    u16_of, padded,
};
use crate::protocol::error::{ErrorCode, error_code_byte, error_code_of};
use crate::protocol::packet::Packet;
use crate::protocol::pkt_type::{PktType, pkt_type_code, pkt_type_of};

verus! {

/// Tells a client why its last request failed.
pub struct Error {
    pub message_type: PktType,
    pub error: ErrorCode,
    pub message_len: u16,
    pub message: String,
}

/// The value of an `Error` packet.
pub struct ErrorV {
    pub message_type: PktType,
    pub error: ErrorCode,
    pub message_len: u16,
    pub message: Seq<char>,
}

impl View for Error {
    type V = ErrorV;

    open spec fn view(&self) -> ErrorV {
        ErrorV {
            message_type: self.message_type,
            error: self.error,
            message_len: self.message_len,
            message: self.message@,
        }
    }
}

/// Size of an `Error` body before its message.
pub const ERROR_FIXED_LEN: usize = 3;

impl ErrorV {
    /// The bytes of the packet on the wire.
    pub open spec fn wire(self) -> Seq<u8> {
        seq![pkt_type_code(self.message_type), error_code_byte(self.error)] + le16(
            self.message_len,
        ) + encode_utf8(self.message)
    }

    /// The packet read from its body.
    pub open spec fn from_body(message_type: u8, body: Seq<u8>) -> ErrorV {
        ErrorV {
            message_type: pkt_type_of(message_type),
            error: error_code_of(body[0]),
            message_len: u16_of(body[1], body[2]),
            message: text_of(trim_nul_end(body.subrange(3, body.len() as int))),
        }
    }

    /// The error packet with code `code` and text `message`.
    pub open spec fn of(code: ErrorCode, message: Seq<char>) -> ErrorV {
        ErrorV {
            message_type: PktType::Error,
            error: code,
            message_len: len16(message),
            message: message,
        }
    }
}

/// Reading back the body of a written error gives it again, when its text
/// does not end in a zero byte.
pub proof fn lemma_error_roundtrip(e: ErrorV)
    requires
        encode_utf8(e.message).len() == 0 || encode_utf8(e.message).last() != 0,
    ensures
        e.wire().len() >= 1 + ERROR_FIXED_LEN,
        e.wire()[0] == pkt_type_code(e.message_type),
        ErrorV::from_body(e.wire()[0], e.wire().drop_first()) == e,
{
    let b = e.wire().drop_first();
    let mb = encode_utf8(e.message);
    assert(b.subrange(3, b.len() as int) =~= mb);
    assert(padded(mb, mb.len()) =~= mb);
    lemma_trim_padded(mb, mb.len());
    lemma_text_roundtrip(e.message);
    lemma_le16_roundtrip(e.message_len);
    assert(b[1] == le16(e.message_len)[0] && b[2] == le16(e.message_len)[1]);
    crate::protocol::error::lemma_error_code_roundtrip(e.error);
    crate::protocol::pkt_type::lemma_pkt_type_code_roundtrip(e.message_type);
}

impl Error {
    /// The error packet with code `error` and text `message`.
    pub fn new(error: ErrorCode, message: &str) -> (e: Error)
        ensures
            e@ == ErrorV::of(error, message@),
    {
        let s = message.to_owned();
        Error {
            message_type: PktType::Error,
            error,
            message_len: text_len16(message),
            message: s,
        }
    }

    pub fn serialize(&self) -> (out: Vec<u8>)
        ensures
            out@ == self@.wire(),
    {
        let mut out: Vec<u8> = Vec::new();
        out.push(self.message_type.code());
        out.push(self.error.code());
        push_u16(&mut out, self.message_len);
        push_str(&mut out, self.message.as_str());
        assert(out@ =~= self@.wire());
        out
    }

    pub fn deserialize(packet: &Packet) -> (e: Error)
        requires
            packet.body@.len() >= ERROR_FIXED_LEN,
        ensures
            e@ == ErrorV::from_body(packet.message_type, packet.body@),
    {
        let body = packet.body.as_slice();
        let text = copy_trim_nul(body, ERROR_FIXED_LEN, body.len());
        Error {
            message_type: PktType::from(packet.message_type),
            error: ErrorCode::from(body[0]),
            message_len: read_u16(body, 1),
            message: text_from_bytes_lossy(text.as_slice()),
        }
    }
}

} // verus!
