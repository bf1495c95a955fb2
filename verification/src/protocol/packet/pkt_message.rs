use vstd::prelude::*;
use vstd::string::StringSliceAdditionalSpecFns;
use vstd::utf8::encode_utf8;

use crate::protocol::codec::{
    copy_range, copy_trim_nul, copy_until_nul, le16, len16, lemma_le16_roundtrip,
    lemma_text_roundtrip, lemma_trim_padded, lemma_until_nul_padded, nul_free, padded,
    push_padded, push_str, push_u16, read_u16, text_from_bytes_lossy, text_len16, text_of,
    trim_nul_end, u16_of, until_nul,
};
use crate::protocol::packet::Packet;
use crate::protocol::pkt_type::{PktType, pkt_type_code, pkt_type_of};

verus! {

/// A chat message between players, or a notice from the server or the
/// narrator.
pub struct Message {
    pub message_type: PktType,
    pub message_len: u16,
    pub recipient: String,
    pub sender: String,
    pub narration: bool,
    pub message: String,
}

/// The value of a `Message` packet.
pub struct MessageV {
    pub message_type: PktType,
    pub message_len: u16,
    pub recipient: Seq<char>,
    pub sender: Seq<char>,
    pub narration: bool,
    pub message: Seq<char>,
}

impl View for Message {
    type V = MessageV;

    open spec fn view(&self) -> MessageV {
        MessageV {
            message_type: self.message_type,
            message_len: self.message_len,
            recipient: self.recipient@,
            sender: self.sender@,
            narration: self.narration,
            message: self.message@,
        }
    }
}

/// Size of a `Message` body before its text.
pub const MESSAGE_FIXED_LEN: usize = 66;

impl MessageV {
    /// The bytes of the packet on the wire. The sender field keeps 30 bytes
    /// of the name; its last two bytes are `0, 1` for narration, else zero.
    pub open spec fn wire(self) -> Seq<u8> {
        seq![pkt_type_code(self.message_type)] + le16(self.message_len) + padded(
            encode_utf8(self.recipient),
            32,
        ) + padded(encode_utf8(self.sender), 30) + (if self.narration {
            seq![0u8, 1u8]
        } else {
            seq![0u8, 0u8]
        }) + encode_utf8(self.message)
    }

    /// Whether a body carries the narration marker: its sender field ends
    /// in the bytes `0, 1`.
    pub open spec fn marks_narration(body: Seq<u8>) -> bool {
        body[64] == 0 && body[65] == 1
    }

    /// The packet read from its body. A sender field that ends in the
    /// narration marker is narration, its sender the 30 bytes before the
    /// marker; otherwise the sender is the whole field. Zero bytes at the
    /// end of the sender are dropped.
    pub open spec fn from_body(message_type: u8, body: Seq<u8>) -> MessageV {
        let narration = MessageV::marks_narration(body);
        let sender_end = if narration {
            64
        } else {
            66
        };
        MessageV {
            message_type: pkt_type_of(message_type),
            message_len: u16_of(body[0], body[1]),
            recipient: text_of(until_nul(body.subrange(2, 34))),
            sender: text_of(trim_nul_end(body.subrange(34, sender_end))),
            narration,
            message: text_of(body.subrange(66, body.len() as int)),
        }
    }

    /// A message from `sender` to `recipient`.
    pub open spec fn of(
        sender: Seq<char>,
        recipient: Seq<char>,
        message: Seq<char>,
        narration: bool,
    ) -> MessageV {
        MessageV {
            message_type: PktType::Message,
            message_len: len16(message),
            recipient,
            sender,
            narration,
            message,
        }
    }

    /// A notice from the server to `recipient`.
    pub open spec fn server(recipient: Seq<char>, message: Seq<char>) -> MessageV {
        MessageV::of("Server"@, recipient, message, false)
    }

    /// A narration to `recipient`.
    pub open spec fn narrator(recipient: Seq<char>, message: Seq<char>) -> MessageV {
        MessageV::of("Narrator"@, recipient, message, true)
    }

    /// Whether the message can be written and read back unchanged: the
    /// recipient fits its field with no zero byte, and the sender fits its
    /// 30 bytes and does not end in a zero byte.
    pub open spec fn wire_ok(self) -> bool {
        let r = encode_utf8(self.recipient);
        let s = encode_utf8(self.sender);
        &&& r.len() <= 32
        &&& nul_free(r)
        &&& s.len() <= 30
        &&& (s.len() == 0 || s.last() != 0)
    }
}

/// Reading back the body of a written message gives it again.
pub proof fn lemma_message_roundtrip(m: MessageV)
    requires
        m.wire_ok(),
    ensures
        m.wire().len() >= 1 + MESSAGE_FIXED_LEN,
        m.wire()[0] == pkt_type_code(m.message_type),
        MessageV::from_body(m.wire()[0], m.wire().drop_first()) == m,
{
    let b = m.wire().drop_first();
    let rb = encode_utf8(m.recipient);
    let sb = encode_utf8(m.sender);
    assert(b.subrange(2, 34) =~= padded(rb, 32));
    lemma_until_nul_padded(rb, 32);
    if m.narration {
        assert(b[64] == 0 && b[65] == 1);
        assert(b.subrange(34, 64) =~= padded(sb, 30));
        lemma_trim_padded(sb, 30);
    } else {
        assert(b[65] == 0);
        assert(b.subrange(34, 66) =~= padded(sb, 32));
        lemma_trim_padded(sb, 32);
    }
    lemma_text_roundtrip(m.recipient);
    lemma_text_roundtrip(m.sender);
    lemma_text_roundtrip(m.message);
    assert(b.subrange(66, b.len() as int) =~= encode_utf8(m.message));
    lemma_le16_roundtrip(m.message_len);
    assert(b[0] == le16(m.message_len)[0] && b[1] == le16(m.message_len)[1]);
    crate::protocol::pkt_type::lemma_pkt_type_code_roundtrip(m.message_type);
}

impl Message {
    /// A message from `sender` to `recipient`.
    pub fn new(sender: &str, recipient: &str, message: &str, narration: bool) -> (m: Message)
        ensures
            m@ == MessageV::of(sender@, recipient@, message@, narration),
    {
        Message {
            message_type: PktType::Message,
            message_len: text_len16(message),
            recipient: recipient.to_owned(),
            sender: sender.to_owned(),
            narration,
            message: message.to_owned(),
        }
    }

    /// A notice from the server to `recipient`.
    pub fn server(recipient: &str, message: &str) -> (m: Message)
        ensures
            m@ == MessageV::server(recipient@, message@),
    {
        Message::new("Server", recipient, message, false)
    }

    /// A narration to `recipient`.
    pub fn narrator(recipient: &str, message: &str) -> (m: Message)
        ensures
            m@ == MessageV::narrator(recipient@, message@),
    {
        Message::new("Narrator", recipient, message, true)
    }

    /// A copy of this message.
    pub fn copy(&self) -> (m: Message)
        ensures
            m@ == self@,
    {
        Message {
            message_type: self.message_type,
            message_len: self.message_len,
            recipient: self.recipient.clone(),
            sender: self.sender.clone(),
            narration: self.narration,
            message: self.message.clone(),
        }
    }

    pub fn serialize(&self) -> (out: Vec<u8>)
        ensures
            out@ == self@.wire(),
    {
        let mut out: Vec<u8> = Vec::new();
        out.push(self.message_type.code());
        push_u16(&mut out, self.message_len);
        push_padded(&mut out, self.recipient.as_str(), 32);
        push_padded(&mut out, self.sender.as_str(), 30);
        if self.narration {
            out.push(0u8);
            out.push(1u8);
        } else {
            out.push(0u8);
            out.push(0u8);
        }
        push_str(&mut out, self.message.as_str());
        assert(out@ =~= self@.wire());
        out
    }

    pub fn deserialize(packet: &Packet) -> (m: Message)
        requires
            packet.body@.len() >= MESSAGE_FIXED_LEN,
        ensures
            m@ == MessageV::from_body(packet.message_type, packet.body@),
    {
        let body = packet.body.as_slice();
        let r = copy_until_nul(body, 2, 34);
        let narration = body[64] == 0 && body[65] == 1;
        let sender_end: usize = if narration {
            64
        } else {
            MESSAGE_FIXED_LEN
        };
        let s = copy_trim_nul(body, 34, sender_end);
        let t = copy_range(body, MESSAGE_FIXED_LEN, body.len());
        Message {
            message_type: PktType::from(packet.message_type),
            message_len: read_u16(body, 0),
            recipient: text_from_bytes_lossy(r.as_slice()),
            sender: text_from_bytes_lossy(s.as_slice()),
            narration,
            message: text_from_bytes_lossy(t.as_slice()),
        }
    }
}

} // verus!
