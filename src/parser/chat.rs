use vstd::prelude::*;
use vstd::utf8::*;

verus! {

/// One chat message.
#[derive(Debug, Clone)]
pub struct ChatInfo {
    /// Timestamp in milliseconds, that of the packet that carried it.
    pub timestamp_ms: u32,
    /// The nick of the sender.
    pub sender: String,
    /// The message text.
    pub message: String,
    /// The channel (all, team, squad, ...), when the payload has a byte for it.
    pub channel_type: Option<u8>,
    /// Whether the sender is an enemy, when the payload has a byte for it.
    pub is_enemy: Option<u8>,
}

/// A chat message as a value.
pub struct ChatView {
    pub timestamp_ms: u32,
    pub sender: Seq<char>,
    pub message: Seq<char>,
    pub channel_type: Option<u8>,
    pub is_enemy: Option<u8>,
}

impl View for ChatInfo {
    type V = ChatView;

    open spec fn view(&self) -> ChatView {
        ChatView {
            timestamp_ms: self.timestamp_ms,
            sender: self.sender@,
            message: self.message@,
            channel_type: self.channel_type,
            is_enemy: self.is_enemy,
        }
    }
}

/// Where the message's length byte stands: after the discarded flag byte, the
/// sender's length byte and the sender's bytes.
pub open spec fn chat_message_len_at(p: Seq<u8>) -> int {
    2 + p[1]
}

/// Where the bytes after the message start.
pub open spec fn chat_tail_at(p: Seq<u8>) -> int {
    chat_message_len_at(p) + 1 + p[chat_message_len_at(p)]
}

/// Whether the two length-prefixed strings of a chat payload fit in it.
pub open spec fn chat_fits(p: Seq<u8>) -> bool {
    &&& p.len() >= 2
    &&& chat_message_len_at(p) < p.len()
    &&& chat_tail_at(p) <= p.len()
}

pub open spec fn chat_sender_bytes(p: Seq<u8>) -> Seq<u8> {
    p.subrange(2, chat_message_len_at(p))
}

pub open spec fn chat_message_bytes(p: Seq<u8>) -> Seq<u8> {
    p.subrange(chat_message_len_at(p) + 1, chat_tail_at(p))
}

/// The chat message that payload `p` of a packet stamped `ts` holds: a flag
/// byte (discarded), the sender and the message each as a length byte and
/// UTF-8 bytes, then an optional channel byte and an optional enemy byte.
pub open spec fn chat_of(p: Seq<u8>, ts: u32) -> Option<ChatView> {
    if chat_fits(p) && valid_utf8(chat_sender_bytes(p)) && valid_utf8(chat_message_bytes(p)) {
        let t = chat_tail_at(p);
        Some(
            ChatView {
                timestamp_ms: ts,
                sender: decode_utf8(chat_sender_bytes(p)),
                message: decode_utf8(chat_message_bytes(p)),
                channel_type: if p.len() - t >= 1 {
                    Some(p[t])
                } else {
                    None
                },
                is_enemy: if p.len() - t >= 2 {
                    Some(p[t + 1])
                } else {
                    None
                },
            },
        )
    } else {
        None
    }
}

/// Relies on `String::from_utf8`: it takes the bytes as the string exactly
/// when they are valid UTF-8.
#[verifier::external_body]
fn string_from_utf8(bytes: &[u8]) -> (r: Option<String>)
    ensures
        r is Some <==> valid_utf8(bytes@),
        r matches Some(s) ==> s@ == decode_utf8(bytes@),
{
    String::from_utf8(bytes.to_vec()).ok()
}

/// Decodes the payload of a chat packet; `None` when it is malformed.
pub fn parse_chat_packet(payload: &[u8], timestamp_ms: u32) -> (r: Option<ChatInfo>)
    ensures
        r is Some <==> chat_of(payload@, timestamp_ms) is Some,
        r matches Some(c) ==> chat_of(payload@, timestamp_ms) == Some(c@),
{
    let len = payload.len();
    if len < 2 {
        return None;
    }
    let sender_len = payload[1] as usize;
    let mlen_at = 2 + sender_len;
    if mlen_at >= len {
        return None;
    }
    let message_len = payload[mlen_at] as usize;
    let tail = mlen_at + 1 + message_len;
    if tail > len {
        return None;
    }
    let sender = match string_from_utf8(&payload[2..mlen_at]) {
        Some(s) => s,
        None => {
            proof {
                assert(payload@.subrange(2, mlen_at as int) == chat_sender_bytes(payload@));
            }
            return None;
        },
    };
    let message = match string_from_utf8(&payload[mlen_at + 1..tail]) {
        Some(s) => s,
        None => {
            proof {
                assert(payload@.subrange(mlen_at + 1, tail as int) == chat_message_bytes(payload@));
            }
            return None;
        },
    };
    let channel_type = if len - tail >= 1 {
        Some(payload[tail])
    } else {
        None
    };
    let is_enemy = if len - tail >= 2 {
        Some(payload[tail + 1])
    } else {
        None
    };
    proof {
        assert(payload@.subrange(2, mlen_at as int) == chat_sender_bytes(payload@));
        assert(payload@.subrange(mlen_at + 1, tail as int) == chat_message_bytes(payload@));
    }
    Some(ChatInfo { timestamp_ms, sender, message, channel_type, is_enemy })
}

} // verus!
