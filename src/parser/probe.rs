use vstd::prelude::*;

use super::chat::{chat_of, parse_chat_packet, ChatInfo, ChatView};
use super::inflate::{first_bytes, inflate_zlib, zlib_inflated};
use super::packet::{packet_header_outcome, read_packet_header_from_stream};
use super::stream::ByteStream;
use super::varsize::{read_variable_length_size, varsize_outcome};
use crate::utils::hex::{encode, hex_of};

verus! {

/// How many frames a probe reads before giving up.
pub const PROBE_FRAMES: usize = 6;

/// Frames a probe accepts declare fewer bytes than this.
pub const PROBE_FRAME_LIMIT: u32 = 0x2000;

/// The most stream bytes a probe can read: its frames and their prefixes.
pub const PROBE_READ_LIMIT: u64 = 6 * (0x1FFF + 5);

pub open spec fn ascii_graphic(b: u8) -> bool {
    0x21 <= b <= 0x7E
}

pub open spec fn ascii_alphanumeric(b: u8) -> bool {
    (0x30 <= b <= 0x39) || (0x41 <= b <= 0x5A) || (0x61 <= b <= 0x7A)
}

/// Whether the chat message in `p` looks like a real one: a sender of 1 to 32
/// visible ASCII bytes, and a message of 1 to 128 bytes with at least one
/// ASCII letter or digit. (On valid UTF-8 these byte tests are the character
/// tests: ASCII bytes stand only for ASCII characters.)
pub open spec fn plausible_chat(p: Seq<u8>) -> bool {
    let sender = p.subrange(2, 2 + p[1]);
    let message = p.subrange(3 + p[1], 3 + p[1] + p[2 + p[1]]);
    &&& 1 <= sender.len() <= 32
    &&& forall|i: int| 0 <= i < sender.len() ==> ascii_graphic(#[trigger] sender[i])
    &&& 1 <= message.len() <= 128
    &&& exists|i: int| 0 <= i < message.len() && ascii_alphanumeric(#[trigger] message[i])
}

/// One frame of a probe.
pub enum ProbeStep {
    /// A chat packet with a plausible message: the message and the whole frame.
    Found(ChatView, Seq<u8>),
    /// Another packet: the bytes it took and its timestamp.
    Next(nat, u32),
    /// No frame to accept.
    Stop,
}

/// A probe's look at the next frame of `rest`: its prefix must declare between
/// 1 and `0x1FFF` bytes, all present.
pub open spec fn probe_step(rest: Seq<u8>, last: u32) -> ProbeStep {
    match varsize_outcome(rest, false) {
        Ok(Some((size, n))) => if 0 < size < PROBE_FRAME_LIMIT && rest.len() - n >= size {
            let frame = rest.subrange(n as int, n + size);
            match packet_header_outcome(frame, false, last) {
                Ok(Some((t, ts, h))) => {
                    let payload = frame.subrange(h as int, frame.len() as int);
                    if t == 3 && chat_of(payload, ts) is Some && plausible_chat(payload) {
                        ProbeStep::Found(chat_of(payload, ts)->Some_0, frame)
                    } else {
                        ProbeStep::Next((n + size) as nat, ts)
                    }
                },
                _ => ProbeStep::Stop,
            }
        } else {
            ProbeStep::Stop
        },
        _ => ProbeStep::Stop,
    }
}

/// A probe of the stream `s` from `pos`: up to `left` frames, until a chat
/// packet with a plausible message; the message and its whole frame.
pub open spec fn probe_from(s: Seq<u8>, pos: int, last: u32, left: nat) -> Option<(ChatView, Seq<u8>)>
    decreases left,
{
    if left == 0 || pos < 0 || pos > s.len() {
        None
    } else {
        match probe_step(s.subrange(pos, s.len() as int), last) {
            ProbeStep::Found(c, frame) => Some((c, frame)),
            ProbeStep::Next(k, ts) => probe_from(s, pos + k, ts, (left - 1) as nat),
            ProbeStep::Stop => None,
        }
    }
}

#[verifier::loop_isolation(false)]
fn plausible(payload: &[u8]) -> (b: bool)
    requires
        super::chat::chat_fits(payload@),
    ensures
        b == plausible_chat(payload@),
{
    let sender_len = payload[1] as usize;
    let m_at = 2 + sender_len;
    let message_len = payload[m_at] as usize;
    if sender_len < 1 || sender_len > 32 || message_len < 1 || message_len > 128 {
        return false;
    }
    let ghost sender = payload@.subrange(2, 2 + payload@[1]);
    let ghost message = payload@.subrange(3 + payload@[1], 3 + payload@[1] + payload@[2 + payload@[1]]);
    let _n = payload.len();
    let mut i: usize = 0;
    while i < sender_len
        invariant
            payload@.len() <= usize::MAX,
            1 <= sender_len <= 32,
            i <= sender_len,
            sender_len == sender.len(),
            m_at + 1 + message_len <= payload@.len(),
            m_at == 2 + sender_len,
            sender == payload@.subrange(2, m_at as int),
            forall|k: int| 0 <= k < i ==> ascii_graphic(#[trigger] sender[k]),
        decreases sender_len - i,
    {
        let c = payload[2 + i];
        assert(c == sender[i as int]);
        if !(0x21 <= c && c <= 0x7E) {
            assert(!ascii_graphic(sender[i as int]));
            return false;
        }
        i = i + 1;
    }
    let mut j: usize = 0;
    while j < message_len
        invariant
            payload@.len() <= usize::MAX,
            1 <= sender_len <= 32,
            1 <= message_len <= 128,
            sender_len == sender.len(),
            forall|k: int| 0 <= k < sender_len ==> ascii_graphic(#[trigger] sender[k]),
            j <= message_len,
            message_len == message.len(),
            m_at + 1 + message_len <= payload@.len(),
            message == payload@.subrange(m_at + 1, m_at + 1 + message_len),
            forall|k: int| 0 <= k < j ==> !ascii_alphanumeric(#[trigger] message[k]),
        decreases message_len - j,
    {
        let c = payload[m_at + 1 + j];
        assert(c == message[j as int]);
        if (0x30 <= c && c <= 0x39) || (0x41 <= c && c <= 0x5A) || (0x61 <= c && c <= 0x7A) {
            assert(ascii_alphanumeric(message[j as int]));
            return true;
        }
        j = j + 1;
    }
    false
}

enum ProbeOutcome {
    Found(ChatInfo, String),
    Next(u32),
    Stop,
}

/// Looks at the next frame of a probe.
fn probe_frame(stream: &mut ByteStream, last_ts: u32) -> (r: ProbeOutcome)
    requires
        old(stream).wf(),
        !old(stream).fails_at_end(),
    ensures
        final(stream).wf(),
        final(stream).data() == old(stream).data(),
        !final(stream).fails_at_end(),
        match probe_step(old(stream).rest(), last_ts) {
            ProbeStep::Found(c, frame) => r matches ProbeOutcome::Found(x, h) && x@ == c && h@
                == hex_of(frame),
            ProbeStep::Next(k, ts) => r matches ProbeOutcome::Next(t) && t == ts
                && final(stream).position() == old(stream).position() + k,
            ProbeStep::Stop => r is Stop,
        },
{
    let ghost rest = old(stream).rest();
    let (size, n) = match read_variable_length_size(stream) {
        Ok(Some(x)) => x,
        _ => {
            return ProbeOutcome::Stop;
        },
    };
    if size == 0 || size >= PROBE_FRAME_LIMIT || stream.remaining() < size as usize {
        return ProbeOutcome::Stop;
    }
    let frame = stream.take(size as usize);
    assert(frame@ =~= rest.subrange(n as int, n + size));
    let mut fs = ByteStream::new(frame);
    assert(fs.rest() =~= frame@);
    let (t, ts, h) = match read_packet_header_from_stream(&mut fs, last_ts) {
        Ok(Some(x)) => x,
        _ => {
            return ProbeOutcome::Stop;
        },
    };
    let payload = &frame[h..frame.len()];
    if t == 3 {
        if let Some(chat) = parse_chat_packet(payload, ts) {
            if plausible(payload) {
                return ProbeOutcome::Found(chat, encode(frame));
            }
        }
    }
    ProbeOutcome::Next(ts)
}

/// Probes decoded stream bytes for a chat message (see `probe_from`); returns
/// it with its frame in hex.
pub fn probe_chat_in_stream(bytes: &[u8]) -> (r: Option<(ChatInfo, String)>)
    ensures
        match probe_from(bytes@, 0, 0, PROBE_FRAMES as nat) {
            Some((c, frame)) => r matches Some((x, h)) && x@ == c && h@ == hex_of(frame),
            None => r is None,
        },
{
    let mut stream = ByteStream::new(bytes);
    let mut last_ts: u32 = 0;
    let mut left: usize = PROBE_FRAMES;
    while left > 0
        invariant
            stream.wf(),
            stream.data() == bytes@,
            !stream.fails_at_end(),
            probe_from(bytes@, 0, 0, PROBE_FRAMES as nat) == probe_from(
                bytes@,
                stream.position(),
                last_ts,
                left as nat,
            ),
        decreases left,
    {
        let ghost pos = stream.position();
        assert(stream.rest() == bytes@.subrange(pos, bytes@.len() as int));
        match probe_frame(&mut stream, last_ts) {
            ProbeOutcome::Found(chat, hex) => {
                return Some((chat, hex));
            },
            ProbeOutcome::Next(ts) => {
                last_ts = ts;
            },
            ProbeOutcome::Stop => {
                return None;
            },
        }
        left = left - 1;
    }
    None
}

/// Tries to decode a chat message from the stream that would start at
/// `offset` of `data`, read directly or through zlib; for finding where the
/// stream starts. Positions within 10 bytes of the end are not tried, nor a
/// zlib stream found corrupt within the bytes a probe reads.
pub fn try_parse_chat_at_offset(data: &[u8], offset: u64, skip_zlib: bool) -> (r: Option<
    (ChatInfo, String),
>)
    ensures
        offset + 10 >= data@.len() ==> r is None,
        offset + 10 < data@.len() && skip_zlib ==> match probe_from(
            data@,
            offset as int,
            0,
            PROBE_FRAMES as nat,
        ) {
            Some((c, frame)) => r matches Some((x, h)) && x@ == c && h@ == hex_of(frame),
            None => r is None,
        },
        offset + 10 < data@.len() && !skip_zlib ==> (r matches Some((x, h)) ==> probe_from(
            first_bytes(
                zlib_inflated(data@.subrange(offset as int, data@.len() as int)),
                PROBE_READ_LIMIT,
            ),
            0,
            0,
            PROBE_FRAMES as nat,
        ) matches Some((c, frame)) && x@ == c && h@ == hex_of(frame)),
{
    if offset >= data.len() as u64 || data.len() as u64 - offset <= 10 {
        return None;
    }
    let tail = &data[offset as usize..data.len()];
    if skip_zlib {
        proof {
            lemma_probe_shift(data@, offset as int, 0, 0, PROBE_FRAMES as nat);
        }
        probe_chat_in_stream(tail)
    } else {
        let (bytes, corrupt) = inflate_zlib(tail, PROBE_READ_LIMIT);
        if corrupt {
            return None;
        }
        probe_chat_in_stream(&bytes)
    }
}

/// Probing from `off + pos` of `s` is probing from `pos` of the part of `s` after `off`.
proof fn lemma_probe_shift(s: Seq<u8>, off: int, pos: int, last: u32, left: nat)
    requires
        0 <= off <= s.len(),
        0 <= pos,
    ensures
        probe_from(s, off + pos, last, left) == probe_from(
            s.subrange(off, s.len() as int),
            pos,
            last,
            left,
        ),
    decreases left,
{
    let t = s.subrange(off, s.len() as int);
    if left > 0 && off + pos <= s.len() {
        assert(s.subrange(off + pos, s.len() as int) =~= t.subrange(pos, t.len() as int));
        let rest = t.subrange(pos, t.len() as int);
        if let ProbeStep::Next(k, ts) = probe_step(rest, last) {
            lemma_probe_shift(s, off, pos + k, ts, (left - 1) as nat);
        }
    }
}

} // verus!
