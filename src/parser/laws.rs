use vstd::prelude::*;

use super::chat::{chat_of, ChatView};
use super::packet::{PacketView, ReplayPacketType};
use super::error::DecodeError;
use super::replay::{
    chats_of, combine, frame_step, frame_timestamp, frame_view, lemma_combine_assoc, lemma_frame_step_bounds,
    lemma_run_from_unfold, packet_of, run_from, run_stream, FrameStep, RunView,
};

verus! {

/// Whether every frame that the loop reads from `pos` on declares at least one byte.
pub open spec fn frames_declare_bytes(s: Seq<u8>, fails_at_end: bool, pos: int) -> bool
    decreases s.len() - pos,
{
    if pos < 0 || pos > s.len() {
        true
    } else {
        match frame_step(s.subrange(pos, s.len() as int), fails_at_end) {
            FrameStep::Frame { prefix_len, declared, body } => declared > 0 && (prefix_len == 0
                || body.len() == 0 || frames_declare_bytes(
                s,
                fails_at_end,
                pos + prefix_len + body.len(),
            )),
            _ => true,
        }
    }
}

/// Whether each timestamp that a frame from `pos` on carries is at least the
/// timestamp of the packet before it (`last` for the first).
pub open spec fn carried_timestamps_ordered(s: Seq<u8>, fails_at_end: bool, pos: int, last: u32) -> bool
    decreases s.len() - pos,
{
    if pos < 0 || pos > s.len() {
        true
    } else {
        match frame_step(s.subrange(pos, s.len() as int), fails_at_end) {
            FrameStep::Frame { prefix_len, declared, body } => {
                if prefix_len == 0 || (body.len() == 0 && declared > 0) {
                    true
                } else {
                    frame_timestamp(body, last) >= last && carried_timestamps_ordered(
                        s,
                        fails_at_end,
                        pos + prefix_len + body.len(),
                        frame_timestamp(body, last),
                    )
                }
            },
            _ => true,
        }
    }
}

/// Whether the stream from `pos` on does not end inside a size prefix.
pub open spec fn ends_between_frames(s: Seq<u8>, fails_at_end: bool, pos: int) -> bool
    decreases s.len() - pos,
{
    if pos < 0 || pos > s.len() {
        true
    } else {
        match frame_step(s.subrange(pos, s.len() as int), fails_at_end) {
            FrameStep::End => pos == s.len(),
            FrameStep::Fail(_) => true,
            FrameStep::Frame { prefix_len, declared, body } => prefix_len == 0 || (body.len() == 0
                && declared > 0) || ends_between_frames(
                s,
                fails_at_end,
                pos + prefix_len + body.len(),
            ),
        }
    }
}

/// The chat messages that parsing each chat packet's payload at that packet's
/// timestamp gives, in packet order.
pub open spec fn chats_from_packets(ps: Seq<PacketView>) -> Seq<ChatView>
    decreases ps.len(),
{
    if ps.len() == 0 {
        seq![]
    } else {
        let p = ps[0];
        let here = if p.packet_type == ReplayPacketType::Chat {
            match chat_of(p.payload, p.timestamp_ms) {
                Some(c) => seq![c],
                None => seq![],
            }
        } else {
            seq![]
        };
        here + chats_from_packets(ps.drop_first())
    }
}

pub proof fn lemma_chats_from_packets_append(a: Seq<PacketView>, b: Seq<PacketView>)
    ensures
        chats_from_packets(a + b) == chats_from_packets(a) + chats_from_packets(b),
    decreases a.len(),
{
    if a.len() == 0 {
        assert(a + b =~= b);
        assert(seq![] + chats_from_packets(b) =~= chats_from_packets(b));
    } else {
        assert((a + b).drop_first() =~= a.drop_first() + b);
        lemma_chats_from_packets_append(a.drop_first(), b);
        assert((a + b)[0] == a[0]);
        assert(seq![a[0]].drop_first() =~= seq![]);
    }
}

/// Every frame of a run that declares bytes yields one packet: where no frame
/// declares zero bytes, the loop's packet count is the number of packets.
pub proof fn lemma_packet_count(s: Seq<u8>, fails_at_end: bool, pos: int, last: u32)
    requires
        0 <= pos <= s.len(),
        frames_declare_bytes(s, fails_at_end, pos),
    ensures
        run_from(s, fails_at_end, pos, last) matches Ok(r) ==> r.packets.len() == r.count,
    decreases s.len() - pos,
{
    let rest = s.subrange(pos, s.len() as int);
    lemma_run_from_unfold(s, fails_at_end, pos, last);
    lemma_frame_step_bounds(rest, fails_at_end);
    if let FrameStep::Frame { prefix_len, declared, body } = frame_step(rest, fails_at_end) {
        if !(body.len() == 0 && declared > 0) {
            lemma_packet_count(
                s,
                fails_at_end,
                pos + prefix_len + body.len(),
                frame_timestamp(body, last),
            );
        }
    }
}

/// Elided timestamps repeat the one before: where every carried timestamp is at
/// least the one before it, packet timestamps never decrease.
pub proof fn lemma_timestamps_ordered(s: Seq<u8>, fails_at_end: bool, pos: int, last: u32)
    requires
        0 <= pos <= s.len(),
        carried_timestamps_ordered(s, fails_at_end, pos, last),
    ensures
        run_from(s, fails_at_end, pos, last) matches Ok(r) ==> {
            &&& forall|i: int| 0 <= i < r.packets.len() ==> #[trigger] r.packets[i].timestamp_ms >= last
            &&& forall|i: int, j: int|
                0 <= i < j < r.packets.len() ==> #[trigger] r.packets[i].timestamp_ms
                    <= #[trigger] r.packets[j].timestamp_ms
        },
    decreases s.len() - pos,
{
    let rest = s.subrange(pos, s.len() as int);
    lemma_run_from_unfold(s, fails_at_end, pos, last);
    lemma_frame_step_bounds(rest, fails_at_end);
    if let FrameStep::Frame { prefix_len, declared, body } = frame_step(rest, fails_at_end) {
        if !(body.len() == 0 && declared > 0) {
            let ts = frame_timestamp(body, last);
            let next = pos + prefix_len + body.len();
            lemma_timestamps_ordered(s, fails_at_end, next, ts);
            if let Ok(r) = run_from(s, fails_at_end, pos, last) {
                let rr = run_from(s, fails_at_end, next, ts)->Ok_0;
                let step = frame_view(prefix_len, body, last);
                assert(r.packets == step.packets + rr.packets);
                assert forall|i: int| 0 <= i < r.packets.len() implies #[trigger] r.packets[i].timestamp_ms >= last by {
                    if i >= step.packets.len() {
                        assert(r.packets[i] == rr.packets[i - step.packets.len()]);
                    }
                }
                assert forall|i: int, j: int|
                    0 <= i < j < r.packets.len() implies #[trigger] r.packets[i].timestamp_ms
                        <= #[trigger] r.packets[j].timestamp_ms by {
                    if i >= step.packets.len() {
                        assert(r.packets[i] == rr.packets[i - step.packets.len()]);
                        assert(r.packets[j] == rr.packets[j - step.packets.len()]);
                    } else {
                        assert(r.packets[j] == rr.packets[j - step.packets.len()]);
                    }
                }
            }
        }
    }
}

/// The chat list is exactly what parsing each chat packet's payload at that
/// packet's timestamp gives, in packet order; so each message carries the
/// timestamp of the packet it came from.
pub proof fn lemma_chats_follow_packets(s: Seq<u8>, fails_at_end: bool, pos: int, last: u32)
    requires
        0 <= pos <= s.len(),
    ensures
        run_from(s, fails_at_end, pos, last) matches Ok(r) ==> r.chats == chats_from_packets(r.packets),
    decreases s.len() - pos,
{
    let rest = s.subrange(pos, s.len() as int);
    lemma_run_from_unfold(s, fails_at_end, pos, last);
    lemma_frame_step_bounds(rest, fails_at_end);
    match frame_step(rest, fails_at_end) {
        FrameStep::Frame { prefix_len, declared, body } => {
            if body.len() == 0 && declared > 0 {
                assert(chats_from_packets(seq![]) == Seq::<ChatView>::empty());
            } else {
                let ts = frame_timestamp(body, last);
                let next = pos + prefix_len + body.len();
                lemma_chats_follow_packets(s, fails_at_end, next, ts);
                if let Ok(rr) = run_from(s, fails_at_end, next, ts) {
                    let step = frame_view(prefix_len, body, last);
                    lemma_chats_from_packets_append(step.packets, rr.packets);
                    if body.len() == 0 {
                        assert(chats_from_packets(seq![]) == Seq::<ChatView>::empty());
                        assert(step.chats + rr.chats =~= rr.chats);
                    } else {
                        let p = packet_of(body, last);
                        assert(seq![p].drop_first() =~= seq![]);
                        assert(chats_from_packets(seq![]) == Seq::<ChatView>::empty());
                        assert(chats_from_packets(seq![p]) =~= chats_of(body, last));
                    }
                }
            }
        },
        FrameStep::End => {
            assert(chats_from_packets(seq![]) == Seq::<ChatView>::empty());
        },
        _ => {},
    }
}

/// A parsed chat message carries the timestamp it was parsed with.
pub proof fn lemma_chat_timestamp(p: Seq<u8>, ts: u32)
    ensures
        chat_of(p, ts) matches Some(c) ==> c.timestamp_ms == ts,
{
}

/// The byte count of a run is the sum of its prefixes and frame bytes; where
/// the stream does not end inside a size prefix, that is every byte of it.
pub proof fn lemma_total_bytes(s: Seq<u8>, fails_at_end: bool, pos: int, last: u32)
    requires
        0 <= pos <= s.len(),
        ends_between_frames(s, fails_at_end, pos),
    ensures
        run_from(s, fails_at_end, pos, last) matches Ok(r) ==> r.total == s.len() - pos,
    decreases s.len() - pos,
{
    let rest = s.subrange(pos, s.len() as int);
    lemma_run_from_unfold(s, fails_at_end, pos, last);
    lemma_frame_step_bounds(rest, fails_at_end);
    if let FrameStep::Frame { prefix_len, declared, body } = frame_step(rest, fails_at_end) {
        if !(body.len() == 0 && declared > 0) {
            lemma_total_bytes(
                s,
                fails_at_end,
                pos + prefix_len + body.len(),
                frame_timestamp(body, last),
            );
        }
    }
}

/// A source that fails after its bytes makes every run fail: the loop only
/// stops by reading past the last byte.
pub proof fn lemma_failing_source_fails(s: Seq<u8>, pos: int, last: u32)
    requires
        0 <= pos <= s.len(),
    ensures
        run_from(s, true, pos, last) is Err,
    decreases s.len() - pos,
{
    let rest = s.subrange(pos, s.len() as int);
    lemma_run_from_unfold(s, true, pos, last);
    lemma_frame_step_bounds(rest, true);
    if let FrameStep::Frame { prefix_len, declared, body } = frame_step(rest, true) {
        lemma_failing_source_fails(s, pos + prefix_len + body.len(), frame_timestamp(body, last));
    }
}

/// Whether `a` from `pos` on is a whole number of complete frames.
pub open spec fn whole_frames(a: Seq<u8>, pos: int) -> bool
    decreases a.len() - pos,
{
    if pos < 0 || pos > a.len() {
        false
    } else if pos == a.len() {
        true
    } else {
        match frame_step(a.subrange(pos, a.len() as int), false) {
            FrameStep::Frame { prefix_len, declared, body } => prefix_len > 0 && body.len()
                == declared && whole_frames(a, pos + prefix_len + body.len()),
            _ => false,
        }
    }
}

/// The timestamp after the whole frames of `a` from `pos` on.
pub open spec fn timestamp_after(a: Seq<u8>, pos: int, last: u32) -> u32
    decreases a.len() - pos,
{
    if pos < 0 || pos >= a.len() {
        last
    } else {
        match frame_step(a.subrange(pos, a.len() as int), false) {
            FrameStep::Frame { prefix_len, declared, body } => if prefix_len > 0 {
                timestamp_after(a, pos + prefix_len + body.len(), frame_timestamp(body, last))
            } else {
                last
            },
            _ => last,
        }
    }
}

/// A complete frame reads the same whatever follows it.
proof fn lemma_frame_step_extend(r: Seq<u8>, b: Seq<u8>, fails_at_end: bool)
    requires
        frame_step(r, false) matches FrameStep::Frame { prefix_len, declared, body } && body.len()
            == declared,
    ensures
        frame_step(r + b, fails_at_end) == frame_step(r, false),
{
    let rb = r + b;
    lemma_frame_step_bounds(r, false);
    assert(forall|i: int| 0 <= i < r.len() ==> rb[i] == r[i]);
    if let FrameStep::Frame { prefix_len, declared, body } = frame_step(r, false) {
        assert(rb.subrange(prefix_len as int, (prefix_len + declared) as int) =~= r.subrange(
            prefix_len as int,
            (prefix_len + declared) as int,
        ));
    }
}

/// Decoding from `a.len() + pos` of `a + b` is decoding from `pos` of `b`.
proof fn lemma_run_from_shift(a: Seq<u8>, b: Seq<u8>, fails_at_end: bool, pos: int, last: u32)
    requires
        0 <= pos <= b.len(),
    ensures
        run_from(a + b, fails_at_end, a.len() + pos, last) == run_from(b, fails_at_end, pos, last),
    decreases b.len() - pos,
{
    let ab = a + b;
    assert(ab.subrange(a.len() + pos, ab.len() as int) =~= b.subrange(pos, b.len() as int));
    lemma_run_from_unfold(ab, fails_at_end, a.len() + pos, last);
    lemma_run_from_unfold(b, fails_at_end, pos, last);
    let rest = b.subrange(pos, b.len() as int);
    lemma_frame_step_bounds(rest, fails_at_end);
    if let FrameStep::Frame { prefix_len, declared, body } = frame_step(rest, fails_at_end) {
        if !(body.len() == 0 && declared > 0) {
            lemma_run_from_shift(a, b, fails_at_end, pos + prefix_len + body.len(), frame_timestamp(body, last));
        }
    }
}

proof fn lemma_frames_in_order_from(
    a: Seq<u8>,
    b: Seq<u8>,
    fails_at_end: bool,
    pos: int,
    last: u32,
)
    requires
        whole_frames(a, pos),
    ensures
        run_from(a, false, pos, last) is Ok,
        run_from(a + b, fails_at_end, pos, last) == combine(
            run_from(a, false, pos, last)->Ok_0,
            run_from(a + b, fails_at_end, a.len() as int, timestamp_after(a, pos, last)),
        ),
    decreases a.len() - pos,
{
    let ab = a + b;
    if pos == a.len() {
        lemma_run_from_unfold(a, false, pos, last);
        assert(a.subrange(pos, a.len() as int) =~= seq![]);
        assert(frame_step(seq![], false) == FrameStep::End);
        match run_from(ab, fails_at_end, pos, last) {
            Ok(x) => {
                assert(seq![] + x.packets =~= x.packets);
                assert(seq![] + x.chats =~= x.chats);
            },
            Err(_) => {},
        }
    } else {
        let r = a.subrange(pos, a.len() as int);
        assert(ab.subrange(pos, ab.len() as int) =~= r + b);
        lemma_frame_step_extend(r, b, fails_at_end);
        lemma_frame_step_bounds(r, false);
        lemma_run_from_unfold(a, false, pos, last);
        lemma_run_from_unfold(ab, fails_at_end, pos, last);
        if let FrameStep::Frame { prefix_len, declared, body } = frame_step(r, false) {
            let next = pos + prefix_len + body.len();
            let ts = frame_timestamp(body, last);
            lemma_frames_in_order_from(a, b, fails_at_end, next, ts);
            lemma_combine_assoc_open(
                frame_view(prefix_len, body, last),
                run_from(a, false, next, ts)->Ok_0,
                run_from(ab, fails_at_end, a.len() as int, timestamp_after(a, next, ts)),
            );
        }
    }
}

proof fn lemma_combine_assoc_open(a: RunView, b: RunView, c: Result<RunView, DecodeError>)
    ensures
        combine(a, combine(b, c)) == combine(combine(a, Ok(b))->Ok_0, c),
{
    lemma_combine_assoc(a, b, c);
}

/// Frames are decoded one after another in stream order: a stream that
/// starts with a whole number of complete frames `a` gives first the packets
/// and chat messages of `a`, then those of the rest, read on from the last
/// timestamp of `a`.
pub proof fn lemma_frames_in_order(a: Seq<u8>, b: Seq<u8>, fails_at_end: bool)
    requires
        whole_frames(a, 0),
    ensures
        run_stream(a, false) is Ok,
        run_stream(a + b, fails_at_end) == combine(
            run_stream(a, false)->Ok_0,
            run_from(b, fails_at_end, 0, timestamp_after(a, 0, 0)),
        ),
{
    lemma_frames_in_order_from(a, b, fails_at_end, 0, 0);
    lemma_run_from_shift(a, b, fails_at_end, 0, timestamp_after(a, 0, 0));
}

} // verus!
