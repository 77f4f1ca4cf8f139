use vstd::prelude::*;

use super::chat::{chat_of, parse_chat_packet, ChatInfo, ChatView};
use super::error::DecodeError;
use crate::header::ReplayHeader;
use crate::results::{results_block_start, ReplayResults};
use super::inflate::{first_bytes, inflate_zlib, zlib_corrupt, zlib_inflated};
use super::laws::lemma_failing_source_fails;
use super::packet::{
    packet_header_outcome, packet_type_of, read_packet_header_from_stream, PacketInfo,
    PacketView, ReplayPacketType,
};
use super::stream::ByteStream;
use super::varsize::{read_variable_length_size, varsize_outcome};

verus! {

/// What a run of the packet loop produced, as values.
pub struct RunView {
    pub packets: Seq<PacketView>,
    pub chats: Seq<ChatView>,
    pub count: nat,
    pub total: nat,
}

pub open spec fn empty_run() -> RunView {
    RunView { packets: seq![], chats: seq![], count: 0, total: 0 }
}

/// `a` followed by what `rest` produced; an error of `rest` wins.
pub open spec fn combine(a: RunView, rest: Result<RunView, DecodeError>) -> Result<
    RunView,
    DecodeError,
> {
    match rest {
        Ok(b) => Ok(
            RunView {
                packets: a.packets + b.packets,
                chats: a.chats + b.chats,
                count: a.count + b.count,
                total: a.total + b.total,
            },
        ),
        Err(e) => Err(e),
    }
}

/// One frame read from the rest of the stream.
pub enum FrameStep {
    /// The stream ended cleanly, or inside a size prefix.
    End,
    /// Decoding fails.
    Fail(DecodeError),
    /// A size prefix of `prefix_len` bytes declaring `declared` bytes, and the
    /// frame bytes read, fewer than declared only where the stream ended.
    Frame { prefix_len: nat, declared: nat, body: Seq<u8> },
}

pub open spec fn frame_step(rest: Seq<u8>, fails_at_end: bool) -> FrameStep {
    match varsize_outcome(rest, fails_at_end) {
        Ok(None) => FrameStep::End,
        Err(DecodeError::TruncatedPrefix) => FrameStep::End,
        Err(e) => FrameStep::Fail(e),
        Ok(Some((size, n))) => {
            if rest.len() - n >= size {
                FrameStep::Frame {
                    prefix_len: n as nat,
                    declared: size as nat,
                    body: rest.subrange(n as int, n + size),
                }
            } else if fails_at_end {
                FrameStep::Fail(DecodeError::Io)
            } else {
                FrameStep::Frame {
                    prefix_len: n as nat,
                    declared: size as nat,
                    body: rest.subrange(n as int, rest.len() as int),
                }
            }
        },
    }
}

/// The packet header of a non-empty frame body: type byte, timestamp, length.
pub open spec fn frame_header(body: Seq<u8>, last: u32) -> (u8, u32, usize) {
    match packet_header_outcome(body, false, last) {
        Ok(Some(h)) => h,
        _ => (0u8, last, 0usize),
    }
}

pub open spec fn packet_of(body: Seq<u8>, last: u32) -> PacketView {
    let (t, ts, h) = frame_header(body, last);
    PacketView {
        packet_type: packet_type_of(t),
        timestamp_ms: ts,
        payload: body.subrange(h as int, body.len() as int),
    }
}

/// The chat messages that a non-empty frame body contributes.
pub open spec fn chats_of(body: Seq<u8>, last: u32) -> Seq<ChatView> {
    let (t, ts, h) = frame_header(body, last);
    if t == 3 {
        match chat_of(body.subrange(h as int, body.len() as int), ts) {
            Some(c) => seq![c],
            None => seq![],
        }
    } else {
        seq![]
    }
}

/// The packet loop over stream `s` from byte `pos`, with `last` the previous
/// packet's timestamp. A frame that declares no bytes is counted and yields no
/// packet; a frame cut off by the end of the stream is decoded as far as it
/// goes, and when nothing of it is left the loop stops there.
#[verifier::opaque]
pub open spec fn run_from(s: Seq<u8>, fails_at_end: bool, pos: int, last: u32) -> Result<
    RunView,
    DecodeError,
>
    decreases s.len() - pos,
{
    if pos < 0 || pos > s.len() {
        Ok(empty_run())
    } else {
        match frame_step(s.subrange(pos, s.len() as int), fails_at_end) {
            FrameStep::End => Ok(empty_run()),
            FrameStep::Fail(e) => Err(e),
            FrameStep::Frame { prefix_len, declared, body } => {
                if body.len() == 0 && declared > 0 {
                    Ok(RunView { total: prefix_len, ..empty_run() })
                } else if prefix_len == 0 {
                    Ok(empty_run())
                } else {
                    let next = pos + prefix_len + body.len();
                    if body.len() == 0 {
                        combine(
                            RunView { count: 1, total: prefix_len, ..empty_run() },
                            run_from(s, fails_at_end, next, last),
                        )
                    } else {
                        let ts = frame_header(body, last).1;
                        combine(
                            RunView {
                                packets: seq![packet_of(body, last)],
                                chats: chats_of(body, last),
                                count: 1,
                                total: prefix_len + body.len(),
                            },
                            run_from(s, fails_at_end, next, ts),
                        )
                    }
                }
            },
        }
    }
}

/// The packet loop over a whole stream.
pub open spec fn run_stream(s: Seq<u8>, fails_at_end: bool) -> Result<RunView, DecodeError> {
    run_from(s, fails_at_end, 0, 0)
}

/// What one frame of `prefix_len` prefix bytes and body `body` contributes.
pub open spec fn frame_view(prefix_len: nat, body: Seq<u8>, last: u32) -> RunView {
    if body.len() == 0 {
        RunView { count: 1, total: prefix_len, ..empty_run() }
    } else {
        RunView {
            packets: seq![packet_of(body, last)],
            chats: chats_of(body, last),
            count: 1,
            total: prefix_len + body.len(),
        }
    }
}

/// The timestamp after a frame.
pub open spec fn frame_timestamp(body: Seq<u8>, last: u32) -> u32 {
    if body.len() == 0 {
        last
    } else {
        frame_header(body, last).1
    }
}

/// A size prefix takes one to five bytes, and a frame never holds more than it declares.
pub proof fn lemma_frame_step_bounds(rest: Seq<u8>, fails_at_end: bool)
    ensures
        frame_step(rest, fails_at_end) matches FrameStep::Frame { prefix_len, declared, body } ==> 1
            <= prefix_len <= 5 && body.len() <= declared && prefix_len + body.len() <= rest.len()
            && (body.len() < declared ==> prefix_len + body.len() == rest.len()),
{
}

/// One turn of the packet loop, unfolded.
pub proof fn lemma_run_from_unfold(s: Seq<u8>, fails_at_end: bool, pos: int, last: u32)
    requires
        0 <= pos <= s.len(),
    ensures
        ({
            let rest = s.subrange(pos, s.len() as int);
            match frame_step(rest, fails_at_end) {
                FrameStep::End => run_from(s, fails_at_end, pos, last) == Ok::<RunView, DecodeError>(
                    empty_run(),
                ),
                FrameStep::Fail(e) => run_from(s, fails_at_end, pos, last) == Err::<
                    RunView,
                    DecodeError,
                >(e),
                FrameStep::Frame { prefix_len, declared, body } => if body.len() == 0 && declared
                    > 0 {
                    run_from(s, fails_at_end, pos, last) == Ok::<RunView, DecodeError>(
                        RunView { total: prefix_len, ..empty_run() },
                    )
                } else {
                    run_from(s, fails_at_end, pos, last) == combine(
                        frame_view(prefix_len, body, last),
                        run_from(
                            s,
                            fails_at_end,
                            pos + prefix_len + body.len(),
                            frame_timestamp(body, last),
                        ),
                    )
                },
            }
        }),
{
    reveal(run_from);
    lemma_frame_step_bounds(s.subrange(pos, s.len() as int), fails_at_end);
}

pub proof fn lemma_combine_assoc(a: RunView, b: RunView, c: Result<RunView, DecodeError>)
    ensures
        combine(a, combine(b, c)) == combine(
            RunView {
                packets: a.packets + b.packets,
                chats: a.chats + b.chats,
                count: a.count + b.count,
                total: a.total + b.total,
            },
            c,
        ),
{
    match c {
        Ok(x) => {
            assert(a.packets + (b.packets + x.packets) =~= (a.packets + b.packets) + x.packets);
            assert(a.chats + (b.chats + x.chats) =~= (a.chats + b.chats) + x.chats);
        },
        Err(_) => {},
    }
}

pub proof fn lemma_combine_empty(a: RunView)
    ensures
        combine(a, Ok(empty_run())) == Ok::<RunView, DecodeError>(a),
{
    assert(a.packets + seq![] =~= a.packets);
    assert(a.chats + seq![] =~= a.chats);
}

/// The outcome of decoding a whole stream.
#[derive(Debug)]
pub struct ParsedReplay {
    /// Frames read, including those that declare no bytes.
    pub packet_count: u64,
    /// Stream bytes consumed: size prefixes and frame bytes.
    pub total_decompressed_bytes: u64,
    /// Where decoding stopped in the input when it was read without zlib; 0 otherwise.
    pub final_offset: u64,
    /// The packets, in stream order.
    pub packets: Vec<PacketInfo>,
    /// The chat messages, in the order of their packets.
    pub chat_messages: Vec<ChatInfo>,
    /// Where the results block starts in the input, when results were asked
    /// for and the header names one; decoding the block is left to the caller.
    pub results_block_start: Option<usize>,
    /// The end-of-battle results, once the caller has decoded the block.
    pub replay_results: Option<ReplayResults>,
}

pub open spec fn packets_view(v: Seq<PacketInfo>) -> Seq<PacketView> {
    v.map_values(|p: PacketInfo| p@)
}

pub open spec fn chats_view(v: Seq<ChatInfo>) -> Seq<ChatView> {
    v.map_values(|c: ChatInfo| c@)
}

impl ParsedReplay {
    /// What the decoding produced, as values.
    pub open spec fn run_view(&self) -> RunView {
        RunView {
            packets: packets_view(self.packets@),
            chats: chats_view(self.chat_messages@),
            count: self.packet_count as nat,
            total: self.total_decompressed_bytes as nat,
        }
    }
}

/// Whether a decoding outcome is the one a run describes.
pub open spec fn replay_matches(r: Result<ParsedReplay, DecodeError>, run: Result<RunView, DecodeError>) -> bool {
    match r {
        Ok(p) => run == Ok::<RunView, DecodeError>(p.run_view()),
        Err(e) => run == Err::<RunView, DecodeError>(e),
    }
}

/// Reads the next frame: its prefix length, its declared size and the frame
/// bytes; `Ok(None)` where the loop ends.
fn next_frame<'a>(stream: &mut ByteStream<'a>) -> (r: Result<Option<(usize, u32, &'a [u8])>, DecodeError>)
    requires
        old(stream).wf(),
    ensures
        final(stream).wf(),
        final(stream).data() == old(stream).data(),
        final(stream).fails_at_end() == old(stream).fails_at_end(),
        match frame_step(old(stream).rest(), old(stream).fails_at_end()) {
            FrameStep::End => r == Ok::<Option<(usize, u32, &'a [u8])>, DecodeError>(None)
                && final(stream).position() == old(stream).position(),
            FrameStep::Fail(e) => r == Err::<Option<(usize, u32, &'a [u8])>, DecodeError>(e),
            FrameStep::Frame { prefix_len, declared, body } => r matches Ok(Some((n, size, f)))
                && n == prefix_len && size == declared && f@ == body
                && final(stream).position() == old(stream).position() + n + body.len(),
        },
{
    let ghost rest = old(stream).rest();
    let (size, n) = match read_variable_length_size(stream) {
        Ok(Some(x)) => x,
        Ok(None) => {
            return Ok(None);
        },
        Err(DecodeError::TruncatedPrefix) => {
            return Ok(None);
        },
        Err(e) => {
            return Err(e);
        },
    };
    let avail = stream.remaining();
    if avail >= size as usize {
        let f = stream.take(size as usize);
        assert(f@ =~= rest.subrange(n as int, n + size));
        Ok(Some((n, size, f)))
    } else if stream.failed() {
        Err(DecodeError::Io)
    } else {
        let f = stream.take(avail);
        assert(f@ =~= rest.subrange(n as int, rest.len() as int));
        Ok(Some((n, size, f)))
    }
}

/// Records the packet of a non-empty frame, and its chat message if it holds
/// one; returns the packet's timestamp.
fn record_frame(
    frame: &[u8],
    last_ts: u32,
    packets: &mut Vec<PacketInfo>,
    chat_messages: &mut Vec<ChatInfo>,
) -> (ts: u32)
    requires
        frame@.len() > 0,
    ensures
        ts == frame_header(frame@, last_ts).1,
        packets_view(final(packets)@) == packets_view(old(packets)@) + seq![packet_of(frame@, last_ts)],
        chats_view(final(chat_messages)@) == chats_view(old(chat_messages)@) + chats_of(frame@, last_ts),
{
    let mut fs = ByteStream::new(frame);
    assert(fs.rest() =~= frame@);
    match read_packet_header_from_stream(&mut fs, last_ts) {
        Ok(Some((t, ts, h))) => {
            let payload = &frame[h..frame.len()];
            packets.push(
                PacketInfo {
                    packet_type: ReplayPacketType::from_byte(t),
                    timestamp_ms: ts,
                    payload: vstd::slice::slice_to_vec(payload),
                },
            );
            assert(packets_view(packets@) =~= packets_view(old(packets)@) + seq![packet_of(frame@, last_ts)]);
            if t == 3 {
                match parse_chat_packet(payload, ts) {
                    Some(c) => {
                        chat_messages.push(c);
                    },
                    None => {},
                }
            }
            assert(chats_view(chat_messages@) =~= chats_view(old(chat_messages)@) + chats_of(frame@, last_ts));
            ts
        },
        _ => {
            assert(false);
            last_ts
        },
    }
}

/// Runs the packet loop over decoded stream bytes; `source_failed` says that
/// the source failed after them instead of ending.
pub fn process_decoded_stream(bytes: &[u8], source_failed: bool) -> (r: Result<
    ParsedReplay,
    DecodeError,
>)
    ensures
        replay_matches(r, run_stream(bytes@, source_failed)),
        r matches Ok(p) ==> p.final_offset == 0 && p.total_decompressed_bytes <= bytes@.len()
            && p.results_block_start is None && p.replay_results is None,
{
    let mut stream = if source_failed {
        ByteStream::failing_after(bytes)
    } else {
        ByteStream::new(bytes)
    };
    let ghost s = bytes@;
    let mut packets: Vec<PacketInfo> = Vec::new();
    let mut chat_messages: Vec<ChatInfo> = Vec::new();
    let mut packet_count: u64 = 0;
    let mut total: u64 = 0;
    let mut last_ts: u32 = 0;
    let _len = bytes.len();
    proof {
        reveal(run_from);
        assert(packets_view(packets@) =~= seq![]);
        assert(chats_view(chat_messages@) =~= seq![]);
        match run_from(s, source_failed, 0, 0) {
            Ok(x) => {
                assert(seq![] + x.packets =~= x.packets);
                assert(seq![] + x.chats =~= x.chats);
            },
            Err(_) => {},
        }
    }
    loop
        invariant
            stream.wf(),
            stream.data() == s,
            s == bytes@,
            bytes@.len() <= usize::MAX,
            stream.fails_at_end() == source_failed,
            total == stream.position(),
            packet_count <= stream.position(),
            run_stream(s, source_failed) == combine(
                RunView {
                    packets: packets_view(packets@),
                    chats: chats_view(chat_messages@),
                    count: packet_count as nat,
                    total: total as nat,
                },
                run_from(s, source_failed, stream.position(), last_ts),
            ),
        ensures
            run_from(s, source_failed, stream.position(), last_ts) == Ok::<RunView, DecodeError>(empty_run()),
        decreases stream.rest().len(),
    {
        let ghost pos = stream.position();
        let ghost last0 = last_ts;
        let ghost acc0 = RunView {
            packets: packets_view(packets@),
            chats: chats_view(chat_messages@),
            count: packet_count as nat,
            total: total as nat,
        };
        assert(stream.rest() == s.subrange(pos, s.len() as int));
        proof {
            lemma_run_from_unfold(s, source_failed, pos, last_ts);
            lemma_frame_step_bounds(stream.rest(), source_failed);
        }
        let (n, size, frame) = match next_frame(&mut stream) {
            Ok(Some(x)) => x,
            Ok(None) => break,
            Err(e) => {
                return Err(e);
            },
        };
        total = total + n as u64;
        if frame.len() == 0 && size > 0 {
            proof {
                lemma_run_from_unfold(s, source_failed, stream.position(), last_ts);
            }
            break;
        }
        total = total + frame.len() as u64;
        if frame.len() > 0 {
            last_ts = record_frame(frame, last_ts, &mut packets, &mut chat_messages);
        }
        packet_count = packet_count + 1;
        proof {
            let next = stream.position();
            let step = frame_view(n as nat, frame@, last0);
            assert(last_ts == frame_timestamp(frame@, last0));
            lemma_combine_assoc(acc0, step, run_from(s, source_failed, next, last_ts));
            assert(acc0.packets + step.packets =~= packets_view(packets@));
            assert(acc0.chats + step.chats =~= chats_view(chat_messages@));
        }
    }
    proof {
        lemma_combine_empty(
            RunView {
                packets: packets_view(packets@),
                chats: chats_view(chat_messages@),
                count: packet_count as nat,
                total: total as nat,
            },
        );
    }
    Ok(
        ParsedReplay {
            packet_count,
            total_decompressed_bytes: total,
            final_offset: 0,
            packets,
            chat_messages,
            results_block_start: None,
            replay_results: None,
        },
    )
}

/// Whether `r` is what decoding the event stream at `start` of `data` gives:
/// the packet loop over the bytes read directly when `skip_zlib`, otherwise
/// over what the zlib stream there decodes to (read as far as a `Vec` can
/// hold); a corrupt zlib stream makes it fail. `final_offset` is where the
/// loop stopped in `data` when read directly, 0 otherwise. With no bytes at
/// `start`, decoding gives nothing, without error.
pub open spec fn stream_outcome(
    data: Seq<u8>,
    start: u64,
    skip_zlib: bool,
    r: Result<ParsedReplay, DecodeError>,
) -> bool {
    let tail = data.subrange(start as int, data.len() as int);
    &&& start == data.len() ==> (r matches Ok(p) && p.packets@.len() == 0
        && p.chat_messages@.len() == 0 && p.packet_count == 0 && p.total_decompressed_bytes == 0)
    &&& if start > data.len() {
        r == Err::<ParsedReplay, DecodeError>(DecodeError::OffsetBeyondEof)
    } else if skip_zlib {
        &&& replay_matches(r, run_stream(tail, false))
        &&& r matches Ok(p) ==> p.final_offset == start + p.total_decompressed_bytes
    } else {
        &&& !zlib_corrupt(tail) ==> replay_matches(
            r,
            run_stream(first_bytes(zlib_inflated(tail), u64::MAX), false),
        )
        &&& zlib_corrupt(tail) ==> r is Err
        &&& r matches Ok(p) ==> p.final_offset == 0
    }
}

/// Decodes the event stream that starts at `start_offset` of `data`: read
/// directly when `skip_zlib`, otherwise through a zlib decoder. A corrupt zlib
/// stream makes decoding fail; a zlib stream cut off early ends the stream.
pub fn process_replay_data(data: &[u8], start_offset: u64, skip_zlib: bool) -> (r: Result<
    ParsedReplay,
    DecodeError,
>)
    ensures
        stream_outcome(data@, start_offset, skip_zlib, r),
        r matches Ok(p) ==> p.results_block_start is None && p.replay_results is None,
{
    if start_offset > data.len() as u64 {
        return Err(DecodeError::OffsetBeyondEof);
    }
    let tail = &data[start_offset as usize..data.len()];
    proof {
        lemma_empty_run();
        if start_offset == data@.len() {
            assert(tail@ =~= seq![]);
        }
    }
    if skip_zlib {
        let r = process_decoded_stream(tail, false);
        proof {
            lemma_view_lengths(r);
        }
        match r {
            Ok(mut p) => {
                p.final_offset = start_offset + p.total_decompressed_bytes;
                Ok(p)
            },
            Err(e) => Err(e),
        }
    } else {
        let (bytes, corrupt) = inflate_zlib(tail, u64::MAX);
        proof {
            if corrupt {
                lemma_failing_source_fails(bytes@, 0, 0);
            }
            if start_offset == data@.len() {
                assert(bytes@ =~= seq![]);
            }
        }
        let r = process_decoded_stream(&bytes, corrupt);
        proof {
            lemma_view_lengths(r);
        }
        r
    }
}

proof fn lemma_view_lengths(r: Result<ParsedReplay, DecodeError>)
    ensures
        r matches Ok(p) ==> packets_view(p.packets@).len() == p.packets@.len() && chats_view(
            p.chat_messages@,
        ).len() == p.chat_messages@.len(),
{
}

/// A stream without bytes gives nothing.
pub proof fn lemma_empty_run()
    ensures
        run_stream(seq![], false) == Ok::<RunView, DecodeError>(empty_run()),
{
    lemma_run_from_unfold(seq![], false, 0, 0);
    assert(Seq::<u8>::empty().subrange(0, 0) =~= seq![]);
}

/// Decodes the event stream at `start_offset`; given the file's header, also
/// locates the results block that the header names.
pub fn process_replay_stream(
    replay_data: &[u8],
    start_offset: u64,
    skip_zlib: bool,
    header: Option<&ReplayHeader>,
) -> (r: Result<ParsedReplay, DecodeError>)
    ensures
        stream_outcome(replay_data@, start_offset, skip_zlib, r),
        r matches Ok(p) ==> p.replay_results is None && p.results_block_start == match header {
            Some(h) => if 0 < h.rez_offset < replay_data@.len() {
                Some(h.rez_offset as usize)
            } else {
                None::<usize>
            },
            None => None::<usize>,
        },
{
    let mut stats = match process_replay_data(replay_data, start_offset, skip_zlib) {
        Ok(p) => p,
        Err(e) => {
            return Err(e);
        },
    };
    if let Some(h) = header {
        stats.results_block_start = results_block_start(replay_data, h.rez_offset);
    }
    Ok(stats)
}

/// Decodes the event stream at `start_offset` and locates the results block
/// that `header` names.
pub fn process_replay_stream_with_header(
    replay_data: &[u8],
    header: &ReplayHeader,
    start_offset: u64,
    skip_zlib: bool,
) -> (r: Result<ParsedReplay, DecodeError>)
    ensures
        stream_outcome(replay_data@, start_offset, skip_zlib, r),
        r matches Ok(p) ==> p.replay_results is None && p.results_block_start == if 0
            < header.rez_offset < replay_data@.len() {
            Some(header.rez_offset as usize)
        } else {
            None::<usize>
        },
{
    process_replay_stream(replay_data, start_offset, skip_zlib, Some(header))
}

} // verus!
