use vstd::prelude::*;

use super::error::DecodeError;
use super::stream::ByteStream;

verus! {

/// The kind of a packet, from its type byte.
#[derive(Debug, Clone, Copy, PartialEq, Eq, Structural)]
pub enum ReplayPacketType {
    /// End of replay marker (0).
    EndMarker,
    /// Start of replay marker (1).
    StartMarker,
    /// Aircraft state updates (2).
    AircraftSmall,
    /// Chat messages (3).
    Chat,
    /// Wrapped MPI messages (4).
    MPI,
    /// Next segment marker (5).
    NextSegment,
    /// ECS network data (6).
    ECS,
    /// Full game state snapshot (7).
    Snapshot,
    /// Copy of the header settings (8).
    ReplayHeaderInfo,
    /// Any other type byte, kept as it was.
    Unknown(u8),
}

pub open spec fn packet_type_of(b: u8) -> ReplayPacketType {
    if b == 0 {
        ReplayPacketType::EndMarker
    } else if b == 1 {
        ReplayPacketType::StartMarker
    } else if b == 2 {
        ReplayPacketType::AircraftSmall
    } else if b == 3 {
        ReplayPacketType::Chat
    } else if b == 4 {
        ReplayPacketType::MPI
    } else if b == 5 {
        ReplayPacketType::NextSegment
    } else if b == 6 {
        ReplayPacketType::ECS
    } else if b == 7 {
        ReplayPacketType::Snapshot
    } else if b == 8 {
        ReplayPacketType::ReplayHeaderInfo
    } else {
        ReplayPacketType::Unknown(b)
    }
}

impl ReplayPacketType {
    /// The kind that a type byte names.
    pub fn from_byte(b: u8) -> (t: Self)
        ensures
            t == packet_type_of(b),
    {
        match b {
            0 => ReplayPacketType::EndMarker,
            1 => ReplayPacketType::StartMarker,
            2 => ReplayPacketType::AircraftSmall,
            3 => ReplayPacketType::Chat,
            4 => ReplayPacketType::MPI,
            5 => ReplayPacketType::NextSegment,
            6 => ReplayPacketType::ECS,
            7 => ReplayPacketType::Snapshot,
            8 => ReplayPacketType::ReplayHeaderInfo,
            _ => ReplayPacketType::Unknown(b),
        }
    }
}

/// A little-endian `u32` from four bytes.
pub open spec fn le_u32(b: Seq<u8>) -> u32 {
    (b[0] + b[1] * 0x100 + b[2] * 0x1_0000 + b[3] * 0x100_0000) as u32
}

/// Whether a packet header's first byte carries the flag that elides the timestamp.
pub open spec fn elides_timestamp(b0: u8) -> bool {
    b0 & 0x10 != 0
}

/// What reading a packet header from `rest` gives, with `last` the previous
/// packet's timestamp: `Ok(None)` at a clean end, otherwise the type byte, the
/// timestamp and the header length. A header whose flag is set keeps `last`
/// and takes one byte; otherwise four little-endian timestamp bytes follow,
/// and when they are cut off by a clean end the type is still returned with
/// `last`.
pub open spec fn packet_header_outcome(rest: Seq<u8>, fails_at_end: bool, last: u32) -> Result<
    Option<(u8, u32, usize)>,
    DecodeError,
> {
    if rest.len() == 0 {
        if fails_at_end {
            Err(DecodeError::Io)
        } else {
            Ok(None)
        }
    } else if elides_timestamp(rest[0]) {
        Ok(Some(((rest[0] ^ 0x10) as u8, last, 1usize)))
    } else if rest.len() >= 5 {
        Ok(Some((rest[0], le_u32(rest.subrange(1, 5)), 5usize)))
    } else if fails_at_end {
        Err(DecodeError::Io)
    } else {
        Ok(Some((rest[0], last, 1usize)))
    }
}

/// Reads a packet header (type byte and, unless elided, a timestamp) from the
/// start of a frame.
pub fn read_packet_header_from_stream(stream: &mut ByteStream, last_timestamp_ms: u32) -> (r: Result<
    Option<(u8, u32, usize)>,
    DecodeError,
>)
    requires
        old(stream).wf(),
    ensures
        final(stream).wf(),
        r == packet_header_outcome(old(stream).rest(), old(stream).fails_at_end(), last_timestamp_ms),
        final(stream).data() == old(stream).data(),
        final(stream).fails_at_end() == old(stream).fails_at_end(),
        r matches Ok(Some((_, _, n))) ==> final(stream).position() == old(stream).position() + n,
{
    let avail = stream.remaining();
    if avail == 0 {
        return match stream.end_error() {
            Some(e) => Err(e),
            None => Ok(None),
        };
    }
    let b0 = stream.peek(0);
    if b0 & 0x10 != 0 {
        let _ = stream.take(1);
        return Ok(Some((b0 ^ 0x10, last_timestamp_ms, 1)));
    }
    if avail >= 5 {
        let h = stream.take(5);
        let ts: u32 = h[1] as u32 + h[2] as u32 * 0x100 + h[3] as u32 * 0x1_0000 + h[4] as u32
            * 0x100_0000;
        proof {
            let rest = old(stream).rest();
            assert(h@ =~= rest.subrange(0, 5));
            assert(rest.subrange(1, 5)[0] == h@[1]);
            assert(rest.subrange(1, 5)[1] == h@[2]);
            assert(rest.subrange(1, 5)[2] == h@[3]);
            assert(rest.subrange(1, 5)[3] == h@[4]);
        }
        return Ok(Some((b0, ts, 5)));
    }
    match stream.end_error() {
        Some(e) => Err(e),
        None => {
            let _ = stream.take(1);
            Ok(Some((b0, last_timestamp_ms, 1)))
        },
    }
}

/// One packet of the stream.
#[derive(Debug, Clone)]
pub struct PacketInfo {
    pub packet_type: ReplayPacketType,
    /// Milliseconds; inherited from the previous packet when the header elides it.
    pub timestamp_ms: u32,
    /// The frame's bytes after the packet header.
    pub payload: Vec<u8>,
}

/// A packet as a value.
pub struct PacketView {
    pub packet_type: ReplayPacketType,
    pub timestamp_ms: u32,
    pub payload: Seq<u8>,
}

impl View for PacketInfo {
    type V = PacketView;

    open spec fn view(&self) -> PacketView {
        PacketView {
            packet_type: self.packet_type,
            timestamp_ms: self.timestamp_ms,
            payload: self.payload@,
        }
    }
}

} // verus!
