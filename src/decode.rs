//! Decoding a whole replay file: header detection, choice of the stream
//! offset, and the packet loop.
use vstd::prelude::*;

use crate::header::{header_matches, parse_header, ReplayHeader, HEADER_LEN};
use crate::parser::replay::stream_outcome;
use crate::parser::{process_replay_stream, DecodeError, ParsedReplay};
use crate::utils::zlib_scan::{find_zlib_header_offset, first_zlib_marker, is_zlib_marker};

verus! {

/// A decoded replay file.
#[derive(Debug)]
pub struct DecodedReplay {
    /// The header, when the file starts with the replay signature and is long
    /// enough to hold one.
    pub header: Option<ReplayHeader>,
    pub replay: ParsedReplay,
}

/// Whether a file starts with the replay signature `E5 AC`.
pub open spec fn has_signature(file: Seq<u8>) -> bool {
    file.len() >= 2 && file[0] == 0xE5 && file[1] == 0xAC
}

/// Whether the stream offset is searched for: no offset was given, the file
/// has a header, and the stream is compressed.
pub open spec fn searches_offset(file: Seq<u8>, offset: Option<u64>, skip_zlib: bool) -> bool {
    offset is None && has_signature(file) && file.len() >= HEADER_LEN && !skip_zlib
}

/// Whether `d` is the decoding of `file` from stream offset `start`.
pub open spec fn decoded_from(
    file: Seq<u8>,
    start: u64,
    skip_zlib: bool,
    parse_results: bool,
    r: Result<DecodedReplay, DecodeError>,
) -> bool {
    let header_present = has_signature(file) && file.len() >= HEADER_LEN;
    match r {
        Ok(d) => {
            &&& stream_outcome(file, start, skip_zlib, Ok(d.replay))
            &&& (d.header is Some <==> header_present)
            &&& d.header matches Some(h) ==> header_matches(file, h)
            &&& d.replay.replay_results is None
            &&& d.replay.results_block_start == match d.header {
                Some(h) => if parse_results && 0 < h.rez_offset < file.len() {
                    Some(h.rez_offset as usize)
                } else {
                    None::<usize>
                },
                None => None::<usize>,
            }
        },
        Err(e) => stream_outcome(file, start, skip_zlib, Err(e)),
    }
}

/// Decodes a replay file. A file starting with `E5 AC` has its header parsed.
/// The stream starts at `offset` when given; otherwise, for a file with a
/// header read through zlib, at the first zlib stream header from byte 2
/// (`ZlibScanFailed` when there is none); otherwise at 0. With
/// `parse_results`, the results block that the header names is located.
pub fn decode_replay(file: &[u8], offset: Option<u64>, skip_zlib: bool, parse_results: bool) -> (r:
    Result<DecodedReplay, DecodeError>)
    ensures
        !searches_offset(file@, offset, skip_zlib) ==> decoded_from(
            file@,
            match offset {
                Some(o) => o,
                None => 0,
            },
            skip_zlib,
            parse_results,
            r,
        ),
        searches_offset(file@, offset, skip_zlib) ==> ((forall|j: int|
            2 <= j ==> !is_zlib_marker(file@, j)) ==> r == Err::<DecodedReplay, DecodeError>(
            DecodeError::ZlibScanFailed,
        )),
        searches_offset(file@, offset, skip_zlib) ==> (forall|i: u64|
            first_zlib_marker(file@, 2, Some(i as int)) ==> decoded_from(
                file@,
                i,
                skip_zlib,
                parse_results,
                r,
            )),
{
    let has_header = file.len() >= 2 && file[0] == 0xE5 && file[1] == 0xAC;
    let header = if has_header {
        match parse_header(file) {
            Ok(h) => Some(h),
            Err(_) => None,
        }
    } else {
        None
    };
    let start: u64 = match offset {
        Some(o) => o,
        None => {
            if header.is_some() && !skip_zlib {
                match find_zlib_header_offset(file, 2, None) {
                    Some(o) => o,
                    None => {
                        return Err(DecodeError::ZlibScanFailed);
                    },
                }
            } else {
                0
            }
        },
    };
    let wanted = if parse_results {
        header.as_ref()
    } else {
        None
    };
    let replay = match process_replay_stream(file, start, skip_zlib, wanted) {
        Ok(p) => p,
        Err(e) => {
            return Err(e);
        },
    };
    Ok(DecodedReplay { header, replay })
}

/// How the results' status reads for a person: the game writes "fail" for a
/// victory and "success" for a defeat.
pub fn humanize_victory_or_loss(input: &str) -> (s: String)
    ensures
        s@ == (if input@ == "fail"@ {
            "Victory"@
        } else if input@ == "success"@ {
            "Defeat"@
        } else if input@ == "left"@ {
            "Draw"@
        } else {
            "Unknown"@
        }),
{
    let i = input.to_string();
    if i == "fail".to_string() {
        "Victory".to_string()
    } else if i == "success".to_string() {
        "Defeat".to_string()
    } else if i == "left".to_string() {
        "Draw".to_string()
    } else {
        "Unknown".to_string()
    }
}

} // verus!
