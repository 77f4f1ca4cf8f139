use std::io::Read;
use vstd::prelude::*;

verus! {

/// What decoding the zlib stream at the start of `data` gives: the bytes it
/// decodes to, up to its end, to where its input runs out or to where it is
/// corrupt; and whether it is corrupt before its end.
pub uninterp spec fn zlib_decoding(data: Seq<u8>) -> (Seq<u8>, bool);

/// The bytes that the zlib stream at the start of `data` decodes to.
pub open spec fn zlib_inflated(data: Seq<u8>) -> Seq<u8> {
    zlib_decoding(data).0
}

/// Whether the zlib stream at the start of `data` is corrupt before its end
/// (an input that merely runs out early is not corrupt).
pub open spec fn zlib_corrupt(data: Seq<u8>) -> bool {
    zlib_decoding(data).1
}

/// The first `limit` bytes of `s`, or all of them when there are fewer.
pub open spec fn first_bytes(s: Seq<u8>, limit: u64) -> Seq<u8> {
    if s.len() <= limit {
        s
    } else {
        s.take(limit as int)
    }
}

/// Relies on flate2's `ZlibDecoder`, read to its end through `Read::take(limit)`:
/// unless the stream is corrupt (an `InvalidInput` error), what was read is the
/// start of the decoded stream. A stream whose input runs out early ends with
/// `UnexpectedEof` after all it holds, which is an end, not a corruption. The
/// flag says the stream was found corrupt; the bytes before the corruption are
/// kept. Read without a limit, the stream is followed to its end, so the flag is
/// set exactly when the stream is corrupt. An empty input is an input that runs
/// out at once: nothing is read and it is not corrupt.
#[verifier::external_body]
pub(crate) fn inflate_zlib(data: &[u8], limit: u64) -> (r: (Vec<u8>, bool))
    ensures
        !r.1 ==> r.0@ == first_bytes(zlib_decoding(data@).0, limit),
        limit == u64::MAX ==> (r.1 <==> zlib_decoding(data@).1),
        data@.len() == 0 ==> r.0@.len() == 0 && !r.1,
{
    let mut out = Vec::new();
    let res = flate2::read::ZlibDecoder::new(data).take(limit).read_to_end(&mut out);
    let corrupt = match res {
        Ok(_) => false,
        Err(e) => e.kind() != std::io::ErrorKind::UnexpectedEof,
    };
    (out, corrupt)
}

} // verus!
