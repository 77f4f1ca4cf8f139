use vstd::prelude::*;

verus! {

/// Why decoding stopped with an error.
#[derive(Debug, Clone, Copy, PartialEq, Eq, Structural)]
pub enum DecodeError {
    /// The byte source failed (a corrupt zlib stream) where more bytes were needed.
    Io,
    /// The input is shorter than the fixed header.
    ShortFile,
    /// A size prefix started with a byte of the form `11xxxxxx`.
    InvalidPrefix(u8),
    /// A size prefix was cut off after its first byte by the end of the stream.
    TruncatedPrefix,
    /// The requested stream offset lies beyond the end of the input.
    OffsetBeyondEof,
    /// No zlib stream marker was found after the file header.
    ZlibScanFailed,
}

} // verus!
