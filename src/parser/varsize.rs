use vstd::prelude::*;

use super::error::DecodeError;
use super::stream::ByteStream;

verus! {

/// Total length of a size prefix, from its first byte; 0 marks the invalid
/// form `11xxxxxx`.
///
/// | first byte | bytes |
/// |------------|-------|
/// | `10xxxxxx` | 1     |
/// | `11xxxxxx` | —     |
/// | `01xxxxxx` | 2     |
/// | `001xxxxx` | 3     |
/// | `0001xxxx` | 4     |
/// | `0000xxxx` | 5     |
pub open spec fn varsize_len(b0: u8) -> nat {
    if b0 >= 0xC0 {
        0
    } else if b0 >= 0x80 {
        1
    } else if b0 >= 0x40 {
        2
    } else if b0 >= 0x20 {
        3
    } else if b0 >= 0x10 {
        4
    } else {
        5
    }
}

/// The size that a complete prefix `p` encodes. Each class from 1 to 4 bytes is
/// big-endian with the class's marker bit cleared (the XOR of the format); the
/// 5-byte class ignores its first byte and reads a little-endian `u32`.
pub open spec fn varsize_value(p: Seq<u8>) -> int {
    let b0 = p[0] as int;
    if b0 >= 0x80 {
        b0 - 0x80
    } else if b0 >= 0x40 {
        (b0 - 0x40) * 0x100 + p[1]
    } else if b0 >= 0x20 {
        (b0 - 0x20) * 0x1_0000 + p[1] * 0x100 + p[2]
    } else if b0 >= 0x10 {
        (b0 - 0x10) * 0x100_0000 + p[1] * 0x1_0000 + p[2] * 0x100 + p[3]
    } else {
        p[1] + p[2] * 0x100 + p[3] * 0x1_0000 + p[4] * 0x100_0000
    }
}

/// What reading a size prefix from `rest` gives: `Ok(None)` at a clean end,
/// the size and the prefix length, or the error.
pub open spec fn varsize_outcome(rest: Seq<u8>, fails_at_end: bool) -> Result<
    Option<(u32, usize)>,
    DecodeError,
> {
    if rest.len() == 0 {
        if fails_at_end {
            Err(DecodeError::Io)
        } else {
            Ok(None)
        }
    } else if varsize_len(rest[0]) == 0 {
        Err(DecodeError::InvalidPrefix(rest[0]))
    } else if rest.len() < varsize_len(rest[0]) {
        if fails_at_end {
            Err(DecodeError::Io)
        } else {
            Err(DecodeError::TruncatedPrefix)
        }
    } else {
        Ok(Some((varsize_value(rest) as u32, varsize_len(rest[0]) as usize)))
    }
}

/// The shortest prefix that encodes `n`.
pub open spec fn varsize_encoding(n: u32) -> Seq<u8> {
    if n < 0x40 {
        seq![(0x80 + n) as u8]
    } else if n < 0x4000 {
        seq![(0x40 + n / 0x100) as u8, (n % 0x100) as u8]
    } else if n < 0x20_0000 {
        seq![(0x20 + n / 0x1_0000) as u8, (n / 0x100 % 0x100) as u8, (n % 0x100) as u8]
    } else if n < 0x1000_0000 {
        seq![
            (0x10 + n / 0x100_0000) as u8,
            (n / 0x1_0000 % 0x100) as u8,
            (n / 0x100 % 0x100) as u8,
            (n % 0x100) as u8,
        ]
    } else {
        seq![
            0u8,
            (n % 0x100) as u8,
            (n / 0x100 % 0x100) as u8,
            (n / 0x1_0000 % 0x100) as u8,
            (n / 0x100_0000) as u8,
        ]
    }
}

/// Every size fits the value range of its class, so a decoded size is always a `u32`.
pub proof fn lemma_varsize_value_fits(p: Seq<u8>)
    requires
        p.len() >= 1,
        varsize_len(p[0]) > 0,
        p.len() >= varsize_len(p[0]),
    ensures
        0 <= varsize_value(p) <= u32::MAX,
{
}

/// Encoding any `u32` in its shortest class and decoding it gives it back,
/// consuming exactly the encoding, whatever follows it.
pub proof fn lemma_varsize_round_trip(n: u32, tail: Seq<u8>, fails_at_end: bool)
    ensures
        varsize_outcome(varsize_encoding(n) + tail, fails_at_end) == Ok::<
            Option<(u32, usize)>,
            DecodeError,
        >(Some((n, varsize_encoding(n).len() as usize))),
{
    let e = varsize_encoding(n);
    let s = e + tail;
    assert(s[0] == e[0]);
    assert(e.len() >= 1);
    assert(varsize_len(e[0]) == e.len());
    assert(s.subrange(0, e.len() as int) =~= e);
    assert(forall|i: int| 0 <= i < e.len() ==> s[i] == e[i]);
    assert(varsize_value(s) == n);
}

/// Reads a size prefix: `Ok(None)` at a clean end of the source, otherwise the
/// size with the number of prefix bytes consumed.
pub fn read_variable_length_size(stream: &mut ByteStream) -> (r: Result<
    Option<(u32, usize)>,
    DecodeError,
>)
    requires
        old(stream).wf(),
    ensures
        final(stream).wf(),
        r == varsize_outcome(old(stream).rest(), old(stream).fails_at_end()),
        final(stream).data() == old(stream).data(),
        final(stream).fails_at_end() == old(stream).fails_at_end(),
        r matches Ok(Some((_, n))) ==> final(stream).position() == old(stream).position() + n,
        !(r is Ok && r->Ok_0 is Some) ==> final(stream).position() == old(stream).position(),
{
    let avail = stream.remaining();
    if avail == 0 {
        return match stream.end_error() {
            Some(e) => Err(e),
            None => Ok(None),
        };
    }
    let b0 = stream.peek(0);
    let len: usize = if b0 >= 0xC0 {
        return Err(DecodeError::InvalidPrefix(b0));
    } else if b0 >= 0x80 {
        1
    } else if b0 >= 0x40 {
        2
    } else if b0 >= 0x20 {
        3
    } else if b0 >= 0x10 {
        4
    } else {
        5
    };
    if avail < len {
        return match stream.end_error() {
            Some(e) => Err(e),
            None => Err(DecodeError::TruncatedPrefix),
        };
    }
    let p = stream.take(len);
    let size: u32 = if len == 1 {
        (b0 - 0x80) as u32
    } else if len == 2 {
        (b0 - 0x40) as u32 * 0x100 + p[1] as u32
    } else if len == 3 {
        (b0 - 0x20) as u32 * 0x1_0000 + p[1] as u32 * 0x100 + p[2] as u32
    } else if len == 4 {
        (b0 - 0x10) as u32 * 0x100_0000 + p[1] as u32 * 0x1_0000 + p[2] as u32 * 0x100
            + p[3] as u32
    } else {
        p[1] as u32 + p[2] as u32 * 0x100 + p[3] as u32 * 0x1_0000 + p[4] as u32 * 0x100_0000
    };
    proof {
        let rest = old(stream).rest();
        assert(p@ =~= rest.subrange(0, len as int));
        assert(forall|i: int| 0 <= i < len ==> p@[i] == rest[i]);
    }
    Ok(Some((size, len)))
}

} // verus!
