//! The fixed-layout file header.
use vstd::prelude::*;
use vstd::utf8::*;

use crate::parser::DecodeError;

verus! {

/// Length of the fixed header: the sum of its fields and reserved gaps.
pub const HEADER_LEN: usize = 1224;

/// The difficulty byte: low nibble the difficulty, high nibble unknown.
#[derive(Debug, Clone, Copy, PartialEq, Eq, Structural)]
pub struct Difficulty {
    pub unknown_nibble: u8,
    pub difficulty_value: u8,
}

impl Difficulty {
    /// Splits the difficulty byte into its two nibbles.
    pub fn from_byte(byte: u8) -> (d: Self)
        ensures
            d.unknown_nibble == byte / 16,
            d.difficulty_value == byte % 16,
    {
        Difficulty { unknown_nibble: byte / 16, difficulty_value: byte % 16 }
    }
}

/// The header of a replay file, for server and client captures alike.
#[derive(Debug, Clone)]
pub struct ReplayHeader {
    /// The magic bytes, as a little-endian `u32`.
    pub magic: u32,
    /// The replay format version.
    pub version: u32,
    /// The level's bin file.
    pub level: String,
    /// The mission's blk file.
    pub level_settings: String,
    /// The kind of battle (battle, conquest, domination, ...).
    pub battle_type: String,
    /// Time of day.
    pub environment: String,
    /// Cloud conditions.
    pub visibility: String,
    /// Where the results block starts in the file; 0 when there is none.
    pub rez_offset: u32,
    pub difficulty: Difficulty,
    pub session_type: u32,
    /// The session id.
    pub session_id_hex: u64,
    pub m_set_size: u32,
    pub loc_name: String,
    /// Seconds since the epoch.
    pub start_time: u32,
    /// Minutes.
    pub time_limit: u32,
    pub score_limit: u32,
    pub battle_class: String,
    pub battle_kill_streak: String,
}

/// What `String::from_utf8_lossy` makes of some bytes.
pub uninterp spec fn utf8_lossy(bytes: Seq<u8>) -> Seq<char>;

/// Relies on `String::from_utf8_lossy`: invalid sequences become U+FFFD, and
/// valid UTF-8 is taken as it is.
#[verifier::external_body]
fn string_from_utf8_lossy(bytes: &[u8]) -> (r: String)
    ensures
        r@ == utf8_lossy(bytes@),
        valid_utf8(bytes@) ==> r@ == decode_utf8(bytes@),
{
    String::from_utf8_lossy(bytes).into_owned()
}

/// The length of the part of `b` before its first NUL byte.
pub open spec fn nul_index(b: Seq<u8>) -> nat
    decreases b.len(),
{
    if b.len() == 0 || b[0] == 0 {
        0
    } else {
        1 + nul_index(b.drop_first())
    }
}

proof fn lemma_nul_index(b: Seq<u8>, i: int)
    requires
        0 <= i <= b.len(),
        forall|k: int| 0 <= k < i ==> b[k] != 0,
        i == b.len() || b[i] == 0,
    ensures
        nul_index(b) == i,
    decreases b.len(),
{
    if b.len() > 0 && b[0] != 0 {
        lemma_nul_index(b.drop_first(), i - 1);
    }
}

/// A string field: `len` bytes at `off`, up to the first NUL, decoded lossily.
pub open spec fn string_field(b: Seq<u8>, off: int, len: int) -> Seq<char> {
    let f = b.subrange(off, off + len);
    utf8_lossy(f.take(nul_index(f) as int))
}

pub open spec fn u32_field(b: Seq<u8>, off: int) -> u32 {
    (b[off] + b[off + 1] * 0x100 + b[off + 2] * 0x1_0000 + b[off + 3] * 0x100_0000) as u32
}

pub open spec fn u64_field(b: Seq<u8>, off: int) -> u64 {
    (u32_field(b, off) + u32_field(b, off + 4) * 0x1_0000_0000) as u64
}

/// Reads a little-endian `u32` at `off`.
fn read_u32(b: &[u8], off: usize) -> (v: u32)
    requires
        off + 4 <= b@.len(),
    ensures
        v == u32_field(b@, off as int),
{
    b[off] as u32 + b[off + 1] as u32 * 0x100 + b[off + 2] as u32 * 0x1_0000 + b[off + 3] as u32
        * 0x100_0000
}

/// Reads a little-endian `u64` at `off`.
fn read_u64(b: &[u8], off: usize) -> (v: u64)
    requires
        off + 8 <= b@.len(),
    ensures
        v == u64_field(b@, off as int),
{
    let _n = b.len();
    let lo = read_u32(b, off) as u64;
    let hi = read_u32(b, off + 4) as u64;
    lo + hi * 0x1_0000_0000
}

/// Reads a string field of `max_len` bytes at `off`: the bytes before the
/// first NUL, decoded lossily.
fn read_string(b: &[u8], off: usize, max_len: usize) -> (s: String)
    requires
        off + max_len <= b@.len(),
    ensures
        s@ == string_field(b@, off as int, max_len as int),
{
    let ghost f = b@.subrange(off as int, off + max_len);
    let _n = b.len();
    let mut i: usize = 0;
    while i < max_len && b[off + i] != 0
        invariant
            i <= max_len,
            off + max_len <= b@.len(),
            b@.len() <= usize::MAX,
            f == b@.subrange(off as int, off + max_len),
            forall|k: int| 0 <= k < i ==> f[k] != 0,
        decreases max_len - i,
    {
        i = i + 1;
    }
    proof {
        lemma_nul_index(f, i as int);
    }
    let bytes = &b[off..off + i];
    assert(bytes@ =~= f.take(i as int));
    string_from_utf8_lossy(bytes)
}

/// Whether `h` holds the fields of the header at the start of `b`.
pub open spec fn header_matches(b: Seq<u8>, h: ReplayHeader) -> bool {
    &&& h.magic == u32_field(b, 0)
    &&& h.version == u32_field(b, 4)
    &&& h.level@ == string_field(b, 8, 128)
    &&& h.level_settings@ == string_field(b, 136, 260)
    &&& h.battle_type@ == string_field(b, 396, 128)
    &&& h.environment@ == string_field(b, 524, 128)
    &&& h.visibility@ == string_field(b, 652, 32)
    &&& h.rez_offset == u32_field(b, 684)
    &&& h.difficulty.unknown_nibble == b[688] / 16
    &&& h.difficulty.difficulty_value == b[688] % 16
    &&& h.session_type == u32_field(b, 724)
    &&& h.session_id_hex == u64_field(b, 732)
    &&& h.m_set_size == u32_field(b, 744)
    &&& h.loc_name@ == string_field(b, 780, 128)
    &&& h.start_time == u32_field(b, 908)
    &&& h.time_limit == u32_field(b, 912)
    &&& h.score_limit == u32_field(b, 916)
    &&& h.battle_class@ == string_field(b, 968, 128)
    &&& h.battle_kill_streak@ == string_field(b, 1096, 128)
}

/// Decodes the fixed header from the start of a file; `ShortFile` when the
/// file is shorter than the header. The magic bytes are not checked.
pub fn parse_header(b: &[u8]) -> (r: Result<ReplayHeader, DecodeError>)
    ensures
        b@.len() < HEADER_LEN <==> r == Err::<ReplayHeader, DecodeError>(DecodeError::ShortFile),
        r is Ok <==> b@.len() >= HEADER_LEN,
        r matches Ok(h) ==> header_matches(b@, h),
{
    if b.len() < HEADER_LEN {
        return Err(DecodeError::ShortFile);
    }
    Ok(
        ReplayHeader {
            magic: read_u32(b, 0),
            version: read_u32(b, 4),
            level: read_string(b, 8, 128),
            level_settings: read_string(b, 136, 260),
            battle_type: read_string(b, 396, 128),
            environment: read_string(b, 524, 128),
            visibility: read_string(b, 652, 32),
            rez_offset: read_u32(b, 684),
            // 35 reserved bytes follow the difficulty byte
            difficulty: Difficulty::from_byte(b[688]),
            // 4 reserved bytes follow the session type
            session_type: read_u32(b, 724),
            // 4 reserved bytes follow the session id
            session_id_hex: read_u64(b, 732),
            // 32 reserved bytes follow the set size
            m_set_size: read_u32(b, 744),
            loc_name: read_string(b, 780, 128),
            start_time: read_u32(b, 908),
            time_limit: read_u32(b, 912),
            // 48 reserved bytes follow the score limit
            score_limit: read_u32(b, 916),
            battle_class: read_string(b, 968, 128),
            battle_kill_streak: read_string(b, 1096, 128),
        },
    )
}

} // verus!
