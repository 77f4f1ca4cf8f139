use vstd::prelude::*;

verus! {

/// Size of the chunks that the search scans.
pub const ZLIB_SEARCH_CHUNK_SIZE: usize = 64 * 1024;

/// Whether `n` occurs in `h` at index `i`.
pub open spec fn occurs_at(h: Seq<u8>, n: Seq<u8>, i: int) -> bool {
    0 <= i && i + n.len() <= h.len() && h.subrange(i, i + n.len()) == n
}

/// Relies on `memchr::memmem::find`: the index of the first occurrence of the
/// needle in the haystack.
#[verifier::external_body]
fn memmem_find(haystack: &[u8], needle: &[u8]) -> (r: Option<usize>)
    ensures
        r matches Some(i) ==> occurs_at(haystack@, needle@, i as int),
        r matches Some(i) ==> forall|j: int| 0 <= j < i ==> !occurs_at(haystack@, needle@, j),
        r is None ==> forall|j: int| !occurs_at(haystack@, needle@, j),
{
    memchr::memmem::find(haystack, needle)
}

/// Whether a zlib stream header starts at `i`: `78` then `5E` (best speed, the
/// usual one), `9C` (default) or `DA` (best compression).
pub open spec fn is_zlib_marker(d: Seq<u8>, i: int) -> bool {
    &&& 0 <= i
    &&& i + 1 < d.len()
    &&& d[i] == 0x78
    &&& (d[i + 1] == 0x5E || d[i + 1] == 0x9C || d[i + 1] == 0xDA)
}

/// Whether `r` is the first zlib header at or after `start`.
pub open spec fn first_zlib_marker(d: Seq<u8>, start: int, r: Option<int>) -> bool {
    match r {
        Some(i) => start <= i && is_zlib_marker(d, i) && forall|j: int|
            start <= j < i ==> !is_zlib_marker(d, j),
        None => forall|j: int| start <= j ==> !is_zlib_marker(d, j),
    }
}

proof fn lemma_marker_occurs(d: Seq<u8>, start: int, b: u8, j: int)
    requires
        0 <= start <= d.len(),
        0 <= j,
    ensures
        occurs_at(d.subrange(start, d.len() as int), seq![0x78u8, b], j) <==> (start + j + 1
            < d.len() && d[start + j] == 0x78 && d[start + j + 1] == b),
{
    let s = d.subrange(start, d.len() as int);
    if start + j + 1 < d.len() && d[start + j] == 0x78 && d[start + j + 1] == b {
        assert(s.subrange(j, j + 2) =~= seq![0x78u8, b]);
    }
    if occurs_at(s, seq![0x78u8, b], j) {
        assert(s.subrange(j, j + 2)[0] == s[j]);
        assert(s.subrange(j, j + 2)[1] == s[j + 1]);
    }
}

/// Whether `78 b` starts at `j`.
pub open spec fn marker_with(d: Seq<u8>, j: int, b: u8) -> bool {
    j + 1 < d.len() && d[j] == 0x78 && d[j + 1] == b
}

/// The earliest occurrence of `78 b` at or after `start`.
fn find_marker(data: &[u8], start: usize, b: u8) -> (r: Option<usize>)
    requires
        start <= data@.len(),
    ensures
        r matches Some(i) ==> start <= i && marker_with(data@, i as int, b),
        forall|j: int|
            start <= j && (r matches Some(i) ==> j < i) ==> !#[trigger] marker_with(data@, j, b),
{
    let search = &data[start..data.len()];
    let needle: Vec<u8> = vec![0x78u8, b];
    assert(needle@ =~= seq![0x78u8, b]);
    let r = memmem_find(search, needle.as_slice());
    proof {
        assert forall|j: int|
            start <= j && (r matches Some(i) ==> j < start + i) implies !#[trigger] marker_with(
                data@,
                j,
                b,
            ) by {
            lemma_marker_occurs(data@, start as int, b, j - start);
        }
        if let Some(i) = r {
            lemma_marker_occurs(data@, start as int, b, i as int);
        }
    }
    let _len = data.len();
    match r {
        Some(i) => Some(start + i),
        None => None,
    }
}

/// The earlier of two search results.
fn earlier(a: Option<usize>, b: Option<usize>) -> (r: Option<usize>)
    ensures
        r == (match (a, b) {
            (Some(x), Some(y)) => if x <= y {
                Some(x)
            } else {
                Some(y)
            },
            (Some(x), None) => Some(x),
            (None, y) => y,
        }),
{
    match (a, b) {
        (Some(x), Some(y)) => if x <= y {
            Some(x)
        } else {
            Some(y)
        },
        (Some(x), None) => Some(x),
        (None, y) => y,
    }
}

/// The offset of the first zlib stream header at or after `search_start_offset`.
pub fn find_zlib_header(data: &[u8], search_start_offset: usize) -> (r: Option<usize>)
    requires
        search_start_offset <= data@.len(),
    ensures
        first_zlib_marker(
            data@,
            search_start_offset as int,
            match r {
                Some(i) => Some(i as int),
                None => None,
            },
        ),
{
    let a = find_marker(data, search_start_offset, 0x5E);
    let b = find_marker(data, search_start_offset, 0x9C);
    let c = find_marker(data, search_start_offset, 0xDA);
    let r = earlier(earlier(a, b), c);
    proof {
        assert forall|j: int|
            search_start_offset <= j && (r matches Some(i) ==> j < i) implies !is_zlib_marker(
                data@,
                j,
            ) by {
            assert(!marker_with(data@, j, 0x5E));
            assert(!marker_with(data@, j, 0x9C));
            assert(!marker_with(data@, j, 0xDA));
        }
    }
    r
}

/// Searches for the first zlib stream header at or after
/// `search_start_offset`, scanning in chunks of 64 KiB. Each chunk is searched
/// together with the last byte of the one before, so a header split between
/// two chunks is found. The scan runs to the end of the data; `_search_end_offset`
/// bounds nothing.
pub fn find_zlib_header_offset(
    data: &[u8],
    search_start_offset: u64,
    _search_end_offset: Option<u64>,
) -> (r: Option<u64>)
    ensures
        first_zlib_marker(
            data@,
            search_start_offset as int,
            match r {
                Some(i) => Some(i as int),
                None => None,
            },
        ),
{
    let len = data.len();
    if search_start_offset >= len as u64 {
        return None;
    }
    let start = search_start_offset as usize;
    let mut pos = start;
    while pos < len
        invariant
            len == data@.len(),
            start <= pos <= len,
            start == search_start_offset,
            forall|j: int| start <= j && j + 1 < pos ==> !is_zlib_marker(data@, j),
        decreases len - pos,
    {
        let chunk_end = if len - pos > ZLIB_SEARCH_CHUNK_SIZE {
            pos + ZLIB_SEARCH_CHUNK_SIZE
        } else {
            len
        };
        let buffer_start = if pos > start {
            pos - 1
        } else {
            pos
        };
        let buffer = &data[buffer_start..chunk_end];
        let found = find_zlib_header(buffer, 0);
        proof {
            assert forall|k: int| 0 <= k implies is_zlib_marker(buffer@, k) == (is_zlib_marker(
                data@,
                buffer_start + k,
            ) && buffer_start + k + 1 < chunk_end) by {
                if k + 1 < buffer@.len() {
                    assert(buffer@[k] == data@[buffer_start + k]);
                    assert(buffer@[k + 1] == data@[buffer_start + k + 1]);
                }
            }
        }
        if let Some(off) = found {
            proof {
                assert(is_zlib_marker(buffer@, off as int));
                assert forall|j: int| start <= j < buffer_start + off implies !is_zlib_marker(
                    data@,
                    j,
                ) by {
                    if j >= buffer_start {
                        assert(!is_zlib_marker(buffer@, j - buffer_start));
                    }
                }
            }
            return Some((buffer_start + off) as u64);
        }
        proof {
            assert forall|j: int| start <= j && j + 1 < chunk_end implies !is_zlib_marker(
                data@,
                j,
            ) by {
                if j >= buffer_start {
                    assert(!is_zlib_marker(buffer@, j - buffer_start));
                }
            }
        }
        pos = chunk_end;
    }
    None
}

} // verus!
