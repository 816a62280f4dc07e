use vstd::prelude::*;

verus! {

/// Length of the fixed part of an Ogg page header.
pub const PAGE_HEADER_SIZE: usize = 27;

/// Bisection stops once the search window is at most this many bytes wide.
pub const SEEK_WINDOW: u64 = 4096;

/// The page capture pattern `OggS` starts at byte `p`.
pub open spec fn capture_at(data: Seq<u8>, p: int) -> bool {
    &&& 0 <= p
    &&& p + 4 <= data.len()
    &&& data[p] == 0x4f
    &&& data[p + 1] == 0x67
    &&& data[p + 2] == 0x67
    &&& data[p + 3] == 0x53
}

/// The first page start at or after `p` and before `limit`, if any.
pub open spec fn first_capture(data: Seq<u8>, p: int, limit: int) -> Option<int>
    decreases limit - p,
{
    if p >= limit {
        None
    } else if capture_at(data, p) {
        Some(p)
    } else {
        first_capture(data, p + 1, limit)
    }
}

/// The unsigned little-endian value of the eight bytes starting at `p`.
pub open spec fn le_u64_at(data: Seq<u8>, p: int) -> int {
    data[p] + 0x100 * (data[p + 1] + 0x100 * (data[p + 2] + 0x100 * (data[p + 3] + 0x100 * (
    data[p + 4] + 0x100 * (data[p + 5] + 0x100 * (data[p + 6] + 0x100 * data[p + 7]))))))
}

/// The signed (two's complement) little-endian 64-bit value at `p`.
pub open spec fn le_i64_at(data: Seq<u8>, p: int) -> int {
    let u = le_u64_at(data, p);
    if u < 0x8000_0000_0000_0000 {
        u
    } else {
        u - 0x1_0000_0000_0000_0000
    }
}

/// The granule position of the page whose header starts at `p` (bytes 6..14).
pub open spec fn granule_at(data: Seq<u8>, p: int) -> int {
    le_i64_at(data, p + 6)
}

/// Bisection for the last page whose granule position does not pass `target`,
/// over the window `[left, right]` with the best candidate `(best, last)` so
/// far: a page at or below the target moves the window right and, when it is
/// later than the candidate, becomes the candidate; a page past the target
/// moves the window left. `None` when a page header found on the way is cut short by the end of
/// the data.
pub open spec fn seek_search(
    data: Seq<u8>,
    target: int,
    left: int,
    right: int,
    best: int,
    last: int,
) -> Option<(int, int)>
    decreases right - left,
{
    if right - left <= SEEK_WINDOW {
        Some((best, last))
    } else {
        let mid = left + (right - left) / 2;
        match first_capture(data, mid, right) {
            None => seek_search(data, target, left, mid, best, last),
            Some(p) => if p + PAGE_HEADER_SIZE > data.len() {
                None
            } else {
                let g = granule_at(data, p);
                if g < 0 {
                    seek_search(data, target, mid, right, best, last)
                } else if g <= target {
                    if g > last {
                        seek_search(data, target, mid, right, p, g)
                    } else {
                        seek_search(data, target, mid, right, best, last)
                    }
                } else {
                    seek_search(data, target, left, mid, best, last)
                }
            },
        }
    }
}

proof fn lemma_first_capture(data: Seq<u8>, p: int, limit: int)
    ensures
        first_capture(data, p, limit) matches Some(q) ==> p <= q < limit && capture_at(data, q),
    decreases limit - p,
{
    if p < limit && !capture_at(data, p) {
        lemma_first_capture(data, p + 1, limit);
    }
}

/// The candidate a search settles on never passes the target.
proof fn lemma_seek_dominated(
    data: Seq<u8>,
    target: int,
    left: int,
    right: int,
    best: int,
    last: int,
)
    requires
        0 <= last <= target,
    ensures
        seek_search(data, target, left, right, best, last) matches Some((b, g)) ==> 0 <= g
            <= target,
    decreases right - left,
{
    if right - left > SEEK_WINDOW {
        let mid = left + (right - left) / 2;
        match first_capture(data, mid, right) {
            None => lemma_seek_dominated(data, target, left, mid, best, last),
            Some(p) => if p + PAGE_HEADER_SIZE <= data.len() {
                let g = granule_at(data, p);
                lemma_seek_dominated(data, target, mid, right, best, last);
                lemma_seek_dominated(data, target, left, mid, best, last);
                if 0 <= g <= target {
                    lemma_seek_dominated(data, target, mid, right, p, g);
                }
            },
        }
    }
}

/// The position a seek settles on: the start of the stream with granule 0, or
/// a page start whose header carries granule `g`.
pub open spec fn is_seek_candidate(data: Seq<u8>, b: int, g: int) -> bool {
    (b == 0 && g == 0) || (capture_at(data, b) && b + PAGE_HEADER_SIZE <= data.len()
        && granule_at(data, b) == g)
}

proof fn lemma_seek_candidate(
    data: Seq<u8>,
    target: int,
    left: int,
    right: int,
    best: int,
    last: int,
)
    requires
        is_seek_candidate(data, best, last),
    ensures
        seek_search(data, target, left, right, best, last) matches Some((b, g))
            ==> is_seek_candidate(data, b, g),
    decreases right - left,
{
    if right - left > SEEK_WINDOW {
        let mid = left + (right - left) / 2;
        lemma_first_capture(data, mid, right);
        match first_capture(data, mid, right) {
            None => lemma_seek_candidate(data, target, left, mid, best, last),
            Some(p) => if p + PAGE_HEADER_SIZE <= data.len() {
                let g = granule_at(data, p);
                lemma_seek_candidate(data, target, mid, right, best, last);
                lemma_seek_candidate(data, target, left, mid, best, last);
                lemma_seek_candidate(data, target, mid, right, p, g);
            },
        }
    }
}

/// A seek to a non-negative target lands on a page whose granule position is
/// at most the target.
pub proof fn lemma_seek_point_dominated(data: Seq<u8>, target: int)
    requires
        target >= 0,
    ensures
        seek_point(data, target) matches Some((b, g)) ==> 0 <= g <= target
            && is_seek_candidate(data, b, g),
{
    lemma_seek_dominated(data, target, 0, data.len() as int, 0, 0);
    lemma_seek_candidate(data, target, 0, data.len() as int, 0, 0);
}

/// The byte position and granule position a seek to `target` lands on.
pub open spec fn seek_point(data: Seq<u8>, target: int) -> Option<(int, int)> {
    seek_search(data, target, 0, data.len() as int, 0, 0)
}

/// Whether the page capture pattern starts at byte `p`.
pub fn is_capture_at(data: &[u8], p: usize) -> (r: bool)
    ensures
        r == capture_at(data@, p as int),
{
    p <= data.len() && data.len() - p >= 4 && data[p] == 0x4f && data[p + 1] == 0x67
        && data[p + 2] == 0x67 && data[p + 3] == 0x53
}

/// Scans forward byte by byte from `from` for a page start before `limit`.
pub fn find_capture(data: &[u8], from: usize, limit: usize) -> (r: Option<usize>)
    ensures
        r == (match first_capture(data@, from as int, limit as int) {
            Some(p) => Some(p as usize),
            None => None::<usize>,
        }),
{
    let mut p = from;
    while p < limit
        invariant
            from <= p,
            first_capture(data@, from as int, limit as int) == first_capture(
                data@,
                p as int,
                limit as int,
            ),
        decreases limit - p,
    {
        if is_capture_at(data, p) {
            return Some(p);
        }
        p += 1;
    }
    None
}

/// Reads the little-endian unsigned 64-bit value at `p`.
pub fn read_le_u64(data: &[u8], p: usize) -> (r: u64)
    requires
        p + 8 <= data@.len(),
    ensures
        r == le_u64_at(data@, p as int),
{
    let b0 = data[p] as u64;
    let b1 = data[p + 1] as u64;
    let b2 = data[p + 2] as u64;
    let b3 = data[p + 3] as u64;
    let b4 = data[p + 4] as u64;
    let b5 = data[p + 5] as u64;
    let b6 = data[p + 6] as u64;
    let b7 = data[p + 7] as u64;
    b0 + 0x100 * (b1 + 0x100 * (b2 + 0x100 * (b3 + 0x100 * (b4 + 0x100 * (b5 + 0x100 * (b6
        + 0x100 * b7))))))
}

/// Reads the signed little-endian 64-bit value at `p`.
pub fn read_le_i64(data: &[u8], p: usize) -> (r: i64)
    requires
        p + 8 <= data@.len(),
    ensures
        r == le_i64_at(data@, p as int),
{
    let u = read_le_u64(data, p);
    if u < 0x8000_0000_0000_0000 {
        u as i64
    } else {
        let m = (u64::MAX - u) as i64;
        -m - 1
    }
}

/// Bisection over the bytes of an Ogg stream for the last page whose granule
/// position does not pass `target`: returns that page's byte position and
/// granule position, or `None` when a page header met on the way is cut off
/// by the end of the data.
pub fn find_seek_point(data: &[u8], target: u64) -> (r: Option<(usize, i64)>)
    ensures
        r matches Some((b, g)) ==> seek_point(data@, target as int) == Some((b as int, g as int)),
        r is None ==> seek_point(data@, target as int) is None,
        r matches Some((b, g)) ==> g >= 0 && b < data@.len() || (b == 0 && g == 0),
        r matches Some((b, g)) ==> g <= target,
        r matches Some((b, g)) ==> is_seek_candidate(data@, b as int, g as int),
{
    let len = data.len();
    let mut left: usize = 0;
    let mut right: usize = len;
    let mut best: usize = 0;
    let mut last: i64 = 0;
    while right - left > 4096
        invariant
            left <= right <= len,
            len == data@.len(),
            last >= 0,
            last <= target,
            best < len || (best == 0 && last == 0),
            seek_search(data@, target as int, left as int, right as int, best as int, last as int)
                == seek_point(data@, target as int),
        decreases right - left,
    {
        let mid = left + (right - left) / 2;
        proof {
            lemma_first_capture(data@, mid as int, right as int);
        }
        match find_capture(data, mid, right) {
            None => {
                right = mid;
            },
            Some(p) => {
                if len - p < PAGE_HEADER_SIZE {
                    return None;
                }
                let g = read_le_i64(data, p + 6);
                if g < 0 {
                    left = mid;
                } else if (g as u64) <= target {
                    left = mid;
                    if g > last {
                        last = g;
                        best = p;
                    }
                } else {
                    right = mid;
                }
            },
        }
    }
    proof {
        lemma_seek_point_dominated(data@, target as int);
    }
    Some((best, last))
}

} // verus!
