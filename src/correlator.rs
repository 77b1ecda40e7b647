use vstd::prelude::*;

verus! {

/// The radius, in full-resolution samples, of the fine search around the
/// coarse result: one step of the decimated signal on either side.
pub const FINE_RADIUS: usize = 2;

/// The length of a buffer of `len` samples after averaging adjacent pairs.
pub open spec fn spec_decimated_len(len: int) -> int {
    len / 2
}

/// The positions at which `small` can be laid over `big`: `0..=big - small`.
pub open spec fn max_offset(big_len: int, small_len: int) -> int {
    big_len - small_len
}

/// The slice `big[start..end]` in which the fine pass searches.
#[derive(Clone, Copy, Debug, PartialEq, Eq)]
pub struct FineWindow {
    pub start: usize,
    pub end: usize,
}

pub fn decimated_len(len: usize) -> (r: usize)
    ensures
        r == spec_decimated_len(len as int),
{
    len / 2
}

/// The neighbourhood of a coarse result in which the fine pass searches:
/// the coarse offset brought back to full resolution (and into range),
/// widened by the fine radius on both sides and clamped to `big`. It always
/// holds `small` at least once.
pub fn fine_window(coarse: usize, big_len: usize, small_len: usize) -> (r: FineWindow)
    requires
        small_len < big_len,
    ensures
        r.end <= big_len,
        r.start + small_len <= r.end,
        r.start == fine_start(coarse as int, big_len as int, small_len as int),
        r.end == (if r.start + small_len + 2 * FINE_RADIUS <= big_len {
            r.start + small_len + 2 * FINE_RADIUS
        } else {
            big_len as int
        }),
{
    let top = big_len - small_len;
    let pos = if coarse <= top / 2 { 2 * coarse } else { top };
    let start = if pos >= FINE_RADIUS { pos - FINE_RADIUS } else { 0 };
    let end = if 2 * FINE_RADIUS <= big_len - start - small_len {
        start + small_len + 2 * FINE_RADIUS
    } else {
        big_len
    };
    FineWindow { start, end }
}

/// Where the fine window starts for a coarse result `coarse`.
pub open spec fn fine_start(coarse: int, big_len: int, small_len: int) -> int {
    let top = max_offset(big_len, small_len);
    let pos = if coarse <= top / 2 { 2 * coarse } else { top };
    if pos >= FINE_RADIUS { pos - FINE_RADIUS } else { 0 }
}

/// The offset that the fine result `fine`, found in `window`, stands for in
/// `big`. It always lies in `0..=big_len - small_len`; a fine result past the
/// window's last position counts as that position.
pub fn settle_offset(window: FineWindow, fine: usize, big_len: usize, small_len: usize) -> (r: usize)
    requires
        small_len < big_len,
        window.start + small_len <= window.end <= big_len,
    ensures
        0 <= r <= max_offset(big_len as int, small_len as int),
        fine + window.start + small_len <= window.end ==> r == window.start + fine,
        fine + window.start + small_len > window.end ==> r == window.end - small_len,
{
    let last = window.end - small_len - window.start;
    if fine <= last {
        window.start + fine
    } else {
        window.end - small_len
    }
}

} // verus!
