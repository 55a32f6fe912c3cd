//! Index bookkeeping of the cross-correlation used to estimate the direction
//! of arrival of a sound from two microphones.

use vstd::prelude::*;

verus! {

/// Where two signals of `n` samples overlap when the second is shifted by
/// `lag` samples: the first index in each signal and the overlap length, or
/// `None` when they do not overlap.
pub open spec fn window_of(lag: int, n: int) -> Option<(int, int, int)> {
    let start1 = if lag < 0 {
        -lag
    } else {
        0
    };
    let start2 = if lag > 0 {
        lag
    } else {
        0
    };
    let len = n - if start1 > start2 {
        start1
    } else {
        start2
    };
    if len > 0 {
        Some((start1, start2, len))
    } else {
        None
    }
}

/// The overlap of two `n`-sample signals at shift `lag`: sample `start1 + i`
/// of the first signal pairs with sample `start2 + i` of the second for
/// `i < len`, and both indices stay below `n`.
pub fn correlation_window(lag: isize, n: usize) -> (r: Option<(usize, usize, usize)>)
    requires
        lag > isize::MIN,
        n <= isize::MAX,
    ensures
        match window_of(lag as int, n as int) {
            Some((s1, s2, len)) => r == Some((s1 as usize, s2 as usize, len as usize)),
            None => r is None,
        },
        r matches Some((s1, s2, len)) ==> s1 + len <= n && s2 + len <= n,
        r matches Some((s1, s2, len)) ==> s2 - s1 == lag && len > 0 && (s1 + len == n || s2 + len
            == n) && (s1 == 0 || s2 == 0),
        r is None <==> (lag >= n || -lag >= n),
{
    let start1: isize = if lag < 0 {
        -lag
    } else {
        0
    };
    let start2: isize = if lag > 0 {
        lag
    } else {
        0
    };
    let shift: isize = if start1 > start2 {
        start1
    } else {
        start2
    };
    let len: isize = n as isize - shift;
    if len > 0 {
        Some((start1 as usize, start2 as usize, len as usize))
    } else {
        None
    }
}

} // verus!
