use vstd::prelude::*;

verus! {

/// The distance between two indices.
pub open spec fn dist(a: int, b: int) -> int {
    if a >= b { a - b } else { b - a }
}

/// The first index of the window of half-width `width` around `i`.
pub open spec fn window_lo(i: int, width: int) -> int {
    if i >= width { i - width } else { 0 }
}

/// The last index of the window of half-width `width` around `i`, in a signal of length `n`.
pub open spec fn window_hi(n: int, i: int, width: int) -> int {
    if i + width <= n - 1 { i + width } else { n - 1 }
}

/// The terms of the triangular average at position `i`: each in-range index `j`
/// within `width` of `i`, in ascending order, with its distance `|j - i|`. Its
/// weight is `1 - |j - i| / (width + 1)`, which is positive for every term.
pub open spec fn window_terms(n: int, i: int, width: int) -> Seq<(usize, usize)> {
    let lo = window_lo(i, width);
    Seq::new((window_hi(n, i, width) - lo + 1) as nat, |k: int| ((lo + k) as usize, dist(lo + k, i) as usize))
}

/// Lists the terms of the triangular average at position `i` of a signal of length `n`.
pub fn smoothing_terms(n: usize, i: usize, width: usize) -> (r: Vec<(usize, usize)>)
    requires
        i < n,
    ensures
        r@ == window_terms(n as int, i as int, width as int),
        r@.len() >= 1,
        forall|k: int| 0 <= k < r@.len() ==> (#[trigger] r@[k]).0 < n && r@[k].1 <= width,
        r@.contains((i, 0usize)),
{
    let lo: usize = if i >= width { i - width } else { 0 };
    let hi: usize = if width <= n - 1 - i { i + width } else { n - 1 };
    let mut r: Vec<(usize, usize)> = Vec::new();
    let mut j: usize = lo;
    while j <= hi
        invariant
            lo == window_lo(i as int, width as int),
            hi == window_hi(n as int, i as int, width as int),
            lo <= i <= hi < n,
            lo <= j <= hi + 1,
            r@ == Seq::new((j - lo) as nat, |k: int| ((lo + k) as usize, dist(lo + k, i as int) as usize)),
        decreases hi + 1 - j,
    {
        let d = if j >= i { j - i } else { i - j };
        r.push((j, d));
        j = j + 1;
        assert(r@ =~= Seq::new((j - lo) as nat, |k: int| ((lo + k) as usize, dist(lo + k, i as int) as usize)));
    }
    assert(r@ =~= window_terms(n as int, i as int, width as int));
    assert(r@[i - lo] == (i, 0usize));
    r
}

} // verus!
