//! Tuples, slices and bounds-checked access.
use vstd::prelude::*;

verus! {

/// The pair with its two parts swapped.
pub fn reverse(pair: (i32, bool)) -> (r: (bool, i32))
    ensures
        r == (pair.1, pair.0),
{
    let (int_param, bool_param) = pair;
    (bool_param, int_param)
}

/// The first element of a non-empty slice, and the slice's length.
pub fn analyze_slice(slice: &[i32]) -> (r: (i32, usize))
    requires
        slice@.len() > 0,
    ensures
        r.0 == slice@[0],
        r.1 == slice@.len(),
{
    (slice[0], slice.len())
}

/// The element at `i`, or `None` when `i` is past the end: never a read
/// out of bounds.
pub fn lookup(xs: &[i32], i: usize) -> (r: Option<i32>)
    ensures
        i < xs@.len() ==> r == Some(xs@[i as int]),
        i >= xs@.len() ==> r is None,
{
    match xs.get(i) {
        Some(x) => Some(*x),
        None => None,
    }
}

/// Looks up every index from zero to the length inclusive: one present
/// result per element, in order, then one absent result.
pub fn probe_all(xs: &[i32]) -> (r: Vec<Option<i32>>)
    requires
        xs@.len() < usize::MAX,
    ensures
        r@.len() == xs@.len() + 1,
        forall|i: int| 0 <= i < xs@.len() ==> r@[i] == Some(xs@[i]),
        r@[xs@.len() as int] is None,
{
    let mut out: Vec<Option<i32>> = Vec::new();
    let n = xs.len();
    let mut i: usize = 0;
    while i <= n
        invariant
            n == xs@.len(),
            n < usize::MAX,
            i <= n + 1,
            out@.len() == i,
            forall|j: int| 0 <= j < i && j < n ==> out@[j] == Some(xs@[j]),
            forall|j: int| 0 <= j < i && j >= n ==> out@[j] is None,
        decreases n + 1 - i,
    {
        out.push(lookup(xs, i));
        i = i + 1;
    }
    out
}

} // verus!
