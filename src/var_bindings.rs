//! Mutation, block scope, shadowing and deferred initialisation.
use vstd::prelude::*;

verus! {

/// Reads a binding before an inner block, inside the block after the block
/// has shadowed it with `inner`, and after the block: the shadow is seen
/// only inside the block, and the outer value comes back unchanged.
pub fn shadowing(outer: i32, inner: i32) -> (r: (i32, i32, i32))
    ensures
        r == (outer, inner, outer),
{
    let binding = outer;
    let seen_before: i32;
    let seen_inside: i32;
    {
        seen_before = binding;
        let binding = inner;
        seen_inside = binding;
    }
    let seen_after = binding;
    (seen_before, seen_inside, seen_after)
}

/// Declares a binding first and initialises it later, in an inner block,
/// with the square of `x`.
pub fn deferred_square(x: i32) -> (r: i32)
    requires
        x * x <= i32::MAX,
    ensures
        r == x * x,
{
    let a_binding: i32;
    {
        let y = x;
        assert(0 <= y * y) by (nonlinear_arith);
        a_binding = y * y;
    }
    a_binding
}

/// Increments a mutable binding once.
pub fn mutate_once(start: i32) -> (r: i32)
    requires
        start < i32::MAX,
    ensures
        r == start + 1,
{
    let mut mutable_binding = start;
    mutable_binding += 1;
    mutable_binding
}

} // verus!
