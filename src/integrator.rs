//! The depth budget that bounds the recursive radiance estimate.

use vstd::prelude::*;

verus! {

/// What the radiance estimate of a ray does with its remaining bounces.
#[derive(Clone, Copy, Debug, PartialEq, Eq, Structural)]
pub enum Trace {
    /// No bounce is left: the ray contributes black and the scene is not
    /// queried.
    Black,
    /// The scene is queried; each scattered ray continues with `remaining`
    /// bounces.
    Continue { remaining: u32 },
}

/// The step taken for a ray with `depth` bounces left. Each continuation has
/// one bounce fewer, so every path ends in `Black` after at most `depth`
/// scatterings.
pub fn trace_step(depth: u32) -> (r: Trace)
    ensures
        depth == 0 ==> r == Trace::Black,
        depth > 0 ==> r == (Trace::Continue { remaining: (depth - 1) as u32 }),
{
    if depth == 0 {
        Trace::Black
    } else {
        Trace::Continue { remaining: depth - 1 }
    }
}

} // verus!
