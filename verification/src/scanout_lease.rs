//! The order of submission fences in their wrapping 32-bit sequence.

use vstd::prelude::*;

verus! {

/// `fence` lies ahead of `last` by less than half of the sequence.
pub open spec fn forward(last: u32, fence: u32) -> bool {
    0 < (fence - last) % 0x1_0000_0000 < 0x8000_0000
}

/// Whether `fence` is forward of `last`.
pub fn fence_is_forward(last: u32, fence: u32) -> (b: bool)
    ensures
        b == forward(last, fence),
{
    fence != last && fence.wrapping_sub(last) < 0x8000_0000
}

/// No fence is forward of itself, and of two fences at most one is forward of the
/// other. Exactly one is if they are distinct and not half of the sequence apart.
pub proof fn law_forward_is_strict(a: u32, b: u32)
    ensures
        !forward(a, a),
        !(forward(a, b) && forward(b, a)),
        a != b && (b - a) % 0x1_0000_0000 != 0x8000_0000 ==> forward(a, b) || forward(b, a),
{
}

/// The order is that of the sequence alone: moving both fences along it by the same
/// distance keeps the answer.
pub proof fn law_forward_is_kept_by_a_shift(a: u32, b: u32, by: u32)
    ensures
        forward(((a + by) % 0x1_0000_0000) as u32, ((b + by) % 0x1_0000_0000) as u32) == forward(
            a,
            b,
        ),
{
}

/// The fences ahead of zero are those from one to below half of the sequence.
pub proof fn law_forward_of_zero(fence: u32)
    ensures
        forward(0, fence) <==> 1 <= fence <= 0x7fff_ffff,
{
}

} // verus!
