//! The keyboard's share of the steering.
use vstd::prelude::*;

verus! {

/// Which of the steering keys are held down: the four arrows and their
/// letter twins.
#[derive(Clone, Copy, PartialEq, Eq, Structural, Debug, Hash)]
pub struct Keys {
    pub up: bool,
    pub down: bool,
    pub left: bool,
    pub right: bool,
    pub w: bool,
    pub s: bool,
    pub a: bool,
    pub d: bool,
}

/// A steering direction in whole steps along the two axes of the ground
/// plane. Up on the keyboard is towards negative `z`.
#[derive(Clone, Copy, PartialEq, Eq, Structural, Debug, Hash)]
pub struct Steps {
    pub x: i8,
    pub z: i8,
}

/// What a pair of opposite keys adds to its axis.
pub open spec fn axis(negative: bool, positive: bool) -> int {
    (if positive { 1int } else { 0int }) - (if negative { 1int } else { 0int })
}

/// The steering that the keys ask for. The two sets of keys are summed, not
/// averaged, so each axis lies between minus two and two.
pub open spec fn keyboard_steps(keys: Keys) -> (int, int) {
    (
        axis(keys.left, keys.right) + axis(keys.a, keys.d),
        axis(keys.up, keys.down) + axis(keys.w, keys.s),
    )
}

/// Computes [`axis`].
fn axis_of(negative: bool, positive: bool) -> (r: i8)
    ensures
        r == axis(negative, positive),
{
    let p: i8 = if positive { 1 } else { 0 };
    let n: i8 = if negative { 1 } else { 0 };
    p - n
}

/// Computes [`keyboard_steps`].
pub fn keyboard(keys: &Keys) -> (steps: Steps)
    ensures
        steps.x == keyboard_steps(*keys).0,
        steps.z == keyboard_steps(*keys).1,
        -2 <= steps.x <= 2,
        -2 <= steps.z <= 2,
{
    Steps {
        x: axis_of(keys.left, keys.right) + axis_of(keys.a, keys.d),
        z: axis_of(keys.up, keys.down) + axis_of(keys.w, keys.s),
    }
}

} // verus!
