//! A tiny kinematics demo payload: a position and a velocity.

use crate::tuple::Tuple;
use vstd::prelude::*;

verus! {

/// A moving body: where it is and how fast it travels.
#[derive(Debug, Clone, Copy, PartialEq, Eq, Structural)]
pub struct Projectile {
    pub pos: Tuple,
    pub vel: Tuple,
}

impl Projectile {
    /// A projectile at `pos` moving with velocity `vel`.
    pub fn new(pos: Tuple, vel: Tuple) -> (r: Projectile)
        ensures
            r == (Projectile { pos, vel }),
    {
        Projectile { pos, vel }
    }
}

} // verus!
