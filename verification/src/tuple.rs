//! Homogeneous 4-component tuples, used for points and vectors.
//!
//! The `w` component is one (in scalar units) for a point and zero for a
//! vector, so that point minus point gives a vector and point plus vector a
//! point.  Each operation's contract states its exact fixed-point value.

use crate::fixed::Fx;
use crate::fixed::SCALE;
use crate::fixed::fx_add;
use crate::fixed::fx_div;
use crate::fixed::fx_mul;
use crate::fixed::fx_neg;
use crate::fixed::fx_sqrt;
use crate::fixed::fx_sub;
use crate::fixed::fxv;
use core::ops::Add;
use core::ops::Div;
use core::ops::Mul;
use core::ops::Neg;
use core::ops::Sub;
use vstd::prelude::*;

verus! {

/// A tuple struct. Can be used to represent points and vectors.
#[derive(Clone, Copy, Debug, PartialEq, Eq, Structural)]
pub struct Tuple {
    pub x: Fx,
    pub y: Fx,
    pub z: Fx,
    pub w: Fx,
}

/// Component-wise sum.
pub open spec fn tup_add(a: Tuple, b: Tuple) -> Tuple {
    Tuple {
        x: fxv(fx_add(a.x@, b.x@)),
        y: fxv(fx_add(a.y@, b.y@)),
        z: fxv(fx_add(a.z@, b.z@)),
        w: fxv(fx_add(a.w@, b.w@)),
    }
}

/// Component-wise difference.
pub open spec fn tup_sub(a: Tuple, b: Tuple) -> Tuple {
    Tuple {
        x: fxv(fx_sub(a.x@, b.x@)),
        y: fxv(fx_sub(a.y@, b.y@)),
        z: fxv(fx_sub(a.z@, b.z@)),
        w: fxv(fx_sub(a.w@, b.w@)),
    }
}

/// Component-wise negation.
pub open spec fn tup_neg(a: Tuple) -> Tuple {
    Tuple {
        x: fxv(fx_neg(a.x@)),
        y: fxv(fx_neg(a.y@)),
        z: fxv(fx_neg(a.z@)),
        w: fxv(fx_neg(a.w@)),
    }
}

/// Every component scaled by `k`.
pub open spec fn tup_smul(a: Tuple, k: int) -> Tuple {
    Tuple {
        x: fxv(fx_mul(a.x@, k)),
        y: fxv(fx_mul(a.y@, k)),
        z: fxv(fx_mul(a.z@, k)),
        w: fxv(fx_mul(a.w@, k)),
    }
}

/// Every component divided by `k`.
pub open spec fn tup_sdiv(a: Tuple, k: int) -> Tuple {
    Tuple {
        x: fxv(fx_div(a.x@, k)),
        y: fxv(fx_div(a.y@, k)),
        z: fxv(fx_div(a.z@, k)),
        w: fxv(fx_div(a.w@, k)),
    }
}

/// The dot product, accumulated over all four components.
pub open spec fn tup_dot(a: Tuple, b: Tuple) -> int {
    fx_add(
        fx_add(
            fx_add(fx_add(0, fx_mul(a.x@, b.x@)), fx_mul(a.y@, b.y@)),
            fx_mul(a.z@, b.z@),
        ),
        fx_mul(a.w@, b.w@),
    )
}

/// The Euclidean norm over all four components.
pub open spec fn tup_mag(a: Tuple) -> int {
    fx_sqrt(tup_dot(a, a))
}

/// The tuple scaled to unit length; a zero-magnitude tuple maps to zero.
pub open spec fn tup_normalize(a: Tuple) -> Tuple {
    let m = tup_mag(a);
    Tuple {
        x: fxv(fx_div(a.x@, m)),
        y: fxv(fx_div(a.y@, m)),
        z: fxv(fx_div(a.z@, m)),
        w: fxv(fx_div(a.w@, m)),
    }
}

/// The cross product of the vector parts, a vector.
pub open spec fn tup_cross(a: Tuple, b: Tuple) -> Tuple {
    Tuple {
        x: fxv(fx_sub(fx_mul(a.y@, b.z@), fx_mul(a.z@, b.y@))),
        y: fxv(fx_sub(fx_mul(a.z@, b.x@), fx_mul(a.x@, b.z@))),
        z: fxv(fx_sub(fx_mul(a.x@, b.y@), fx_mul(a.y@, b.x@))),
        w: fxv(0),
    }
}

/// `v` mirrored about the normal `n`: `v - n * 2 * dot(v, n)`.
pub open spec fn tup_reflect(v: Tuple, n: Tuple) -> Tuple {
    tup_sub(v, tup_smul(tup_smul(n, 2 * SCALE), tup_dot(v, n)))
}

impl Tuple {
    /// Create a new tuple struct
    pub fn new(x: Fx, y: Fx, z: Fx, w: Fx) -> (r: Tuple)
        ensures
            r == (Tuple { x, y, z, w }),
    {
        Tuple { x, y, z, w }
    }

    /// Check if tuple is a point
    pub fn is_point(&self) -> (r: bool)
        ensures
            r == (self.w@ == SCALE),
    {
        self.w.raw == SCALE
    }

    /// Check if tuple is a vector
    pub fn is_vector(&self) -> (r: bool)
        ensures
            r == (self.w@ == 0),
    {
        self.w.raw == 0
    }

    /// Return the absolute magnitude of a tuple
    pub fn magnitude(&self) -> (r: Fx)
        ensures
            r@ == tup_mag(*self),
            r@ >= 0,
    {
        let d: Fx = self.dot(*self);
        d.sqrt()
    }

    /// Return a normalized tuple; one of zero magnitude normalizes to zero.
    pub fn normalize(&self) -> (r: Tuple)
        ensures
            r == tup_normalize(*self),
    {
        let m: Fx = self.magnitude();
        Tuple {
            x: self.x.div_total(m),
            y: self.y.div_total(m),
            z: self.z.div_total(m),
            w: self.w.div_total(m),
        }
    }

    /// Return the dot product of two tuples
    pub fn dot(&self, other: Tuple) -> (r: Fx)
        ensures
            r@ == tup_dot(*self, other),
    {
        let mut sum: Fx = Fx::zero();
        sum = sum.add(self.x.mul(other.x));
        sum = sum.add(self.y.mul(other.y));
        sum = sum.add(self.z.mul(other.z));
        sum = sum.add(self.w.mul(other.w));
        sum
    }

    /// Return the cross product of two tuples
    pub fn cross(&self, other: Tuple) -> (r: Tuple)
        ensures
            r == tup_cross(*self, other),
    {
        vector(
            self.y.mul(other.z).sub(self.z.mul(other.y)),
            self.z.mul(other.x).sub(self.x.mul(other.z)),
            self.x.mul(other.y).sub(self.y.mul(other.x)),
        )
    }

    /// Mirror this tuple about the given normal.
    pub fn reflect(&self, normal: Tuple) -> (r: Tuple)
        ensures
            r == tup_reflect(*self, normal),
    {
        let two: Fx = Fx::from_int(2);
        let d: Fx = self.dot(normal);
        self.sub(normal.mul(two).mul(d))
    }
}

impl Add for Tuple {
    type Output = Tuple;

    fn add(self, other: Tuple) -> (r: Tuple) {
        Tuple {
            x: self.x.add(other.x),
            y: self.y.add(other.y),
            z: self.z.add(other.z),
            w: self.w.add(other.w),
        }
    }
}

impl vstd::std_specs::ops::AddSpecImpl for Tuple {
    open spec fn obeys_add_spec() -> bool {
        true
    }

    open spec fn add_req(self, other: Tuple) -> bool {
        true
    }

    open spec fn add_spec(self, other: Tuple) -> Tuple {
        tup_add(self, other)
    }
}

impl Sub for Tuple {
    type Output = Tuple;

    fn sub(self, other: Tuple) -> (r: Tuple) {
        Tuple {
            x: self.x.sub(other.x),
            y: self.y.sub(other.y),
            z: self.z.sub(other.z),
            w: self.w.sub(other.w),
        }
    }
}

impl vstd::std_specs::ops::SubSpecImpl for Tuple {
    open spec fn obeys_sub_spec() -> bool {
        true
    }

    open spec fn sub_req(self, other: Tuple) -> bool {
        true
    }

    open spec fn sub_spec(self, other: Tuple) -> Tuple {
        tup_sub(self, other)
    }
}

impl Neg for Tuple {
    type Output = Tuple;

    fn neg(self) -> (r: Tuple) {
        Tuple { x: self.x.neg(), y: self.y.neg(), z: self.z.neg(), w: self.w.neg() }
    }
}

impl vstd::std_specs::ops::NegSpecImpl for Tuple {
    open spec fn obeys_neg_spec() -> bool {
        true
    }

    open spec fn neg_req(self) -> bool {
        true
    }

    open spec fn neg_spec(self) -> Tuple {
        tup_neg(self)
    }
}

impl Mul<Fx> for Tuple {
    type Output = Tuple;

    fn mul(self, rhs: Fx) -> (r: Tuple) {
        Tuple {
            x: self.x.mul(rhs),
            y: self.y.mul(rhs),
            z: self.z.mul(rhs),
            w: self.w.mul(rhs),
        }
    }
}

impl vstd::std_specs::ops::MulSpecImpl<Fx> for Tuple {
    open spec fn obeys_mul_spec() -> bool {
        true
    }

    open spec fn mul_req(self, rhs: Fx) -> bool {
        true
    }

    open spec fn mul_spec(self, rhs: Fx) -> Tuple {
        tup_smul(self, rhs@)
    }
}

impl Div<Fx> for Tuple {
    type Output = Tuple;

    fn div(self, rhs: Fx) -> (r: Tuple) {
        Tuple {
            x: self.x.div(rhs),
            y: self.y.div(rhs),
            z: self.z.div(rhs),
            w: self.w.div(rhs),
        }
    }
}

impl vstd::std_specs::ops::DivSpecImpl<Fx> for Tuple {
    open spec fn obeys_div_spec() -> bool {
        true
    }

    open spec fn div_req(self, rhs: Fx) -> bool {
        rhs@ != 0
    }

    open spec fn div_spec(self, rhs: Fx) -> Tuple {
        tup_sdiv(self, rhs@)
    }
}

/// A point: a tuple whose `w` component is one.
pub fn point(x: Fx, y: Fx, z: Fx) -> (r: Tuple)
    ensures
        r == (Tuple { x, y, z, w: fxv(SCALE as int) }),
{
    Tuple { x, y, z, w: Fx { raw: SCALE } }
}

/// A vector: a tuple whose `w` component is zero.
pub fn vector(x: Fx, y: Fx, z: Fx) -> (r: Tuple)
    ensures
        r == (Tuple { x, y, z, w: fxv(0) }),
{
    Tuple { x, y, z, w: Fx { raw: 0 } }
}

} // verus!
