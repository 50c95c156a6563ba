//! RGB colours with component-wise arithmetic.
//!
//! Channel values are fixed-point scalars, nominally in `[0, 1]` but left
//! unclamped by the arithmetic; only [`Colour::normalize`] clamps, when a
//! colour is turned into integer channel levels for an image.

use crate::fixed::Fx;
use crate::fixed::SCALE;
use crate::fixed::fx_add;
use crate::fixed::fx_mul;
use crate::fixed::fx_sub;
use crate::fixed::fxv;
use core::ops::Add;
use core::ops::Mul;
use core::ops::Sub;
use vstd::prelude::*;

verus! {

/// A colour struct. Allows mixing of colours using math operators and normalization.
/// RGB values range from 0.0 to 1.0
#[derive(Clone, Copy, Debug, PartialEq, Eq, Structural)]
pub struct Colour {
    pub red: Fx,
    pub green: Fx,
    pub blue: Fx,
}

/// Component-wise sum.
pub open spec fn col_add(a: Colour, b: Colour) -> Colour {
    Colour {
        red: fxv(fx_add(a.red@, b.red@)),
        green: fxv(fx_add(a.green@, b.green@)),
        blue: fxv(fx_add(a.blue@, b.blue@)),
    }
}

/// Component-wise difference.
pub open spec fn col_sub(a: Colour, b: Colour) -> Colour {
    Colour {
        red: fxv(fx_sub(a.red@, b.red@)),
        green: fxv(fx_sub(a.green@, b.green@)),
        blue: fxv(fx_sub(a.blue@, b.blue@)),
    }
}

/// Component-wise product of two colours.
pub open spec fn col_mul(a: Colour, b: Colour) -> Colour {
    Colour {
        red: fxv(fx_mul(a.red@, b.red@)),
        green: fxv(fx_mul(a.green@, b.green@)),
        blue: fxv(fx_mul(a.blue@, b.blue@)),
    }
}

/// Every channel scaled by `k`.
pub open spec fn col_smul(a: Colour, k: int) -> Colour {
    Colour {
        red: fxv(fx_mul(a.red@, k)),
        green: fxv(fx_mul(a.green@, k)),
        blue: fxv(fx_mul(a.blue@, k)),
    }
}

/// A channel clamped into `[0, 1]` and scaled to `[0, max]`, rounded to the
/// nearest level with halves rounding up.
pub open spec fn channel_level(c: int, max: int) -> int {
    if c < 0 {
        0
    } else if c > SCALE {
        max
    } else {
        (c * max + SCALE / 2) / (SCALE as int)
    }
}

/// The colour with all channels at full strength.
pub fn white() -> (r: Colour)
    ensures
        r == col_of(SCALE as int, SCALE as int, SCALE as int),
{
    Colour { red: Fx { raw: SCALE }, green: Fx { raw: SCALE }, blue: Fx { raw: SCALE } }
}

/// The colour with all channels at zero.
pub fn black() -> (r: Colour)
    ensures
        r == col_of(0, 0, 0),
{
    Colour { red: Fx { raw: 0 }, green: Fx { raw: 0 }, blue: Fx { raw: 0 } }
}

/// Pure red.
pub fn red() -> (r: Colour)
    ensures
        r == col_of(SCALE as int, 0, 0),
{
    Colour { red: Fx { raw: SCALE }, green: Fx { raw: 0 }, blue: Fx { raw: 0 } }
}

/// Pure green.
pub fn green() -> (r: Colour)
    ensures
        r == col_of(0, SCALE as int, 0),
{
    Colour { red: Fx { raw: 0 }, green: Fx { raw: SCALE }, blue: Fx { raw: 0 } }
}

/// Pure blue.
pub fn blue() -> (r: Colour)
    ensures
        r == col_of(0, 0, SCALE as int),
{
    Colour { red: Fx { raw: 0 }, green: Fx { raw: 0 }, blue: Fx { raw: SCALE } }
}

/// Full red and green.
pub fn yellow() -> (r: Colour)
    ensures
        r == col_of(SCALE as int, SCALE as int, 0),
{
    Colour { red: Fx { raw: SCALE }, green: Fx { raw: SCALE }, blue: Fx { raw: 0 } }
}

/// The colour with the given raw channel values.
pub open spec fn col_of(r: int, g: int, b: int) -> Colour {
    Colour { red: fxv(r), green: fxv(g), blue: fxv(b) }
}

impl Colour {
    /// Create a new colour struct
    pub fn new(red: Fx, green: Fx, blue: Fx) -> (r: Colour)
        ensures
            r == (Colour { red, green, blue }),
    {
        Colour { red, green, blue }
    }

    /// Return RGB values as a tuple normalized from 0 to max
    pub fn normalize(&self, max: usize) -> (r: (usize, usize, usize))
        requires
            max <= 65535,
        ensures
            r.0 as int == channel_level(self.red@, max as int),
            r.1 as int == channel_level(self.green@, max as int),
            r.2 as int == channel_level(self.blue@, max as int),
    {
        (
            channel_to_level(self.red, max),
            channel_to_level(self.green, max),
            channel_to_level(self.blue, max),
        )
    }
}

/// One channel of a colour clamped and scaled to an integer level.
fn channel_to_level(c: Fx, max: usize) -> (r: usize)
    requires
        max <= 65535,
    ensures
        r as int == channel_level(c@, max as int),
{
    if c.raw < 0 {
        0
    } else if c.raw > SCALE {
        max
    } else {
        proof {
            assert((c.raw as int) * (max as int) <= (SCALE as int) * 65535) by (nonlinear_arith)
                requires
                    0 <= c.raw <= SCALE,
                    0 <= max <= 65535,
            ;
        }
        let num: u128 = (c.raw as u128) * (max as u128) + (SCALE as u128) / 2;
        proof {
            assert((c.raw as int) * (max as int) + (SCALE as int) / 2 < (SCALE as int) * (
            max as int + 1)) by (nonlinear_arith)
                requires
                    0 <= c.raw <= SCALE,
                    0 <= max,
            ;
            vstd::arithmetic::div_mod::lemma_div_is_ordered(
                0,
                ((c.raw as int) * (max as int) + (SCALE as int) / 2) as int,
                SCALE as int,
            );
            vstd::arithmetic::div_mod::lemma_multiply_divide_lt(
                ((c.raw as int) * (max as int) + (SCALE as int) / 2) as int,
                SCALE as int,
                max as int + 1,
            );
        }
        let level: u128 = num / (SCALE as u128);
        level as usize
    }
}

impl Add for Colour {
    type Output = Colour;

    fn add(self, other: Colour) -> (r: Colour) {
        Colour {
            red: self.red.add(other.red),
            green: self.green.add(other.green),
            blue: self.blue.add(other.blue),
        }
    }
}

impl vstd::std_specs::ops::AddSpecImpl for Colour {
    open spec fn obeys_add_spec() -> bool {
        true
    }

    open spec fn add_req(self, other: Colour) -> bool {
        true
    }

    open spec fn add_spec(self, other: Colour) -> Colour {
        col_add(self, other)
    }
}

impl Sub for Colour {
    type Output = Colour;

    fn sub(self, other: Colour) -> (r: Colour) {
        Colour {
            red: self.red.sub(other.red),
            green: self.green.sub(other.green),
            blue: self.blue.sub(other.blue),
        }
    }
}

impl vstd::std_specs::ops::SubSpecImpl for Colour {
    open spec fn obeys_sub_spec() -> bool {
        true
    }

    open spec fn sub_req(self, other: Colour) -> bool {
        true
    }

    open spec fn sub_spec(self, other: Colour) -> Colour {
        col_sub(self, other)
    }
}

impl Mul for Colour {
    type Output = Colour;

    fn mul(self, rhs: Colour) -> (r: Colour) {
        Colour {
            red: self.red.mul(rhs.red),
            green: self.green.mul(rhs.green),
            blue: self.blue.mul(rhs.blue),
        }
    }
}

impl vstd::std_specs::ops::MulSpecImpl for Colour {
    open spec fn obeys_mul_spec() -> bool {
        true
    }

    open spec fn mul_req(self, rhs: Colour) -> bool {
        true
    }

    open spec fn mul_spec(self, rhs: Colour) -> Colour {
        col_mul(self, rhs)
    }
}

impl Mul<Fx> for Colour {
    type Output = Colour;

    fn mul(self, rhs: Fx) -> (r: Colour) {
        Colour {
            red: self.red.mul(rhs),
            green: self.green.mul(rhs),
            blue: self.blue.mul(rhs),
        }
    }
}

impl vstd::std_specs::ops::MulSpecImpl<Fx> for Colour {
    open spec fn obeys_mul_spec() -> bool {
        true
    }

    open spec fn mul_req(self, rhs: Fx) -> bool {
        true
    }

    open spec fn mul_spec(self, rhs: Fx) -> Colour {
        col_smul(self, rhs@)
    }
}

} // verus!
