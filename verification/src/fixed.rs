//! Fixed-point scalar arithmetic.
//!
//! A scalar is stored as a signed 64-bit integer `raw`; the quantity it
//! stands for is `raw / SCALE`, with `SCALE = 2^40`.  Every operation is
//! total: intermediate products are taken in 128 bits, quotients truncate
//! toward zero, and results are clamped into the `i64` range, so no
//! operation can overflow or panic.  The spec functions below give each
//! operation its exact integer meaning.

use core::ops::Add;
use core::ops::Div;
use core::ops::Mul;
use core::ops::Neg;
use core::ops::Sub;
use vstd::prelude::*;

verus! {

/// Fractional steps per unit: a value `v` is stored as `round(v * SCALE)`.
pub const SCALE: i64 = 1099511627776;

/// Tolerance used by geometric predicates, about `1e-5` in scalar units.
pub const EPSILON_RAW: i64 = 10995116;

/// `pi * SCALE`, rounded to the nearest integer.
pub const PI_RAW: i64 = 3454217652358;

/// `2 * pi * SCALE`, rounded to the nearest integer.
pub const TWO_PI_RAW: i64 = 6908435304715;

/// `pi / 2 * SCALE`, rounded to the nearest integer.
pub const HALF_PI_RAW: i64 = 1727108826179;

/// Clamp a mathematical integer into the `i64` range.
pub open spec fn clamp64(x: int) -> int {
    if x > i64::MAX {
        i64::MAX as int
    } else if x < i64::MIN {
        i64::MIN as int
    } else {
        x
    }
}

/// Division truncated toward zero, for a positive divisor.
pub open spec fn tdiv(n: int, d: int) -> int
    recommends
        d > 0,
{
    if n >= 0 {
        n / d
    } else {
        -((-n) / d)
    }
}

/// Raw value of a fixed-point sum.
pub open spec fn fx_add(a: int, b: int) -> int {
    clamp64(a + b)
}

/// Raw value of a fixed-point difference.
pub open spec fn fx_sub(a: int, b: int) -> int {
    clamp64(a - b)
}

/// Raw value of a fixed-point negation.
pub open spec fn fx_neg(a: int) -> int {
    clamp64(-a)
}

/// Raw value of a fixed-point product.
pub open spec fn fx_mul(a: int, b: int) -> int {
    clamp64(tdiv(a * b, SCALE as int))
}

/// Raw value of a fixed-point quotient; division by zero yields zero.
pub open spec fn fx_div(a: int, b: int) -> int {
    if b == 0 {
        0
    } else if b > 0 {
        clamp64(tdiv(a * SCALE, b))
    } else {
        clamp64(tdiv(-(a * SCALE), -b))
    }
}

/// Raw value of a fixed-point absolute value.
pub open spec fn fx_abs(a: int) -> int {
    if a < 0 {
        clamp64(-a)
    } else {
        a
    }
}

/// The scalar whose stored integer is `i`, for `i` within the `i64` range.
pub open spec fn fxv(i: int) -> Fx {
    Fx { raw: i as i64 }
}

/// Whether `r` is the floor of the square root of `x`.
pub open spec fn is_sqrt_floor(x: int, r: int) -> bool {
    r >= 0 && r * r <= x && (r + 1) * (r + 1) > x
}

/// The floor of the square root of a non-negative integer.
pub open spec fn sqrt_floor(x: int) -> int {
    choose|r: int| is_sqrt_floor(x, r)
}

/// Raw value of a fixed-point square root; non-positive inputs yield zero.
pub open spec fn fx_sqrt(a: int) -> int {
    if a <= 0 {
        0
    } else {
        sqrt_floor(a * SCALE)
    }
}

/// Raw value of `b` taken to the `n`-th power, one factor at a time.
pub open spec fn fx_pow(b: int, n: nat) -> int
    decreases n,
{
    if n == 0 {
        SCALE as int
    } else {
        fx_mul(fx_pow(b, (n - 1) as nat), b)
    }
}

/// Termination measure for the angle reduction below.
pub open spec fn reduce_measure(a: int) -> int {
    if a > PI_RAW {
        a
    } else if a < -PI_RAW {
        -a
    } else {
        0
    }
}

/// Raw angle brought into `[-PI_RAW, PI_RAW]` by whole turns.
pub open spec fn reduce_angle(a: int) -> int
    decreases reduce_measure(a),
{
    if a > PI_RAW {
        reduce_angle(a - TWO_PI_RAW)
    } else if a < -PI_RAW {
        reduce_angle(a + TWO_PI_RAW)
    } else {
        a
    }
}

/// Raw value of the degree-eleven sine polynomial at `x`, for `x` within a
/// quarter turn of zero.
pub open spec fn sin_poly(x: int) -> int {
    let s = fx_mul(x, x);
    let p1 = fx_sub(SCALE as int, tdiv(s, 110));
    let p2 = fx_sub(SCALE as int, tdiv(fx_mul(s, p1), 72));
    let p3 = fx_sub(SCALE as int, tdiv(fx_mul(s, p2), 42));
    let p4 = fx_sub(SCALE as int, tdiv(fx_mul(s, p3), 20));
    let p5 = fx_sub(SCALE as int, tdiv(fx_mul(s, p4), 6));
    fx_mul(x, p5)
}

/// Raw value of the sine: the angle is reduced to `[-PI_RAW, PI_RAW]`,
/// folded into a quarter turn, and handed to the polynomial.
pub open spec fn fx_sin(a: int) -> int {
    let r = reduce_angle(a);
    let x = if r > HALF_PI_RAW {
        PI_RAW - r
    } else if r < -HALF_PI_RAW {
        -PI_RAW - r
    } else {
        r
    };
    sin_poly(x)
}

/// Raw value of the cosine, as the sine of the complementary angle.
pub open spec fn fx_cos(a: int) -> int {
    fx_sin(fx_sub(HALF_PI_RAW as int, a))
}

/// Raw value of the tangent, as sine over cosine.
pub open spec fn fx_tan(a: int) -> int {
    fx_div(fx_sin(a), fx_cos(a))
}

/// A fixed-point scalar.
#[derive(Clone, Copy, Debug, PartialEq, Eq, Structural)]
pub struct Fx {
    pub raw: i64,
}

impl View for Fx {
    type V = int;

    open spec fn view(&self) -> int {
        self.raw as int
    }
}

/// The product of two `i64`-range values stays strictly inside the `i128` range.
proof fn lemma_i64_prod_bounds(a: int, b: int)
    requires
        i64::MIN <= a <= i64::MAX,
        i64::MIN <= b <= i64::MAX,
    ensures
        i128::MIN < a * b,
        a * b <= i128::MAX,
        i128::MIN < -(a * b),
{
    assert(i128::MIN < a * b && a * b <= i128::MAX) by (nonlinear_arith)
        requires
            i64::MIN <= a <= i64::MAX,
            i64::MIN <= b <= i64::MAX,
    ;
}

/// Clamp a 128-bit value into the `i64` range.
fn clamp_i128(x: i128) -> (r: i64)
    ensures
        r as int == clamp64(x as int),
{
    if x > i64::MAX as i128 {
        i64::MAX
    } else if x < i64::MIN as i128 {
        i64::MIN
    } else {
        x as i64
    }
}

/// 128-bit division truncated toward zero, for a positive divisor.
fn tdiv_i128(n: i128, d: i128) -> (r: i128)
    requires
        d > 0,
        n > i128::MIN,
    ensures
        r as int == tdiv(n as int, d as int),
{
    if n >= 0 {
        proof {
            lemma_udiv_bounds(n as int, d as int);
        }
        let q: u128 = (n as u128) / (d as u128);
        q as i128
    } else {
        proof {
            lemma_udiv_bounds(-(n as int), d as int);
        }
        let q: u128 = ((-n) as u128) / (d as u128);
        -(q as i128)
    }
}

/// Both candidates for a floor square root are the same number.
proof fn lemma_sqrt_floor_unique(x: int, r: int)
    requires
        is_sqrt_floor(x, r),
    ensures
        sqrt_floor(x) == r,
{
    assert(exists|s: int| is_sqrt_floor(x, s)) by {
        assert(is_sqrt_floor(x, r));
    }
    let c = choose|s: int| is_sqrt_floor(x, s);
    assert(is_sqrt_floor(x, c));
    if c < r {
        assert((c + 1) * (c + 1) <= r * r) by (nonlinear_arith)
            requires
                0 <= c < r,
        ;
        assert(false);
    }
    if c > r {
        assert((r + 1) * (r + 1) <= c * c) by (nonlinear_arith)
            requires
                0 <= r < c,
        ;
        assert(false);
    }
}

/// The floor of the square root of a 128-bit value, by bisection.
fn isqrt_u128(x: u128) -> (r: u128)
    ensures
        r as int == sqrt_floor(x as int),
        is_sqrt_floor(x as int, r as int),
{
    let mut lo: u128 = 0;
    let mut hi: u128 = 18446744073709551616;
    proof {
        assert((hi as int) * (hi as int) > x as int) by (nonlinear_arith)
            requires
                hi == 18446744073709551616,
                x <= u128::MAX,
        ;
    }
    while lo + 1 < hi
        invariant
            lo < hi <= 18446744073709551616,
            (lo as int) * (lo as int) <= x as int,
            (hi as int) * (hi as int) > x as int,
        decreases hi - lo,
    {
        let mid: u128 = lo + (hi - lo) / 2;
        proof {
            assert(lo < mid < hi);
            assert((mid as int) * (mid as int) <= u128::MAX) by (nonlinear_arith)
                requires
                    0 <= mid < 18446744073709551616,
            ;
        }
        if mid * mid <= x {
            lo = mid;
        } else {
            hi = mid;
        }
    }
    proof {
        lemma_sqrt_floor_unique(x as int, lo as int);
    }
    lo
}

/// Euclidean division of a non-negative value by a positive one shrinks it
/// and stays non-negative.
proof fn lemma_udiv_bounds(n: int, d: int)
    requires
        n >= 0,
        d >= 1,
    ensures
        0 <= n / d <= n,
{
    vstd::arithmetic::div_mod::lemma_div_pos_is_pos(n, d);
    vstd::arithmetic::div_mod::lemma_div_nonincreasing(n, d);
}

impl Fx {
    /// The scalar whose stored integer is `raw`.
    pub fn from_raw(raw: i64) -> (r: Fx)
        ensures
            r@ == raw as int,
    {
        Fx { raw }
    }

    /// The stored integer of this scalar.
    pub fn raw_value(self) -> (r: i64)
        ensures
            r as int == self@,
    {
        self.raw
    }

    /// The scalar standing for the whole number `i`.
    pub fn from_int(i: i64) -> (r: Fx)
        requires
            -8388608 <= i <= 8388607,
        ensures
            r@ == i * SCALE,
    {
        Fx { raw: i * SCALE }
    }

    /// The scalar zero.
    pub fn zero() -> (r: Fx)
        ensures
            r@ == 0,
    {
        Fx { raw: 0 }
    }

    /// The scalar one.
    pub fn one() -> (r: Fx)
        ensures
            r@ == SCALE,
    {
        Fx { raw: SCALE }
    }

    /// Absolute value.
    pub fn abs(self) -> (r: Fx)
        ensures
            r@ == fx_abs(self@),
    {
        if self.raw < 0 {
            let s: i128 = -(self.raw as i128);
            Fx { raw: clamp_i128(s) }
        } else {
            self
        }
    }

    /// Quotient of the raw value by a positive integer, truncated toward zero.
    pub fn divi(self, k: i64) -> (r: Fx)
        requires
            k > 0,
        ensures
            r@ == tdiv(self@, k as int),
    {
        let q: i128 = tdiv_i128(self.raw as i128, k as i128);
        proof {
            if self.raw >= 0 {
                lemma_udiv_bounds(self.raw as int, k as int);
            } else {
                lemma_udiv_bounds(-(self.raw as int), k as int);
            }
        }
        Fx { raw: q as i64 }
    }

    /// Square root; non-positive scalars yield zero.
    pub fn sqrt(self) -> (r: Fx)
        ensures
            r@ == fx_sqrt(self@),
            r@ >= 0,
    {
        if self.raw <= 0 {
            Fx { raw: 0 }
        } else {
            let prod: u128 = (self.raw as u128) * (SCALE as u128);
            proof {
                assert((self.raw as u128) * (SCALE as u128) == (self.raw as int) * (
                SCALE as int)) by (nonlinear_arith)
                    requires
                        self.raw > 0,
                ;
            }
            let r: u128 = isqrt_u128(prod);
            proof {
                assert(r as int <= i64::MAX) by (nonlinear_arith)
                    requires
                        is_sqrt_floor(prod as int, r as int),
                        prod as int <= 0x8000000000000000000000000000i128,
                ;
            }
            Fx { raw: r as i64 }
        }
    }

    /// The largest whole number at or below this scalar.
    pub fn floor_int(self) -> (k: i64)
        ensures
            k as int == self@ / (SCALE as int),
            -8388608 <= k <= 8388607,
    {
        proof {
            vstd::arithmetic::div_mod::lemma_div_is_ordered(
                i64::MIN as int,
                self.raw as int,
                SCALE as int,
            );
            vstd::arithmetic::div_mod::lemma_div_is_ordered(
                self.raw as int,
                i64::MAX as int,
                SCALE as int,
            );
            assert((i64::MIN as int) / (SCALE as int) == -8388608);
            assert((i64::MAX as int) / (SCALE as int) == 8388607);
        }
        self.raw.checked_div_euclid(SCALE).unwrap()
    }

    /// The fractional part: this scalar minus its floor, in `[0, 1)`.
    pub fn fract(self) -> (r: Fx)
        ensures
            r@ == self@ % (SCALE as int),
    {
        proof {
            vstd::arithmetic::div_mod::lemma_mod_division_less_than_divisor(
                self.raw as int,
                SCALE as int,
            );
        }
        Fx { raw: self.raw.checked_rem_euclid(SCALE).unwrap() }
    }

    /// This scalar taken to the `n`-th power by repeated multiplication.
    pub fn powi(self, n: u64) -> (r: Fx)
        ensures
            r@ == fx_pow(self@, n as nat),
    {
        let mut acc: Fx = Fx { raw: SCALE };
        let mut i: u64 = 0;
        while i < n
            invariant
                i <= n,
                acc@ == fx_pow(self@, i as nat),
            decreases n - i,
        {
            acc = acc.mul(self);
            i = i + 1;
        }
        acc
    }

    /// Sine of this scalar taken as an angle in radians.
    pub fn sin(self) -> (r: Fx)
        ensures
            r@ == fx_sin(self@),
    {
        let red: Fx = reduce(self);
        let x: Fx = if red.raw > HALF_PI_RAW {
            Fx { raw: PI_RAW - red.raw }
        } else if red.raw < -HALF_PI_RAW {
            Fx { raw: -PI_RAW - red.raw }
        } else {
            red
        };
        let one: Fx = Fx { raw: SCALE };
        let s: Fx = x.mul(x);
        let p1: Fx = one.sub(s.divi(110));
        let p2: Fx = one.sub(s.mul(p1).divi(72));
        let p3: Fx = one.sub(s.mul(p2).divi(42));
        let p4: Fx = one.sub(s.mul(p3).divi(20));
        let p5: Fx = one.sub(s.mul(p4).divi(6));
        x.mul(p5)
    }

    /// Cosine of this scalar taken as an angle in radians.
    pub fn cos(self) -> (r: Fx)
        ensures
            r@ == fx_cos(self@),
    {
        let a: Fx = Fx { raw: HALF_PI_RAW }.sub(self);
        a.sin()
    }

    /// Tangent of this scalar taken as an angle in radians.
    pub fn tan(self) -> (r: Fx)
        ensures
            r@ == fx_tan(self@),
    {
        self.sin().div_total(self.cos())
    }

    /// Quotient, with the whole `fx_div` meaning: zero when `rhs` is zero.
    pub fn div_total(self, rhs: Fx) -> (r: Fx)
        ensures
            r@ == fx_div(self@, rhs@),
    {
        if rhs.raw == 0 {
            Fx { raw: 0 }
        } else {
            proof {
                lemma_i64_prod_bounds(self.raw as int, SCALE as int);
            }
            let n: i128 = (self.raw as i128) * (SCALE as i128);
            if rhs.raw < 0 {
                let q: i128 = tdiv_i128(-n, -(rhs.raw as i128));
                Fx { raw: clamp_i128(q) }
            } else {
                let q: i128 = tdiv_i128(n, rhs.raw as i128);
                Fx { raw: clamp_i128(q) }
            }
        }
    }
}

/// The remainder of `k` modulo two, always zero or one.
pub fn parity(k: i64) -> (p: i64)
    ensures
        p as int == (k as int) % 2,
{
    k.checked_rem_euclid(2).unwrap()
}

/// Bring an angle into `[-PI_RAW, PI_RAW]` by whole turns.
fn reduce(a: Fx) -> (r: Fx)
    ensures
        r@ == reduce_angle(a@),
        -PI_RAW <= r.raw <= PI_RAW,
{
    let mut x: i64 = a.raw;
    while x > PI_RAW
        invariant
            reduce_angle(x as int) == reduce_angle(a@),
        decreases reduce_measure(x as int),
    {
        x = x - TWO_PI_RAW;
    }
    while x < -PI_RAW
        invariant
            reduce_angle(x as int) == reduce_angle(a@),
            x <= PI_RAW,
        decreases reduce_measure(x as int),
    {
        x = x + TWO_PI_RAW;
    }
    Fx { raw: x }
}

impl core::ops::Add for Fx {
    type Output = Fx;

    fn add(self, rhs: Fx) -> (r: Fx) {
        let s: i128 = self.raw as i128 + rhs.raw as i128;
        Fx { raw: clamp_i128(s) }
    }
}

impl vstd::std_specs::ops::AddSpecImpl for Fx {
    open spec fn obeys_add_spec() -> bool {
        true
    }

    open spec fn add_req(self, rhs: Fx) -> bool {
        true
    }

    open spec fn add_spec(self, rhs: Fx) -> Fx {
        Fx { raw: fx_add(self@, rhs@) as i64 }
    }
}

impl core::ops::Sub for Fx {
    type Output = Fx;

    fn sub(self, rhs: Fx) -> (r: Fx) {
        let s: i128 = self.raw as i128 - rhs.raw as i128;
        Fx { raw: clamp_i128(s) }
    }
}

impl vstd::std_specs::ops::SubSpecImpl for Fx {
    open spec fn obeys_sub_spec() -> bool {
        true
    }

    open spec fn sub_req(self, rhs: Fx) -> bool {
        true
    }

    open spec fn sub_spec(self, rhs: Fx) -> Fx {
        Fx { raw: fx_sub(self@, rhs@) as i64 }
    }
}

impl core::ops::Neg for Fx {
    type Output = Fx;

    fn neg(self) -> (r: Fx) {
        let s: i128 = -(self.raw as i128);
        Fx { raw: clamp_i128(s) }
    }
}

impl vstd::std_specs::ops::NegSpecImpl for Fx {
    open spec fn obeys_neg_spec() -> bool {
        true
    }

    open spec fn neg_req(self) -> bool {
        true
    }

    open spec fn neg_spec(self) -> Fx {
        Fx { raw: fx_neg(self@) as i64 }
    }
}

impl core::ops::Mul for Fx {
    type Output = Fx;

    fn mul(self, rhs: Fx) -> (r: Fx) {
        proof {
            lemma_i64_prod_bounds(self.raw as int, rhs.raw as int);
        }
        let p: i128 = (self.raw as i128) * (rhs.raw as i128);
        let q: i128 = tdiv_i128(p, SCALE as i128);
        Fx { raw: clamp_i128(q) }
    }
}

impl vstd::std_specs::ops::MulSpecImpl for Fx {
    open spec fn obeys_mul_spec() -> bool {
        true
    }

    open spec fn mul_req(self, rhs: Fx) -> bool {
        true
    }

    open spec fn mul_spec(self, rhs: Fx) -> Fx {
        Fx { raw: fx_mul(self@, rhs@) as i64 }
    }
}

impl core::ops::Div for Fx {
    type Output = Fx;

    fn div(self, rhs: Fx) -> (r: Fx) {
        proof {
            lemma_i64_prod_bounds(self.raw as int, SCALE as int);
        }
        let n: i128 = (self.raw as i128) * (SCALE as i128);
        if rhs.raw < 0 {
            let q: i128 = tdiv_i128(-n, -(rhs.raw as i128));
            Fx { raw: clamp_i128(q) }
        } else {
            let q: i128 = tdiv_i128(n, rhs.raw as i128);
            Fx { raw: clamp_i128(q) }
        }
    }
}

impl vstd::std_specs::ops::DivSpecImpl for Fx {
    open spec fn obeys_div_spec() -> bool {
        true
    }

    open spec fn div_req(self, rhs: Fx) -> bool {
        rhs@ != 0
    }

    open spec fn div_spec(self, rhs: Fx) -> Fx {
        Fx { raw: fx_div(self@, rhs@) as i64 }
    }
}

} // verus!
