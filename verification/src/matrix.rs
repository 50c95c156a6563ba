//! Square matrices in row-major order: 2x2 and 3x3 as determinant helpers,
//! and the 4x4 matrices that carry every affine transform.
//!
//! A matrix views as the sequence of its sixteen (nine, four) raw scalar
//! values; the spec functions below give determinants, cofactors, products
//! and the inverse their exact fixed-point meaning over that sequence.

use crate::fixed::EPSILON_RAW;
use crate::fixed::Fx;
use crate::fixed::SCALE;
use crate::fixed::fx_abs;
use crate::fixed::fx_add;
use crate::fixed::fx_div;
use crate::fixed::fx_mul;
use crate::fixed::fx_neg;
use crate::fixed::fx_sub;
use crate::fixed::fxv;
use crate::tuple::Tuple;
use core::ops::Add;
use core::ops::Div;
use core::ops::Mul;
use core::ops::Neg;
use core::ops::Sub;
use vstd::prelude::*;

verus! {

/// The 2x2 determinant `m[0]*m[3] - m[1]*m[2]`.
pub open spec fn det2(m: Seq<int>) -> int {
    fx_sub(fx_mul(m[0], m[3]), fx_mul(m[1], m[2]))
}

/// The 2x2 submatrix of a 3x3 matrix with row `r` and column `c` removed.
pub open spec fn sub3(m: Seq<int>, r: int, c: int) -> Seq<int> {
    Seq::new(
        4,
        |i: int|
            {
                let tr = i / 2;
                let tc = i % 2;
                let sr = if tr >= r {
                    tr + 1
                } else {
                    tr
                };
                let sc = if tc >= c {
                    tc + 1
                } else {
                    tc
                };
                m[sr * 3 + sc]
            },
    )
}

/// The minor of a 3x3 matrix: the determinant of a submatrix.
#[verifier::opaque]
pub open spec fn minor3(m: Seq<int>, r: int, c: int) -> int {
    det2(sub3(m, r, c))
}

/// The cofactor of a 3x3 matrix: the minor, negated on odd positions.
#[verifier::opaque]
pub open spec fn cof3(m: Seq<int>, r: int, c: int) -> int {
    if (r + c) % 2 == 0 {
        minor3(m, r, c)
    } else {
        fx_neg(minor3(m, r, c))
    }
}

/// The 3x3 determinant by first-column cofactor expansion.
#[verifier::opaque]
pub open spec fn det3(m: Seq<int>) -> int {
    fx_add(
        fx_add(fx_add(0, fx_mul(m[0], cof3(m, 0, 0))), fx_mul(m[3], cof3(m, 1, 0))),
        fx_mul(m[6], cof3(m, 2, 0)),
    )
}

/// The 3x3 submatrix of a 4x4 matrix with row `r` and column `c` removed.
pub open spec fn sub4(m: Seq<int>, r: int, c: int) -> Seq<int> {
    Seq::new(
        9,
        |i: int|
            {
                let tr = i / 3;
                let tc = i % 3;
                let sr = if tr >= r {
                    tr + 1
                } else {
                    tr
                };
                let sc = if tc >= c {
                    tc + 1
                } else {
                    tc
                };
                m[sr * 4 + sc]
            },
    )
}

/// The minor of a 4x4 matrix: the determinant of a submatrix.
#[verifier::opaque]
pub open spec fn minor4(m: Seq<int>, r: int, c: int) -> int {
    det3(sub4(m, r, c))
}

/// The cofactor of a 4x4 matrix: the minor, negated on odd positions.
#[verifier::opaque]
pub open spec fn cof4(m: Seq<int>, r: int, c: int) -> int {
    if (r + c) % 2 == 0 {
        minor4(m, r, c)
    } else {
        fx_neg(minor4(m, r, c))
    }
}

/// The 4x4 determinant by first-column cofactor expansion.
#[verifier::opaque]
pub open spec fn det4(m: Seq<int>) -> int {
    fx_add(
        fx_add(
            fx_add(fx_add(0, fx_mul(m[0], cof4(m, 0, 0))), fx_mul(m[4], cof4(m, 1, 0))),
            fx_mul(m[8], cof4(m, 2, 0)),
        ),
        fx_mul(m[12], cof4(m, 3, 0)),
    )
}

/// Whether the determinant clears the tolerance for inversion.
pub open spec fn mat4_invertible(m: Seq<int>) -> bool {
    fx_abs(det4(m)) >= EPSILON_RAW
}

/// The transpose of a 4x4 matrix.
pub open spec fn mat4_transpose(m: Seq<int>) -> Seq<int> {
    Seq::new(16, |i: int| m[(i % 4) * 4 + i / 4])
}

/// The inverse: the transposed cofactor matrix, each entry divided by the
/// determinant.
#[verifier::opaque]
pub open spec fn mat4_inverse(m: Seq<int>) -> Seq<int> {
    Seq::new(16, |i: int| fx_div(cof4(m, i % 4, i / 4), det4(m)))
}

/// The matrix product, each entry a row-by-column dot product.
pub open spec fn mat4_mul(a: Seq<int>, b: Seq<int>) -> Seq<int> {
    Seq::new(
        16,
        |i: int|
            {
                let r = i / 4;
                let c = i % 4;
                fx_add(
                    fx_add(
                        fx_add(fx_mul(a[r * 4], b[c]), fx_mul(a[r * 4 + 1], b[4 + c])),
                        fx_mul(a[r * 4 + 2], b[8 + c]),
                    ),
                    fx_mul(a[r * 4 + 3], b[12 + c]),
                )
            },
    )
}

/// A matrix applied to a tuple, one row-by-tuple dot product per component.
pub open spec fn mat4_row_apply(m: Seq<int>, t: Tuple, r: int) -> int {
    fx_add(
        fx_add(
            fx_add(fx_mul(m[r * 4], t.x@), fx_mul(m[r * 4 + 1], t.y@)),
            fx_mul(m[r * 4 + 2], t.z@),
        ),
        fx_mul(m[r * 4 + 3], t.w@),
    )
}

/// A matrix applied to a tuple.
pub open spec fn mat4_apply(m: Seq<int>, t: Tuple) -> Tuple {
    Tuple {
        x: fxv(mat4_row_apply(m, t, 0)),
        y: fxv(mat4_row_apply(m, t, 1)),
        z: fxv(mat4_row_apply(m, t, 2)),
        w: fxv(mat4_row_apply(m, t, 3)),
    }
}

/// The 4x4 identity.
pub open spec fn mat4_identity() -> Seq<int> {
    Seq::new(
        16,
        |i: int|
            if i / 4 == i % 4 {
                SCALE as int
            } else {
                0
            },
    )
}

/// A 2 by 2 matrix.
#[derive(Clone, Copy, Debug)]
pub struct Matrix2x2 {
    pub values: [Fx; 4],
}

impl View for Matrix2x2 {
    type V = Seq<int>;

    open spec fn view(&self) -> Seq<int> {
        Seq::new(4, |i: int| self.values@[i]@)
    }
}

impl Matrix2x2 {
    /// Creates a new matrix with all values set to 0.
    pub fn new() -> (r: Matrix2x2)
        ensures
            r@ == Seq::new(4, |i: int| 0int),
    {
        let r = Matrix2x2 { values: [Fx { raw: 0 }, Fx { raw: 0 }, Fx { raw: 0 }, Fx { raw: 0 }] };
        proof {
            assert(r@ =~= Seq::new(4, |i: int| 0int));
        }
        r
    }

    /// Fills a matrix with the given values. The values are given in row major order.
    pub fn fill(&mut self, list: [Fx; 4])
        ensures
            final(self)@ == Seq::new(4, |i: int| list@[i]@),
    {
        self.values = list;
        proof {
            assert(self@ =~= Seq::new(4, |i: int| list@[i]@));
        }
    }

    /// Writes a value to the matrix at the given position.
    pub fn write_value(&mut self, m: usize, n: usize, value: Fx)
        requires
            m < 2,
            n < 2,
        ensures
            final(self)@ == old(self)@.update(m * 2 + n, value@),
    {
        self.values[m * 2 + n] = value;
        proof {
            assert(self@ =~= old(self)@.update(m * 2 + n, value@));
        }
    }

    /// Returns the value at the given position.
    pub fn value_at(&self, m: usize, n: usize) -> (r: Fx)
        requires
            m < 2,
            n < 2,
        ensures
            r@ == self@[m * 2 + n],
    {
        self.values[m * 2 + n]
    }

    /// Returns the determinant of the matrix.
    pub fn determinant(&self) -> (r: Fx)
        ensures
            r@ == det2(self@),
    {
        self.value_at(0, 0).mul(self.value_at(1, 1)).sub(
            self.value_at(0, 1).mul(self.value_at(1, 0)),
        )
    }
}

/// A 3 by 3 matrix.
#[derive(Clone, Copy, Debug)]
pub struct Matrix3x3 {
    pub values: [Fx; 9],
}

impl View for Matrix3x3 {
    type V = Seq<int>;

    open spec fn view(&self) -> Seq<int> {
        Seq::new(9, |i: int| self.values@[i]@)
    }
}

impl Matrix3x3 {
    /// Creates a new matrix with all values set to 0.
    pub fn new() -> (r: Matrix3x3)
        ensures
            r@ == Seq::new(9, |i: int| 0int),
    {
        let z = Fx { raw: 0 };
        let r = Matrix3x3 { values: [z, z, z, z, z, z, z, z, z] };
        proof {
            assert(r@ =~= Seq::new(9, |i: int| 0int));
        }
        r
    }

    /// Fills a matrix with the given values. The values are given in row major order.
    pub fn fill(&mut self, list: [Fx; 9])
        ensures
            final(self)@ == Seq::new(9, |i: int| list@[i]@),
    {
        self.values = list;
        proof {
            assert(self@ =~= Seq::new(9, |i: int| list@[i]@));
        }
    }

    /// Writes a value to the matrix at the given position.
    pub fn write_value(&mut self, m: usize, n: usize, value: Fx)
        requires
            m < 3,
            n < 3,
        ensures
            final(self)@ == old(self)@.update(m * 3 + n, value@),
    {
        self.values[m * 3 + n] = value;
        proof {
            assert(self@ =~= old(self)@.update(m * 3 + n, value@));
        }
    }

    /// Returns the value at the given position.
    pub fn value_at(&self, m: usize, n: usize) -> (r: Fx)
        requires
            m < 3,
            n < 3,
        ensures
            r@ == self@[m * 3 + n],
    {
        self.values[m * 3 + n]
    }

    /// Returns the submatrix of the matrix at the given position.
    pub fn submatrix(&self, m: usize, n: usize) -> (r: Matrix2x2)
        requires
            m < 3,
            n < 3,
        ensures
            r@ == sub3(self@, m as int, n as int),
    {
        let mut sub = Matrix2x2::new();
        let mut tr: usize = 0;
        while tr < 2
            invariant
                tr <= 2,
                m < 3,
                n < 3,
                forall|i: int|
                    0 <= i < tr * 2 ==> sub@[i] == sub3(self@, m as int, n as int)[i],
            decreases 2 - tr,
        {
            let mut tc: usize = 0;
            while tc < 2
                invariant
                    tr < 2,
                    tc <= 2,
                    m < 3,
                    n < 3,
                    forall|i: int|
                        0 <= i < tr * 2 + tc ==> sub@[i] == sub3(self@, m as int, n as int)[i],
                decreases 2 - tc,
            {
                let sr: usize = if tr >= m {
                    tr + 1
                } else {
                    tr
                };
                let sc: usize = if tc >= n {
                    tc + 1
                } else {
                    tc
                };
                sub.write_value(tr, tc, self.value_at(sr, sc));
                tc = tc + 1;
            }
            tr = tr + 1;
        }
        proof {
            assert(sub@ =~= sub3(self@, m as int, n as int));
        }
        sub
    }

    /// Returns the minor of the matrix at the given position.
    pub fn minor(&self, m: usize, n: usize) -> (r: Fx)
        requires
            m < 3,
            n < 3,
        ensures
            r@ == minor3(self@, m as int, n as int),
    {
        proof {
            reveal(minor3);
        }
        let sub = self.submatrix(m, n);
        sub.determinant()
    }

    /// Returns the cofactor of the matrix at the given position.
    pub fn cofactor(&self, m: usize, n: usize) -> (r: Fx)
        requires
            m < 3,
            n < 3,
        ensures
            r@ == cof3(self@, m as int, n as int),
    {
        proof {
            reveal(cof3);
        }
        let minor = self.minor(m, n);
        if (m + n) % 2 == 0 {
            minor
        } else {
            minor.neg()
        }
    }

    /// Returns the determinant of the matrix.
    pub fn determinant(&self) -> (r: Fx)
        ensures
            r@ == det3(self@),
    {
        proof {
            reveal(det3);
        }
        let mut d: Fx = Fx::zero();
        d = d.add(self.value_at(0, 0).mul(self.cofactor(0, 0)));
        d = d.add(self.value_at(1, 0).mul(self.cofactor(1, 0)));
        d = d.add(self.value_at(2, 0).mul(self.cofactor(2, 0)));
        d
    }
}

/// A 4 by 4 matrix.
#[derive(Clone, Copy, Debug)]
pub struct Matrix4x4 {
    pub values: [Fx; 16],
}

impl View for Matrix4x4 {
    type V = Seq<int>;

    open spec fn view(&self) -> Seq<int> {
        Seq::new(16, |i: int| self.values@[i]@)
    }
}

impl Matrix4x4 {
    /// Creates a new matrix with all values set to 0.
    pub fn new() -> (r: Matrix4x4)
        ensures
            r@ == Seq::new(16, |i: int| 0int),
    {
        let z = Fx { raw: 0 };
        let r = Matrix4x4 { values: [z, z, z, z, z, z, z, z, z, z, z, z, z, z, z, z] };
        proof {
            assert(r@ =~= Seq::new(16, |i: int| 0int));
        }
        r
    }

    /// Fills a matrix with the given values. The values are given in row major order.
    pub fn fill(&mut self, list: [Fx; 16])
        ensures
            final(self)@ == Seq::new(16, |i: int| list@[i]@),
    {
        self.values = list;
        proof {
            assert(self@ =~= Seq::new(16, |i: int| list@[i]@));
        }
    }

    /// Writes a value to the matrix at the given position.
    pub fn write_value(&mut self, m: usize, n: usize, value: Fx)
        requires
            m < 4,
            n < 4,
        ensures
            final(self)@ == old(self)@.update(m * 4 + n, value@),
    {
        self.values[m * 4 + n] = value;
        proof {
            assert(self@ =~= old(self)@.update(m * 4 + n, value@));
        }
    }

    /// Returns the value at the given position.
    pub fn value_at(&self, m: usize, n: usize) -> (r: Fx)
        requires
            m < 4,
            n < 4,
        ensures
            r@ == self@[m * 4 + n],
    {
        self.values[m * 4 + n]
    }

    /// Returns the transpose of the matrix.
    pub fn transpose(&self) -> (r: Matrix4x4)
        ensures
            r@ == mat4_transpose(self@),
    {
        let mut transposed = Matrix4x4::new();
        let mut row: usize = 0;
        while row < 4
            invariant
                row <= 4,
                forall|i: int| 0 <= i < row * 4 ==> transposed@[i] == mat4_transpose(self@)[i],
            decreases 4 - row,
        {
            let mut col: usize = 0;
            while col < 4
                invariant
                    row < 4,
                    col <= 4,
                    forall|i: int|
                        0 <= i < row * 4 + col ==> transposed@[i] == mat4_transpose(self@)[i],
                decreases 4 - col,
            {
                transposed.write_value(row, col, self.value_at(col, row));
                col = col + 1;
            }
            row = row + 1;
        }
        proof {
            assert(transposed@ =~= mat4_transpose(self@));
        }
        transposed
    }

    /// Returns the submatrix of the matrix at the given position.
    pub fn submatrix(&self, m: usize, n: usize) -> (r: Matrix3x3)
        requires
            m < 4,
            n < 4,
        ensures
            r@ == sub4(self@, m as int, n as int),
    {
        let mut sub = Matrix3x3::new();
        let mut tr: usize = 0;
        while tr < 3
            invariant
                tr <= 3,
                m < 4,
                n < 4,
                forall|i: int|
                    0 <= i < tr * 3 ==> sub@[i] == sub4(self@, m as int, n as int)[i],
            decreases 3 - tr,
        {
            let mut tc: usize = 0;
            while tc < 3
                invariant
                    tr < 3,
                    tc <= 3,
                    m < 4,
                    n < 4,
                    forall|i: int|
                        0 <= i < tr * 3 + tc ==> sub@[i] == sub4(self@, m as int, n as int)[i],
                decreases 3 - tc,
            {
                let sr: usize = if tr >= m {
                    tr + 1
                } else {
                    tr
                };
                let sc: usize = if tc >= n {
                    tc + 1
                } else {
                    tc
                };
                sub.write_value(tr, tc, self.value_at(sr, sc));
                tc = tc + 1;
            }
            tr = tr + 1;
        }
        proof {
            assert(sub@ =~= sub4(self@, m as int, n as int));
        }
        sub
    }

    /// Returns the minor of the matrix at the given position.
    pub fn minor(&self, m: usize, n: usize) -> (r: Fx)
        requires
            m < 4,
            n < 4,
        ensures
            r@ == minor4(self@, m as int, n as int),
    {
        proof {
            reveal(minor4);
        }
        let sub = self.submatrix(m, n);
        sub.determinant()
    }

    /// Returns the cofactor of the matrix at the given position.
    pub fn cofactor(&self, m: usize, n: usize) -> (r: Fx)
        requires
            m < 4,
            n < 4,
        ensures
            r@ == cof4(self@, m as int, n as int),
    {
        proof {
            reveal(cof4);
        }
        let minor = self.minor(m, n);
        if (m + n) % 2 == 0 {
            minor
        } else {
            minor.neg()
        }
    }

    /// Returns the determinant of the matrix.
    pub fn determinant(&self) -> (r: Fx)
        ensures
            r@ == det4(self@),
    {
        proof {
            reveal(det4);
        }
        let mut d: Fx = Fx::zero();
        d = d.add(self.value_at(0, 0).mul(self.cofactor(0, 0)));
        d = d.add(self.value_at(1, 0).mul(self.cofactor(1, 0)));
        d = d.add(self.value_at(2, 0).mul(self.cofactor(2, 0)));
        d = d.add(self.value_at(3, 0).mul(self.cofactor(3, 0)));
        d
    }

    /// Returns true if the matrix is invertible: its determinant clears the
    /// tolerance.
    pub fn invertible(&self) -> (r: bool)
        ensures
            r == mat4_invertible(self@),
    {
        let d = self.determinant();
        d.abs().raw >= EPSILON_RAW
    }

    /// Returns the inverse of the matrix.
    #[verifier::rlimit(50)]
    pub fn inverse(&self) -> (r: Matrix4x4)
        requires
            mat4_invertible(self@),
        ensures
            r@ == mat4_inverse(self@),
    {
        proof {
            reveal(mat4_inverse);
        }
        let det = self.determinant();
        let mut inv = Matrix4x4::new();
        let mut r: usize = 0;
        while r < 4
            invariant
                r <= 4,
                det@ == det4(self@),
                det@ != 0,
                forall|i: int| 0 <= i < r * 4 ==> inv@[i] == mat4_inverse(self@)[i],
            decreases 4 - r,
        {
            let mut c: usize = 0;
            while c < 4
                invariant
                    r < 4,
                    c <= 4,
                    det@ == det4(self@),
                    det@ != 0,
                    forall|i: int| 0 <= i < r * 4 + c ==> inv@[i] == mat4_inverse(self@)[i],
                decreases 4 - c,
            {
                let cof = self.cofactor(c, r);
                proof {
                    reveal(mat4_inverse);
                    let i: int = r as int * 4 + c as int;
                    assert(i / 4 == r as int && i % 4 == c as int);
                    assert(mat4_inverse(self@)[i] == fx_div(
                        cof4(self@, c as int, r as int),
                        det4(self@),
                    ));
                }
                inv.write_value(r, c, cof.div(det));
                c = c + 1;
            }
            r = r + 1;
        }
        proof {
            assert(inv@ =~= mat4_inverse(self@));
        }
        inv
    }
}

/// The 4x4 matrix whose view is `s`, where one exists.
pub open spec fn mat4_of(s: Seq<int>) -> Matrix4x4 {
    choose|m: Matrix4x4| m@ == s
}

/// A matrix is determined by its view, so `mat4_of` recovers it.
pub proof fn lemma_mat4_of(m: Matrix4x4, s: Seq<int>)
    requires
        m@ == s,
    ensures
        mat4_of(s) == m,
{
    broadcast use vstd::array::group_array_axioms;

    assert(exists|w: Matrix4x4| w@ == s) by {
        assert(m@ == s);
    }
    let w = mat4_of(s);
    assert(w@ == s);
    assert forall|i: int| 0 <= i < 16 implies w.values@[i] == m.values@[i] by {
        assert(w@[i] == m@[i]);
        assert(w.values@[i]@ == m.values@[i]@);
        assert(w.values@[i].raw == m.values@[i].raw);
    }
    assert(w.values@ =~= m.values@);
    assert(w.values == m.values);
    assert(w == m);
}

impl Mul<Matrix4x4> for Matrix4x4 {
    type Output = Matrix4x4;

    fn mul(self, rhs: Matrix4x4) -> (r: Matrix4x4) {
        let out = self.times(&rhs);
        proof {
            lemma_mat4_of(out, mat4_mul(self@, rhs@));
        }
        out
    }
}

impl vstd::std_specs::ops::MulSpecImpl<Matrix4x4> for Matrix4x4 {
    open spec fn obeys_mul_spec() -> bool {
        true
    }

    open spec fn mul_req(self, rhs: Matrix4x4) -> bool {
        true
    }

    open spec fn mul_spec(self, rhs: Matrix4x4) -> Matrix4x4 {
        mat4_of(mat4_mul(self@, rhs@))
    }
}

impl Mul<Tuple> for Matrix4x4 {
    type Output = Tuple;

    fn mul(self, rhs: Tuple) -> (r: Tuple) {
        Tuple {
            x: self.row_apply(0, rhs),
            y: self.row_apply(1, rhs),
            z: self.row_apply(2, rhs),
            w: self.row_apply(3, rhs),
        }
    }
}

impl vstd::std_specs::ops::MulSpecImpl<Tuple> for Matrix4x4 {
    open spec fn obeys_mul_spec() -> bool {
        true
    }

    open spec fn mul_req(self, rhs: Tuple) -> bool {
        true
    }

    open spec fn mul_spec(self, rhs: Tuple) -> Tuple {
        mat4_apply(self@, rhs)
    }
}

impl Matrix4x4 {
    /// One row of the matrix dotted with a tuple.
    fn row_apply(&self, r: usize, t: Tuple) -> (v: Fx)
        requires
            r < 4,
        ensures
            v@ == mat4_row_apply(self@, t, r as int),
    {
        self.value_at(r, 0).mul(t.x).add(self.value_at(r, 1).mul(t.y)).add(
            self.value_at(r, 2).mul(t.z),
        ).add(self.value_at(r, 3).mul(t.w))
    }

    /// The matrix applied to a tuple; the same product as the `*` operator.
    pub fn apply(&self, t: Tuple) -> (r: Tuple)
        ensures
            r == mat4_apply(self@, t),
    {
        Tuple {
            x: self.row_apply(0, t),
            y: self.row_apply(1, t),
            z: self.row_apply(2, t),
            w: self.row_apply(3, t),
        }
    }

    /// The matrix product; the same product as the `*` operator.
    #[verifier::rlimit(50)]
    pub fn times(&self, rhs: &Matrix4x4) -> (r: Matrix4x4)
        ensures
            r@ == mat4_mul(self@, rhs@),
    {
        let mut out = Matrix4x4::new();
        let mut m: usize = 0;
        while m < 4
            invariant
                m <= 4,
                forall|i: int| 0 <= i < m * 4 ==> out@[i] == mat4_mul(self@, rhs@)[i],
            decreases 4 - m,
        {
            let mut n: usize = 0;
            while n < 4
                invariant
                    m < 4,
                    n <= 4,
                    forall|i: int| 0 <= i < m * 4 + n ==> out@[i] == mat4_mul(self@, rhs@)[i],
                decreases 4 - n,
            {
                let v = self.value_at(m, 0).mul(rhs.value_at(0, n)).add(
                    self.value_at(m, 1).mul(rhs.value_at(1, n)),
                ).add(self.value_at(m, 2).mul(rhs.value_at(2, n))).add(
                    self.value_at(m, 3).mul(rhs.value_at(3, n)),
                );
                out.write_value(m, n, v);
                n = n + 1;
            }
            m = m + 1;
        }
        proof {
            assert(out@ =~= mat4_mul(self@, rhs@));
        }
        out
    }
}

impl PartialEq for Matrix2x2 {
    fn eq(&self, other: &Matrix2x2) -> (r: bool) {
        let mut i: usize = 0;
        let mut same: bool = true;
        while i < 4
            invariant
                i <= 4,
                same == (forall|j: int| 0 <= j < i ==> self@[j] == other@[j]),
            decreases 4 - i,
        {
            if self.values[i].raw != other.values[i].raw {
                same = false;
            }
            proof {
                if self.values@[i as int].raw == other.values@[i as int].raw {
                    assert(self@[i as int] == other@[i as int]);
                } else {
                    assert(self@[i as int] != other@[i as int]);
                }
            }
            i = i + 1;
        }
        proof {
            if same {
                assert(self@ =~= other@);
            }
        }
        same
    }
}

impl vstd::std_specs::cmp::PartialEqSpecImpl for Matrix2x2 {
    open spec fn obeys_eq_spec() -> bool {
        true
    }

    open spec fn eq_spec(&self, other: &Matrix2x2) -> bool {
        self@ == other@
    }
}

impl PartialEq for Matrix3x3 {
    fn eq(&self, other: &Matrix3x3) -> (r: bool) {
        let mut i: usize = 0;
        let mut same: bool = true;
        while i < 9
            invariant
                i <= 9,
                same == (forall|j: int| 0 <= j < i ==> self@[j] == other@[j]),
            decreases 9 - i,
        {
            if self.values[i].raw != other.values[i].raw {
                same = false;
            }
            proof {
                if self.values@[i as int].raw == other.values@[i as int].raw {
                    assert(self@[i as int] == other@[i as int]);
                } else {
                    assert(self@[i as int] != other@[i as int]);
                }
            }
            i = i + 1;
        }
        proof {
            if same {
                assert(self@ =~= other@);
            }
        }
        same
    }
}

impl vstd::std_specs::cmp::PartialEqSpecImpl for Matrix3x3 {
    open spec fn obeys_eq_spec() -> bool {
        true
    }

    open spec fn eq_spec(&self, other: &Matrix3x3) -> bool {
        self@ == other@
    }
}

impl PartialEq for Matrix4x4 {
    fn eq(&self, other: &Matrix4x4) -> (r: bool) {
        let mut i: usize = 0;
        let mut same: bool = true;
        while i < 16
            invariant
                i <= 16,
                same == (forall|j: int| 0 <= j < i ==> self@[j] == other@[j]),
            decreases 16 - i,
        {
            if self.values[i].raw != other.values[i].raw {
                same = false;
            }
            proof {
                if self.values@[i as int].raw == other.values@[i as int].raw {
                    assert(self@[i as int] == other@[i as int]);
                } else {
                    assert(self@[i as int] != other@[i as int]);
                }
            }
            i = i + 1;
        }
        proof {
            if same {
                assert(self@ =~= other@);
            }
        }
        same
    }
}

impl vstd::std_specs::cmp::PartialEqSpecImpl for Matrix4x4 {
    open spec fn obeys_eq_spec() -> bool {
        true
    }

    open spec fn eq_spec(&self, other: &Matrix4x4) -> bool {
        self@ == other@
    }
}

/// Create a 4 by 4 identity matrix
pub fn identity() -> (r: Matrix4x4)
    ensures
        r@ == mat4_identity(),
{
    let mut ident = Matrix4x4::new();
    ident.write_value(0, 0, Fx { raw: SCALE });
    ident.write_value(1, 1, Fx { raw: SCALE });
    ident.write_value(2, 2, Fx { raw: SCALE });
    ident.write_value(3, 3, Fx { raw: SCALE });
    proof {
        assert(ident@ =~= mat4_identity());
    }
    ident
}

} // verus!
