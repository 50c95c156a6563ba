//! Affine transform builders: translation, scaling, rotation about each
//! axis, and shearing.  Each returns a 4x4 matrix; transforms compose by
//! matrix multiplication, with the rightmost factor applied first.

use crate::fixed::Fx;
use crate::fixed::fx_cos;
use crate::fixed::fx_neg;
use crate::fixed::fx_sin;
use crate::matrix::Matrix4x4;
use crate::matrix::identity;
use crate::matrix::mat4_identity;
use core::ops::Neg;
use vstd::prelude::*;

verus! {

/// The matrix that translates by `(x, y, z)`.
pub open spec fn translation_spec(x: int, y: int, z: int) -> Seq<int> {
    mat4_identity().update(3, x).update(7, y).update(11, z)
}

/// The matrix that scales by `(x, y, z)`.
pub open spec fn scale_spec(x: int, y: int, z: int) -> Seq<int> {
    mat4_identity().update(0, x).update(5, y).update(10, z)
}

/// The matrix of a right-handed rotation about the x axis by `r` radians.
pub open spec fn rot_x_spec(r: int) -> Seq<int> {
    mat4_identity().update(5, fx_cos(r)).update(6, fx_neg(fx_sin(r))).update(
        9,
        fx_sin(r),
    ).update(10, fx_cos(r))
}

/// The matrix of a right-handed rotation about the y axis by `r` radians.
pub open spec fn rot_y_spec(r: int) -> Seq<int> {
    mat4_identity().update(0, fx_cos(r)).update(2, fx_sin(r)).update(
        8,
        fx_neg(fx_sin(r)),
    ).update(10, fx_cos(r))
}

/// The matrix of a right-handed rotation about the z axis by `r` radians.
pub open spec fn rot_z_spec(r: int) -> Seq<int> {
    mat4_identity().update(0, fx_cos(r)).update(1, fx_neg(fx_sin(r))).update(
        4,
        fx_sin(r),
    ).update(5, fx_cos(r))
}

/// The matrix that shears each coordinate by the others.
pub open spec fn shear_spec(xy: int, xz: int, yx: int, yz: int, zx: int, zy: int) -> Seq<int> {
    mat4_identity().update(1, xy).update(2, xz).update(4, yx).update(6, yz).update(
        8,
        zx,
    ).update(9, zy)
}

/// Returns a matrix that translates by the given x, y, and z values.
pub fn translation(x: Fx, y: Fx, z: Fx) -> (r: Matrix4x4)
    ensures
        r@ == translation_spec(x@, y@, z@),
{
    let mut mat = identity();
    mat.write_value(0, 3, x);
    mat.write_value(1, 3, y);
    mat.write_value(2, 3, z);
    mat
}

/// Returns a matrix that scales by the given x, y, and z values.
pub fn scale(x: Fx, y: Fx, z: Fx) -> (r: Matrix4x4)
    ensures
        r@ == scale_spec(x@, y@, z@),
{
    let mut mat = identity();
    mat.write_value(0, 0, x);
    mat.write_value(1, 1, y);
    mat.write_value(2, 2, z);
    mat
}

/// Returns a matrix that rotates around the x axis by the given radians.
pub fn rot_x(r: Fx) -> (m: Matrix4x4)
    ensures
        m@ == rot_x_spec(r@),
{
    let mut mat = identity();
    mat.write_value(1, 1, r.cos());
    mat.write_value(1, 2, r.sin().neg());
    mat.write_value(2, 1, r.sin());
    mat.write_value(2, 2, r.cos());
    mat
}

/// Returns a matrix that rotates around the y axis by the given radians.
pub fn rot_y(r: Fx) -> (m: Matrix4x4)
    ensures
        m@ == rot_y_spec(r@),
{
    let mut mat = identity();
    mat.write_value(0, 0, r.cos());
    mat.write_value(0, 2, r.sin());
    mat.write_value(2, 0, r.sin().neg());
    mat.write_value(2, 2, r.cos());
    mat
}

/// Returns a matrix that rotates around the z axis by the given radians.
pub fn rot_z(r: Fx) -> (m: Matrix4x4)
    ensures
        m@ == rot_z_spec(r@),
{
    let mut mat = identity();
    mat.write_value(0, 0, r.cos());
    mat.write_value(0, 1, r.sin().neg());
    mat.write_value(1, 0, r.sin());
    mat.write_value(1, 1, r.cos());
    mat
}

/// Returns a matrix that shears by the given x, y, and z values.
pub fn shear(xy: Fx, xz: Fx, yx: Fx, yz: Fx, zx: Fx, zy: Fx) -> (m: Matrix4x4)
    ensures
        m@ == shear_spec(xy@, xz@, yx@, yz@, zx@, zy@),
{
    let mut mat = identity();
    mat.write_value(0, 1, xy);
    mat.write_value(0, 2, xz);
    mat.write_value(1, 0, yx);
    mat.write_value(1, 2, yz);
    mat.write_value(2, 0, zx);
    mat.write_value(2, 1, zy);
    mat
}

} // verus!
