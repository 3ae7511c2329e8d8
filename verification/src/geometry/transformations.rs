//! Constructors for the affine transform matrices: translation, scaling,
//! rotation about each axis, shearing, and the camera's view transform.

use crate::fixed::{clip, fcos, fneg, fsin, in_range, sat_neg, spec_cos, spec_sin, SCALE};
use crate::geometry::matrix::{spec_cell_k, Matrix};
use crate::geometry::point::{spec_sub_pp, Point};
use crate::geometry::vector::{spec_cross, spec_normalize, Vector};
use vstd::prelude::*;

verus! {

/// The entries of a translation matrix, row-major.
pub open spec fn translation_vals(x: int, y: int, z: int) -> Seq<int> {
    seq![
        SCALE as int,
        0,
        0,
        clip(x),
        0,
        SCALE as int,
        0,
        clip(y),
        0,
        0,
        SCALE as int,
        clip(z),
        0,
        0,
        0,
        SCALE as int,
    ]
}

/// The entries of a scaling matrix, row-major.
pub open spec fn scaling_vals(x: int, y: int, z: int) -> Seq<int> {
    seq![
        clip(x),
        0,
        0,
        0,
        0,
        clip(y),
        0,
        0,
        0,
        0,
        clip(z),
        0,
        0,
        0,
        0,
        SCALE as int,
    ]
}

/// The entries of a rotation about the x-axis, row-major.
pub open spec fn rotation_x_vals(r: int) -> Seq<int> {
    seq![
        SCALE as int,
        0,
        0,
        0,
        0,
        spec_cos(r),
        sat_neg(spec_sin(r)),
        0,
        0,
        spec_sin(r),
        spec_cos(r),
        0,
        0,
        0,
        0,
        SCALE as int,
    ]
}

/// The entries of a rotation about the y-axis, row-major.
pub open spec fn rotation_y_vals(r: int) -> Seq<int> {
    seq![
        spec_cos(r),
        0,
        spec_sin(r),
        0,
        0,
        SCALE as int,
        0,
        0,
        sat_neg(spec_sin(r)),
        0,
        spec_cos(r),
        0,
        0,
        0,
        0,
        SCALE as int,
    ]
}

/// The entries of a rotation about the z-axis, row-major.
pub open spec fn rotation_z_vals(r: int) -> Seq<int> {
    seq![
        spec_cos(r),
        sat_neg(spec_sin(r)),
        0,
        0,
        spec_sin(r),
        spec_cos(r),
        0,
        0,
        0,
        0,
        SCALE as int,
        0,
        0,
        0,
        0,
        SCALE as int,
    ]
}

/// The entries of a shearing matrix, row-major.
pub open spec fn shearing_vals(xy: int, xz: int, yx: int, yz: int, zx: int, zy: int) -> Seq<
    int,
> {
    seq![
        SCALE as int,
        clip(xy),
        clip(xz),
        0,
        clip(yx),
        SCALE as int,
        clip(yz),
        0,
        clip(zx),
        clip(zy),
        SCALE as int,
        0,
        0,
        0,
        0,
        SCALE as int,
    ]
}

/// The orientation part of the view transform: rows built from the left,
/// true-up and negated forward vectors.
pub open spec fn view_orientation_vals(from: Point, to: Point, up: Vector) -> Seq<int> {
    let forward = spec_normalize(spec_sub_pp(to, from));
    let upn = spec_normalize(up);
    let left = spec_cross(forward, upn);
    let true_up = spec_cross(left, forward);
    seq![
        left.x as int,
        left.y as int,
        left.z as int,
        0,
        true_up.x as int,
        true_up.y as int,
        true_up.z as int,
        0,
        sat_neg(forward.x as int),
        sat_neg(forward.y as int),
        sat_neg(forward.z as int),
        0,
        0,
        0,
        0,
        SCALE as int,
    ]
}

/// The full view transform: the orientation times the translation that
/// moves the eye to the origin.
pub open spec fn view_transform_vals(from: Point, to: Point, up: Vector) -> Seq<int> {
    Seq::new(
        16,
        |k: int|
            spec_cell_k(
                4,
                view_orientation_vals(from, to, up),
                4,
                translation_vals(-(from.x as int), -(from.y as int), -(from.z as int)),
                k / 4,
                k % 4,
                4,
            ),
    )
}

/// A transformation matrix that shifts by the supplied x, y and z amounts.
pub fn translation(x: i128, y: i128, z: i128) -> (r: Matrix)
    ensures
        r.is4x4(),
        r.wf(),
        r.vals() =~= translation_vals(x as int, y as int, z as int),
{
    let mut v: Vec<i128> = Vec::new();
    v.push(SCALE);
    v.push(0);
    v.push(0);
    v.push(x);
    v.push(0);
    v.push(SCALE);
    v.push(0);
    v.push(y);
    v.push(0);
    v.push(0);
    v.push(SCALE);
    v.push(z);
    v.push(0);
    v.push(0);
    v.push(0);
    v.push(SCALE);
    Matrix::square(4).of(v)
}

/// A transformation that grows or shrinks an object.
pub fn scaling(x: i128, y: i128, z: i128) -> (r: Matrix)
    ensures
        r.is4x4(),
        r.wf(),
        r.vals() =~= scaling_vals(x as int, y as int, z as int),
{
    let mut v: Vec<i128> = Vec::new();
    v.push(x);
    v.push(0);
    v.push(0);
    v.push(0);
    v.push(0);
    v.push(y);
    v.push(0);
    v.push(0);
    v.push(0);
    v.push(0);
    v.push(z);
    v.push(0);
    v.push(0);
    v.push(0);
    v.push(0);
    v.push(SCALE);
    Matrix::square(4).of(v)
}

/// Rotation around the x-axis, by an angle in radian units.
pub fn rotation_x(radians: i128) -> (r: Matrix)
    requires
        in_range(radians as int),
    ensures
        r.is4x4(),
        r.wf(),
        r.vals() =~= rotation_x_vals(radians as int),
{
    let c = fcos(radians);
    let s = fsin(radians);
    let mut v: Vec<i128> = Vec::new();
    v.push(SCALE);
    v.push(0);
    v.push(0);
    v.push(0);
    v.push(0);
    v.push(c);
    v.push(fneg(s));
    v.push(0);
    v.push(0);
    v.push(s);
    v.push(c);
    v.push(0);
    v.push(0);
    v.push(0);
    v.push(0);
    v.push(SCALE);
    Matrix::square(4).of(v)
}

/// Rotation around the y-axis, by an angle in radian units.
pub fn rotation_y(radians: i128) -> (r: Matrix)
    requires
        in_range(radians as int),
    ensures
        r.is4x4(),
        r.wf(),
        r.vals() =~= rotation_y_vals(radians as int),
{
    let c = fcos(radians);
    let s = fsin(radians);
    let mut v: Vec<i128> = Vec::new();
    v.push(c);
    v.push(0);
    v.push(s);
    v.push(0);
    v.push(0);
    v.push(SCALE);
    v.push(0);
    v.push(0);
    v.push(fneg(s));
    v.push(0);
    v.push(c);
    v.push(0);
    v.push(0);
    v.push(0);
    v.push(0);
    v.push(SCALE);
    Matrix::square(4).of(v)
}

/// Rotation around the z-axis, by an angle in radian units.
pub fn rotation_z(radians: i128) -> (r: Matrix)
    requires
        in_range(radians as int),
    ensures
        r.is4x4(),
        r.wf(),
        r.vals() =~= rotation_z_vals(radians as int),
{
    let c = fcos(radians);
    let s = fsin(radians);
    let mut v: Vec<i128> = Vec::new();
    v.push(c);
    v.push(fneg(s));
    v.push(0);
    v.push(0);
    v.push(s);
    v.push(c);
    v.push(0);
    v.push(0);
    v.push(0);
    v.push(0);
    v.push(SCALE);
    v.push(0);
    v.push(0);
    v.push(0);
    v.push(0);
    v.push(SCALE);
    Matrix::square(4).of(v)
}

/// A transformation that slants each coordinate in proportion to the others.
pub fn shearing(xy: i128, xz: i128, yx: i128, yz: i128, zx: i128, zy: i128) -> (r: Matrix)
    ensures
        r.is4x4(),
        r.wf(),
        r.vals() =~= shearing_vals(
            xy as int,
            xz as int,
            yx as int,
            yz as int,
            zx as int,
            zy as int,
        ),
{
    let mut v: Vec<i128> = Vec::new();
    v.push(SCALE);
    v.push(xy);
    v.push(xz);
    v.push(0);
    v.push(yx);
    v.push(SCALE);
    v.push(yz);
    v.push(0);
    v.push(zx);
    v.push(zy);
    v.push(SCALE);
    v.push(0);
    v.push(0);
    v.push(0);
    v.push(0);
    v.push(SCALE);
    Matrix::square(4).of(v)
}

/// The point of view looking from `from` toward `to`, with `up` fixing the
/// upward direction.
pub fn view_transform(from: Point, to: Point, up: Vector) -> (r: Matrix)
    requires
        from.wf(),
        to.wf(),
        up.wf(),
    ensures
        r.is4x4(),
        r.wf(),
        r.vals() =~= view_transform_vals(from, to, up),
{
    let forward = to.minus_point(from).normalize();
    let normalized_up = up.normalize();
    let left = forward.cross(normalized_up);
    let true_up = left.cross(forward);
    let mut v: Vec<i128> = Vec::new();
    v.push(left.x);
    v.push(left.y);
    v.push(left.z);
    v.push(0);
    v.push(true_up.x);
    v.push(true_up.y);
    v.push(true_up.z);
    v.push(0);
    v.push(fneg(forward.x));
    v.push(fneg(forward.y));
    v.push(fneg(forward.z));
    v.push(0);
    v.push(0);
    v.push(0);
    v.push(0);
    v.push(SCALE);
    let orientation = Matrix::square(4).of(v);
    proof {
        assert(orientation.vals() =~= view_orientation_vals(from, to, up));
    }
    let shift = translation(fneg(from.x), fneg(from.y), fneg(from.z));
    let out = orientation.times(&shift);
    proof {
        assert(translation_vals(sat_neg(from.x as int), sat_neg(from.y as int), sat_neg(from.z as int))
            =~= translation_vals(-(from.x as int), -(from.y as int), -(from.z as int)));
        assert forall|k: int| 0 <= k < 16 implies out.vals()[k] == view_transform_vals(
            from,
            to,
            up,
        )[k] by {
            crate::geometry::matrix::lemma_grid_coords(k, 4);
            let i = k / 4;
            let j = k % 4;
            assert(i < 4) by (nonlinear_arith)
                requires
                    k < 16,
                    i * 4 + j == k,
                    0 <= j < 4,
                    0 <= i,
            ;
            assert(out.val(i, j) == out.vals()[i * 4 + j]);
        }
        assert(out.vals() =~= view_transform_vals(from, to, up));
    }
    out
}

} // verus!
