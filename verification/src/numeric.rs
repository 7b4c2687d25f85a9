//! The bridge between the engine's bit-pattern scalars and the outside
//! floating-point libraries.
//!
//! Everywhere else in this crate a scalar is the IEEE-754 single-precision
//! bit pattern of a geometry component, held in a `u32`; a vector is three
//! such scalars and a transform is sixteen (a 4x4 matrix in column-major
//! order). The functions in this module are the only places where those bit
//! patterns meet actual floating-point arithmetic: each one hands its
//! arguments to `glam` or to the standard library and returns the resulting
//! bit patterns. Where the computation is built from exactly-rounded
//! operations alone (parsing, square root, division, multiplication,
//! addition), the result is a function of the arguments alone and is named
//! by an uninterpreted spec function. The one exception is the transform
//! composition: its rotation passes through the platform's `sin`/`cos`,
//! whose bit patterns the standard library leaves open, so no name asserts
//! determinism for it — its contract states only what glam's source fixes
//! outright (the translation column).

use vstd::prelude::*;

verus! {

/// The bit pattern of the 32-bit float that a numeric token parses to, or
/// `None` when the token is not valid float text.
pub uninterp spec fn scalar_of_token(t: Seq<u8>) -> Option<u32>;

/// The unit-length vector obtained by normalizing `v`.
pub uninterp spec fn unit_of(v: [u32; 3]) -> [u32; 3];

/// The normalized cross product of the edge vectors `a - b` and `a - c`:
/// the face normal of the triangle with corner positions `a`, `b`, `c`.
pub uninterp spec fn face_normal_of(a: [u32; 3], b: [u32; 3], c: [u32; 3]) -> [u32; 3];

/// Relies on `str::parse` for 32-bit floats (via `core::str::from_utf8`):
/// the parse fails exactly on text outside the standard float grammar, and
/// the parsed value depends on the token alone. `glam::Vec3A::splat`
/// followed by `to_array` carries the parsed value through unchanged; it
/// only pins down which float width `parse` uses.
#[verifier::external_body]
pub(crate) fn parse_scalar_bits(t: &Vec<u8>) -> (r: Option<u32>)
    ensures
        r == scalar_of_token(t@),
{
    match core::str::from_utf8(t) {
        Ok(s) => match s.parse() {
            Ok(v) => Some(glam::Vec3A::splat(v).to_array()[0].to_bits()),
            Err(_) => None,
        },
        Err(_) => None,
    }
}

/// Relies on `glam::Vec3A::normalize`; `bytemuck::cast` moves the bit
/// patterns in and out unchanged.
#[verifier::external_body]
pub(crate) fn normalize_vector(v: [u32; 3]) -> (r: [u32; 3])
    ensures
        r == unit_of(v),
{
    let gv = glam::Vec3A::from_array(bytemuck::cast(v));
    bytemuck::cast(gv.normalize().to_array())
}

/// Relies on `glam::Vec3A`'s subtraction, `cross` and `normalize` for the
/// computed face normal of a triangle; `bytemuck::cast` moves the bit
/// patterns in and out unchanged.
#[verifier::external_body]
pub(crate) fn normal_from_points(a: [u32; 3], b: [u32; 3], c: [u32; 3]) -> (r: [u32; 3])
    ensures
        r == face_normal_of(a, b, c),
{
    let pa = glam::Vec3A::from_array(bytemuck::cast(a));
    let pb = glam::Vec3A::from_array(bytemuck::cast(b));
    let pc = glam::Vec3A::from_array(bytemuck::cast(c));
    bytemuck::cast((pa - pb).cross(pa - pc).normalize().to_array())
}

/// Relies on `glam::Quat::from_euler` and
/// `glam::Mat4::from_scale_rotation_translation` to compose an instance
/// transform; `bytemuck::cast` moves the bit patterns in and out unchanged.
/// The rotation goes through the platform's `sin`/`cos`, so the rotation
/// and scale part of the result is left unconstrained; glam's source fixes
/// the fourth (translation) column outright: the translation components
/// unchanged, then the literal 1.0.
#[verifier::external_body]
pub(crate) fn compose_transform(pos: [u32; 3], rot: [u32; 3], scale: [u32; 3]) -> (r: [u32; 16])
    ensures
        r[12] == pos[0],
        r[13] == pos[1],
        r[14] == pos[2],
        r[15] == crate::material::ONE_BITS,
{
    let pv = glam::Vec3::from_array(bytemuck::cast(pos));
    let rv = glam::Vec3::from_array(bytemuck::cast(rot));
    let sv = glam::Vec3::from_array(bytemuck::cast(scale));
    let quat = glam::Quat::from_euler(glam::EulerRot::XYZ, rv.x, rv.y, rv.z);
    bytemuck::cast(glam::Mat4::from_scale_rotation_translation(sv, quat, pv).to_cols_array())
}

} // verus!
