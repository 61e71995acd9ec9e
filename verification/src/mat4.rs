//! Column-major 4x4 matrices of fixed-point scalars, and the look-at view
//! transform.
//!
//! `look_at` mirrors the classic right-handed construction: a forward vector
//! `f` toward the target, a side vector `s = normalize(f x up)`, a corrected
//! up vector `u = s x f`, rotation rows from `s`, `u`, `-f`, and a
//! translation column of dot products with the eye point.

use crate::fx::{fits, mul_model, Fixed, SCALE};
use crate::vec3::{bounded3, cross3, dot3, fits3, normalize_model, sub3, Vec3};
use vstd::prelude::*;

verus! {

/// A column of four fixed-point scalars.
#[derive(Clone, Copy, PartialEq, Eq, Structural, Debug)]
pub struct Vec4 {
    pub x: Fixed,
    pub y: Fixed,
    pub z: Fixed,
    pub w: Fixed,
}

impl View for Vec4 {
    type V = (int, int, int, int);

    open spec fn view(&self) -> (int, int, int, int) {
        (self.x@, self.y@, self.z@, self.w@)
    }
}

/// A 4x4 matrix as four columns, as a graphics API consumes it.
#[derive(Clone, Copy, PartialEq, Eq, Structural, Debug)]
pub struct Mat4 {
    pub c0: Vec4,
    pub c1: Vec4,
    pub c2: Vec4,
    pub c3: Vec4,
}

/// The forward vector of the look-at frame: the offset from eye to center,
/// rescaled to unit length.
pub open spec fn look_at_f(eye: (int, int, int), center: (int, int, int)) -> (int, int, int) {
    normalize_model(sub3(center, eye))
}

/// The side vector: the normalized cross product of forward and up.
pub open spec fn look_at_s(
    eye: (int, int, int),
    center: (int, int, int),
    up: (int, int, int),
) -> (int, int, int) {
    normalize_model(cross3(look_at_f(eye, center), up))
}

/// The corrected up vector: side cross forward.
pub open spec fn look_at_u(
    eye: (int, int, int),
    center: (int, int, int),
    up: (int, int, int),
) -> (int, int, int) {
    cross3(look_at_s(eye, center, up), look_at_f(eye, center))
}

/// The machine-width conditions under which the look-at matrix is computed:
/// the eye-to-center offset, the forward/up cross product, the corrected up
/// vector, and the translation dot products all stay in range.
pub open spec fn look_at_fits(
    eye: (int, int, int),
    center: (int, int, int),
    up: (int, int, int),
) -> bool {
    let f = look_at_f(eye, center);
    let s = look_at_s(eye, center, up);
    let u = look_at_u(eye, center, up);
    &&& fits3(sub3(center, eye))
    &&& bounded3(up, SCALE as int)
    &&& fits3(u)
    &&& dot_fits(s, eye)
    &&& dot_fits(u, eye)
    &&& dot_fits(f, eye)
    &&& fits(-dot3(s, eye))
    &&& fits(-dot3(u, eye))
}

/// The partial sums of a fixed-point dot product stay in range.
pub open spec fn dot_fits(a: (int, int, int), b: (int, int, int)) -> bool {
    &&& fits(mul_model(a.0, b.0))
    &&& fits(mul_model(a.1, b.1))
    &&& fits(mul_model(a.2, b.2))
    &&& fits(mul_model(a.0, b.0) + mul_model(a.1, b.1))
    &&& fits(dot3(a, b))
}

/// The right-handed look-at view matrix, mirroring the standard
/// construction used by 3D math libraries.
pub fn look_at(eye: Vec3, center: Vec3, up: Vec3) -> (r: Mat4)
    requires
        look_at_fits(eye@, center@, up@),
    ensures
        r.c0@ == (
            look_at_s(eye@, center@, up@).0,
            look_at_u(eye@, center@, up@).0,
            -look_at_f(eye@, center@).0,
            0int,
        ),
        r.c1@ == (
            look_at_s(eye@, center@, up@).1,
            look_at_u(eye@, center@, up@).1,
            -look_at_f(eye@, center@).1,
            0int,
        ),
        r.c2@ == (
            look_at_s(eye@, center@, up@).2,
            look_at_u(eye@, center@, up@).2,
            -look_at_f(eye@, center@).2,
            0int,
        ),
        r.c3@ == (
            -dot3(look_at_s(eye@, center@, up@), eye@),
            -dot3(look_at_u(eye@, center@, up@), eye@),
            dot3(look_at_f(eye@, center@), eye@),
            SCALE as int,
        ),
{
    let f = center.sub(eye).normalize();
    proof {
        lemma_unit_cross_fits(f@, up@);
    }
    let s = f.cross(up).normalize();
    proof {
        lemma_unit_cross_fits(s@, f@);
    }
    let u = s.cross(f);
    let one = Fixed { raw: SCALE };
    Mat4 {
        c0: Vec4 { x: s.x, y: u.x, z: f.x.neg(), w: Fixed::zero() },
        c1: Vec4 { x: s.y, y: u.y, z: f.y.neg(), w: Fixed::zero() },
        c2: Vec4 { x: s.z, y: u.z, z: f.z.neg(), w: Fixed::zero() },
        c3: Vec4 {
            x: s.dot(eye).neg(),
            y: u.dot(eye).neg(),
            z: f.dot(eye),
            w: one,
        },
    }
}

/// A cross product of vectors bounded by one unit stays in range, each
/// product term within one unit and each component within two.
pub proof fn lemma_unit_cross_fits(a: (int, int, int), b: (int, int, int))
    requires
        bounded3(a, SCALE as int),
        bounded3(b, SCALE as int),
    ensures
        fits(mul_model(a.1, b.2)),
        fits(mul_model(a.2, b.1)),
        fits(mul_model(a.2, b.0)),
        fits(mul_model(a.0, b.2)),
        fits(mul_model(a.0, b.1)),
        fits(mul_model(a.1, b.0)),
        fits3(cross3(a, b)),
        bounded3(cross3(a, b), 2 * SCALE as int),
{
    let s = SCALE as int;
    crate::fx::lemma_mul_model_bound(a.1, b.2, s, s);
    crate::fx::lemma_mul_model_bound(a.2, b.1, s, s);
    crate::fx::lemma_mul_model_bound(a.2, b.0, s, s);
    crate::fx::lemma_mul_model_bound(a.0, b.2, s, s);
    crate::fx::lemma_mul_model_bound(a.0, b.1, s, s);
    crate::fx::lemma_mul_model_bound(a.1, b.0, s, s);
    assert(crate::fx::div_trunc(s * s, s) == s) by {
        vstd::arithmetic::div_mod::lemma_div_multiples_vanish(s, s);
    }
}

} // verus!
