//! The free-fly camera.
//!
//! The camera owns a position, an orthonormal front/right/up basis derived
//! from yaw and pitch (Euler angles in degrees), a fixed world-up reference,
//! and speed, sensitivity and zoom settings.  Keyboard input translates the
//! position along a basis vector, mouse motion turns the angles and rebuilds
//! the basis, and the scroll wheel drives the zoom within its bounds.

use crate::fx::{fits, mul_model, Fixed, SCALE};
use crate::mat4::{dot_fits, look_at, look_at_f, look_at_fits, look_at_s, look_at_u, Mat4};
use crate::trig::{cos_deg, cos_model, sin_deg, sin_model};
use crate::vec3::{
    add3, bounded3, cross3, cross_exact, dot3, dot_exact, fits3, is_sqrt_floor, neg3, norm_sq3,
    normalize_model, scale3, scale_exact, sub3, Vec3,
};
use vstd::prelude::*;

verus! {

/// Discrete movement directions, an abstraction over window-system input.
#[allow(non_camel_case_types)]
#[derive(Clone, Copy, PartialEq, Eq, Structural, Debug)]
pub enum CameraMovement {
    FORWARD,
    BACKWARD,
    LEFT,
    RIGHT,
    UP,
    DOWN,
}

/// Default yaw: a quarter turn to the left, looking down the negative z
/// axis.
pub const YAW: i64 = -90_000_000;

/// Default pitch: level.
pub const PITCH: i64 = 0;

/// Default movement speed, units per second.
pub const SPEED: i64 = 2_500_000;

/// Default mouse sensitivity, degrees per pixel.
pub const SENSITIVITY: i64 = 100_000;

/// Default zoom (vertical field of view), degrees.
pub const ZOOM: i64 = 45_000_000;

/// The pitch bound applied when the caller asks for constrained pitch.
pub const PITCH_LIMIT: i64 = 89_000_000;

/// The smallest zoom angle.
pub const ZOOM_MIN: i64 = 1_000_000;

/// The largest zoom angle.
pub const ZOOM_MAX: i64 = 45_000_000;

/// The largest position coordinate (in raw units) for which the view
/// matrix is computed; it keeps every dot product in the translation column
/// within machine range.
pub const COORD_LIMIT: i64 = 1_000_000_000_000_000_000;

/// Clamping to a closed interval.
pub open spec fn clamp_model(x: int, lo: int, hi: int) -> int {
    if x < lo {
        lo
    } else if x > hi {
        hi
    } else {
        x
    }
}

/// The front direction before normalization, from yaw and pitch in degrees:
/// the spherical-coordinate formula over the fixed-point trig
/// approximations.
pub open spec fn front_target(yaw: int, pitch: int) -> (int, int, int) {
    (
        mul_model(cos_model(yaw), cos_model(pitch)),
        sin_model(pitch),
        mul_model(sin_model(yaw), cos_model(pitch)),
    )
}

/// A free-fly camera.
#[derive(Clone, Copy, PartialEq, Eq, Structural, Debug)]
pub struct Camera {
    pub position: Vec3,
    pub front: Vec3,
    pub up: Vec3,
    pub right: Vec3,
    pub world_up: Vec3,
    pub yaw: Fixed,
    pub pitch: Fixed,
    pub movement_speed: Fixed,
    pub mouse_sensitivity: Fixed,
    pub zoom: Fixed,
}

/// The signed velocity applied by one keyboard step.
pub open spec fn velocity_model(cam: Camera, delta_time: int) -> int {
    mul_model(cam.movement_speed@, delta_time)
}

/// The position after one keyboard step: the current position translated
/// along the basis vector that the direction selects, scaled by the
/// velocity (descending is an ascent along the negated up vector).
pub open spec fn keyboard_move_model(
    cam: Camera,
    direction: CameraMovement,
    delta_time: int,
) -> (int, int, int) {
    let v = velocity_model(cam, delta_time);
    match direction {
        CameraMovement::FORWARD => add3(cam.position@, scale3(cam.front@, v)),
        CameraMovement::BACKWARD => sub3(cam.position@, scale3(cam.front@, v)),
        CameraMovement::LEFT => sub3(cam.position@, scale3(cam.right@, v)),
        CameraMovement::RIGHT => add3(cam.position@, scale3(cam.right@, v)),
        CameraMovement::UP => add3(cam.position@, scale3(cam.up@, v)),
        CameraMovement::DOWN => add3(cam.position@, scale3(neg3(cam.up@), v)),
    }
}

/// The machine-width conditions for one keyboard step: the velocity, the
/// componentwise products and the translated position all stay in range.
pub open spec fn keyboard_move_fits(
    cam: Camera,
    direction: CameraMovement,
    delta_time: int,
) -> bool {
    let v = velocity_model(cam, delta_time);
    &&& fits(v)
    &&& match direction {
        CameraMovement::FORWARD | CameraMovement::BACKWARD => fits3(scale3(cam.front@, v)),
        CameraMovement::LEFT | CameraMovement::RIGHT => fits3(scale3(cam.right@, v)),
        CameraMovement::UP => fits3(scale3(cam.up@, v)),
        CameraMovement::DOWN => fits3(neg3(cam.up@)) && fits3(scale3(neg3(cam.up@), v)),
    }
    &&& fits3(keyboard_move_model(cam, direction, delta_time))
}

impl Camera {
    /// The fixed world-up reference: one unit along positive y.
    pub open spec fn world_up_is_reference(self) -> bool {
        self.world_up@ == (0int, SCALE as int, 0int)
    }

    /// The basis vectors never exceed one unit per component.
    pub open spec fn basis_bounded(self) -> bool {
        &&& bounded3(self.front@, SCALE as int)
        &&& bounded3(self.right@, SCALE as int)
        &&& bounded3(self.up@, SCALE as int)
    }

    /// Well-formedness: the world-up reference is in place and the basis is
    /// bounded.  `new` establishes it and every method preserves it.
    pub open spec fn wf(self) -> bool {
        self.world_up_is_reference() && self.basis_bounded()
    }

    /// A camera at the origin with the default orientation: looking down
    /// the negative z axis, level, with default speed, sensitivity and
    /// zoom.  The derived basis is exactly the world frame.
    pub fn new() -> (r: Camera)
        ensures
            r.position@ == (0int, 0int, 0int),
            r.world_up@ == (0int, SCALE as int, 0int),
            r.yaw@ == YAW as int,
            r.pitch@ == PITCH as int,
            r.movement_speed@ == SPEED as int,
            r.mouse_sensitivity@ == SENSITIVITY as int,
            r.zoom@ == ZOOM as int,
            r.front@ == (0int, 0int, -(SCALE as int)),
            r.right@ == (SCALE as int, 0int, 0int),
            r.up@ == (0int, SCALE as int, 0int),
            r.wf(),
    {
        let mut cam = Camera {
            front: Vec3 {
                x: Fixed::zero(),
                y: Fixed::zero(),
                z: Fixed::from_raw(-SCALE),
            },
            movement_speed: Fixed::from_raw(SPEED),
            mouse_sensitivity: Fixed::from_raw(SENSITIVITY),
            zoom: Fixed::from_raw(ZOOM),
            right: Vec3::zero(),
            up: Vec3::zero(),
            position: Vec3::zero(),
            world_up: Vec3 {
                x: Fixed::zero(),
                y: Fixed::from_raw(SCALE),
                z: Fixed::zero(),
            },
            yaw: Fixed::from_raw(YAW),
            pitch: Fixed::from_raw(PITCH),
        };
        cam.update_camera_vectors();
        proof {
            lemma_default_orientation_basis();
        }
        cam
    }

    /// The view matrix: the right-handed look-at transform from the
    /// position toward the point one front vector ahead, with the camera's
    /// own up vector.
    pub fn get_view_matrix(&self) -> (r: Mat4)
        requires
            self.wf(),
            bounded3(self.position@, COORD_LIMIT as int),
        ensures
            ({
                let eye = self.position@;
                let center = add3(self.position@, self.front@);
                let up = self.up@;
                &&& r.c0@ == (
                    look_at_s(eye, center, up).0,
                    look_at_u(eye, center, up).0,
                    -look_at_f(eye, center).0,
                    0int,
                )
                &&& r.c1@ == (
                    look_at_s(eye, center, up).1,
                    look_at_u(eye, center, up).1,
                    -look_at_f(eye, center).1,
                    0int,
                )
                &&& r.c2@ == (
                    look_at_s(eye, center, up).2,
                    look_at_u(eye, center, up).2,
                    -look_at_f(eye, center).2,
                    0int,
                )
                &&& r.c3@ == (
                    -dot3(look_at_s(eye, center, up), eye),
                    -dot3(look_at_u(eye, center, up), eye),
                    dot3(look_at_f(eye, center), eye),
                    SCALE as int,
                )
            }),
    {
        proof {
            lemma_view_matrix_fits(*self);
        }
        let center = self.position.add(self.front);
        look_at(self.position, center, self.up)
    }

    /// One keyboard step: translate the position along the selected basis
    /// vector by `movement_speed * delta_time`.  Orientation and settings
    /// are untouched.
    pub fn process_keyboard(&mut self, direction: CameraMovement, delta_time: Fixed)
        requires
            keyboard_move_fits(*old(self), direction, delta_time@),
        ensures
            final(self).position@ == keyboard_move_model(*old(self), direction, delta_time@),
            final(self).front == old(self).front,
            final(self).up == old(self).up,
            final(self).right == old(self).right,
            final(self).world_up == old(self).world_up,
            final(self).yaw == old(self).yaw,
            final(self).pitch == old(self).pitch,
            final(self).movement_speed == old(self).movement_speed,
            final(self).mouse_sensitivity == old(self).mouse_sensitivity,
            final(self).zoom == old(self).zoom,
    {
        let velocity = self.movement_speed.mul(delta_time);
        match direction {
            CameraMovement::FORWARD => {
                self.position = self.position.add(self.front.scale(velocity));
            },
            CameraMovement::BACKWARD => {
                self.position = self.position.sub(self.front.scale(velocity));
            },
            CameraMovement::LEFT => {
                self.position = self.position.sub(self.right.scale(velocity));
            },
            CameraMovement::RIGHT => {
                self.position = self.position.add(self.right.scale(velocity));
            },
            CameraMovement::UP => {
                self.position = self.position.add(self.up.scale(velocity));
            },
            CameraMovement::DOWN => {
                self.position = self.position.add(self.up.neg().scale(velocity));
            },
        }
    }

    /// One mouse-motion step: scale both offsets by the sensitivity, turn
    /// yaw by the first and pitch by the second, clamp the pitch when the
    /// caller asks for it, and rebuild the basis.  With `constrain_pitch`
    /// the pitch never leaves the clamp interval, whatever the offsets.
    pub fn process_mouse_movement(&mut self, xoffset: Fixed, yoffset: Fixed, constrain_pitch: bool)
        requires
            old(self).world_up_is_reference(),
            fits(mul_model(old(self).mouse_sensitivity@, xoffset@)),
            fits(mul_model(old(self).mouse_sensitivity@, yoffset@)),
            fits(old(self).yaw@ + mul_model(old(self).mouse_sensitivity@, xoffset@)),
            fits(old(self).pitch@ + mul_model(old(self).mouse_sensitivity@, yoffset@)),
        ensures
            final(self).yaw@ == old(self).yaw@ + mul_model(old(self).mouse_sensitivity@, xoffset@),
            final(self).pitch@ == ({
                let raw = old(self).pitch@ + mul_model(old(self).mouse_sensitivity@, yoffset@);
                if constrain_pitch {
                    clamp_model(raw, -PITCH_LIMIT as int, PITCH_LIMIT as int)
                } else {
                    raw
                }
            }),
            constrain_pitch ==> -PITCH_LIMIT as int <= final(self).pitch@ <= PITCH_LIMIT as int,
            final(self).front@ == normalize_model(
                front_target(final(self).yaw@, final(self).pitch@),
            ),
            final(self).right@ == normalize_model(cross3(final(self).front@, old(self).world_up@)),
            final(self).up@ == normalize_model(cross3(final(self).right@, final(self).front@)),
            final(self).wf(),
            final(self).position == old(self).position,
            final(self).world_up == old(self).world_up,
            final(self).movement_speed == old(self).movement_speed,
            final(self).mouse_sensitivity == old(self).mouse_sensitivity,
            final(self).zoom == old(self).zoom,
    {
        let xscaled = self.mouse_sensitivity.mul(xoffset);
        let yscaled = self.mouse_sensitivity.mul(yoffset);

        self.yaw = self.yaw.add(xscaled);
        self.pitch = self.pitch.add(yscaled);

        if constrain_pitch {
            if self.pitch.raw > PITCH_LIMIT {
                self.pitch = Fixed { raw: PITCH_LIMIT };
            }
            if self.pitch.raw < -PITCH_LIMIT {
                self.pitch = Fixed { raw: -PITCH_LIMIT };
            }
        }

        self.update_camera_vectors();
    }

    /// One scroll step: lower the zoom by the wheel offset and clamp it to
    /// its interval.  The zoom therefore never leaves the interval, however
    /// often and however far the wheel turns.
    pub fn process_mouse_scroll(&mut self, yoffset: Fixed)
        requires
            fits(old(self).zoom@ - yoffset@),
        ensures
            final(self).zoom@ == clamp_model(
                old(self).zoom@ - yoffset@,
                ZOOM_MIN as int,
                ZOOM_MAX as int,
            ),
            ZOOM_MIN as int <= final(self).zoom@ <= ZOOM_MAX as int,
            final(self).position == old(self).position,
            final(self).front == old(self).front,
            final(self).up == old(self).up,
            final(self).right == old(self).right,
            final(self).world_up == old(self).world_up,
            final(self).yaw == old(self).yaw,
            final(self).pitch == old(self).pitch,
            final(self).movement_speed == old(self).movement_speed,
            final(self).mouse_sensitivity == old(self).mouse_sensitivity,
    {
        self.zoom = self.zoom.sub(yoffset);
        if self.zoom.raw < ZOOM_MIN {
            self.zoom = Fixed { raw: ZOOM_MIN };
        }
        if self.zoom.raw > ZOOM_MAX {
            self.zoom = Fixed { raw: ZOOM_MAX };
        }
    }

    /// Rebuild the front, right and up vectors from the current yaw and
    /// pitch: front from the spherical formula, right as the normalized
    /// cross product of front and world up, up as the normalized cross
    /// product of right and front.
    fn update_camera_vectors(&mut self)
        requires
            old(self).world_up_is_reference(),
        ensures
            final(self).front@ == normalize_model(front_target(old(self).yaw@, old(self).pitch@)),
            final(self).right@ == normalize_model(cross3(final(self).front@, old(self).world_up@)),
            final(self).up@ == normalize_model(cross3(final(self).right@, final(self).front@)),
            final(self).basis_bounded(),
            final(self).position == old(self).position,
            final(self).world_up == old(self).world_up,
            final(self).yaw == old(self).yaw,
            final(self).pitch == old(self).pitch,
            final(self).movement_speed == old(self).movement_speed,
            final(self).mouse_sensitivity == old(self).mouse_sensitivity,
            final(self).zoom == old(self).zoom,
    {
        let cy = cos_deg(self.yaw);
        let sy = sin_deg(self.yaw);
        let cp = cos_deg(self.pitch);
        let sp = sin_deg(self.pitch);
        proof {
            crate::fx::lemma_mul_model_bound(cy@, cp@, SCALE as int, SCALE as int);
            crate::fx::lemma_mul_model_bound(sy@, cp@, SCALE as int, SCALE as int);
            assert(crate::fx::div_trunc((SCALE as int) * (SCALE as int), SCALE as int)
                == SCALE as int) by {
                vstd::arithmetic::div_mod::lemma_div_multiples_vanish(SCALE as int, SCALE as int);
            }
        }
        let front = Vec3 { x: cy.mul(cp), y: sp, z: sy.mul(cp) };
        self.front = front.normalize();
        proof {
            crate::mat4::lemma_unit_cross_fits(self.front@, self.world_up@);
        }
        self.right = self.front.cross(self.world_up).normalize();
        proof {
            crate::mat4::lemma_unit_cross_fits(self.right@, self.front@);
        }
        self.up = self.right.cross(self.front).normalize();
    }
}

/// The front vector of an ideal basis: the spherical formula over exact
/// cosine/sine pairs `(cy, sy)` for yaw and `(cp, sp)` for pitch at scale
/// `s`, every component scaled by `s * s`.
pub open spec fn ideal_front(cy: int, sy: int, cp: int, sp: int, s: int) -> (int, int, int) {
    (cy * cp, sp * s, sy * cp)
}

/// The right vector of an ideal basis: the normalized cross product of the
/// front vector and the world up, scaled by `s * s`.
pub open spec fn ideal_right(cy: int, sy: int, s: int) -> (int, int, int) {
    (-(sy * s), 0, cy * s)
}

/// The up vector of an ideal basis: the cross product of right and front,
/// rescaled to `s * s`.
pub open spec fn ideal_up(cy: int, sy: int, cp: int, sp: int, s: int) -> (int, int, int) {
    (-(cy * sp), cp * s, -(sy * sp))
}

/// For every yaw and every pitch — any exact cosine/sine pairs on the
/// circle of radius `s` — the derived front, right and up vectors are
/// pairwise orthogonal and each has squared length `s^4`, that is, unit
/// length at the common scale `s^2`.  The last two conclusions tie the
/// vectors to their construction: the cross product of front and world up
/// is the right vector weighted by the pitch cosine (a positive weight
/// whenever the pitch stays strictly between -90 and 90 degrees, so
/// normalizing it yields the right vector), and the cross product of right
/// and front is the up vector at scale `s^2`.
#[verifier::rlimit(100)]
pub proof fn lemma_basis_orthonormal(cy: int, sy: int, cp: int, sp: int, s: int)
    requires
        cy * cy + sy * sy == s * s,
        cp * cp + sp * sp == s * s,
    ensures
        dot_exact(ideal_front(cy, sy, cp, sp, s), ideal_right(cy, sy, s)) == 0,
        dot_exact(ideal_front(cy, sy, cp, sp, s), ideal_up(cy, sy, cp, sp, s)) == 0,
        dot_exact(ideal_right(cy, sy, s), ideal_up(cy, sy, cp, sp, s)) == 0,
        dot_exact(ideal_front(cy, sy, cp, sp, s), ideal_front(cy, sy, cp, sp, s)) == s * s * s
            * s,
        dot_exact(ideal_right(cy, sy, s), ideal_right(cy, sy, s)) == s * s * s * s,
        dot_exact(ideal_up(cy, sy, cp, sp, s), ideal_up(cy, sy, cp, sp, s)) == s * s * s * s,
        cross_exact(ideal_front(cy, sy, cp, sp, s), (0int, s, 0int)) == scale_exact(
            ideal_right(cy, sy, s),
            cp,
        ),
        cross_exact(ideal_right(cy, sy, s), ideal_front(cy, sy, cp, sp, s)) == scale_exact(
            ideal_up(cy, sy, cp, sp, s),
            s * s,
        ),
{
    assert((cy * cp) * (-(sy * s)) + (sp * s) * 0 + (sy * cp) * (cy * s) == 0)
        by (nonlinear_arith);
    assert((cy * cp) * (-(cy * sp)) == -((cp * sp) * (cy * cy))) by (nonlinear_arith);
    assert((sp * s) * (cp * s) == (cp * sp) * (s * s)) by (nonlinear_arith);
    assert((sy * cp) * (-(sy * sp)) == -((cp * sp) * (sy * sy))) by (nonlinear_arith);
    assert((cp * sp) * (cy * cy) + (cp * sp) * (sy * sy) == (cp * sp) * (cy * cy + sy * sy))
        by (nonlinear_arith);
    assert((cp * sp) * (cy * cy + sy * sy) == (cp * sp) * (s * s));
    assert((-(sy * s)) * (-(cy * sp)) + 0 * (cp * s) + (cy * s) * (-(sy * sp)) == 0)
        by (nonlinear_arith);
    assert((cy * cp) * (cy * cp) + (sp * s) * (sp * s) + (sy * cp) * (sy * cp) == (cp * cp) * (cy
        * cy + sy * sy) + (sp * sp) * (s * s)) by (nonlinear_arith);
    assert((cp * cp) * (cy * cy + sy * sy) == (cp * cp) * (s * s));
    assert((cp * cp) * (s * s) + (sp * sp) * (s * s) == (cp * cp + sp * sp) * (s * s))
        by (nonlinear_arith);
    assert((cp * cp + sp * sp) * (s * s) == (s * s) * (s * s));
    assert((s * s) * (s * s) == s * s * s * s) by (nonlinear_arith);
    assert((-(sy * s)) * (-(sy * s)) + 0 * 0 + (cy * s) * (cy * s) == s * s * s * s)
        by (nonlinear_arith)
        requires
            cy * cy + sy * sy == s * s,
    ;
    assert((-(cy * sp)) * (-(cy * sp)) + (cp * s) * (cp * s) + (-(sy * sp)) * (-(sy * sp)) == (sp
        * sp) * (cy * cy + sy * sy) + (cp * cp) * (s * s)) by (nonlinear_arith);
    assert((sp * sp) * (cy * cy + sy * sy) == (sp * sp) * (s * s));
    assert((sp * sp) * (s * s) + (cp * cp) * (s * s) == (sp * sp + cp * cp) * (s * s))
        by (nonlinear_arith);
    assert((sp * sp + cp * cp) * (s * s) == (s * s) * (s * s));
    assert((sp * s) * 0 - (sy * cp) * s == (-(sy * s)) * cp) by (nonlinear_arith);
    assert((sy * cp) * 0 - (cy * cp) * 0 == 0 * cp) by (nonlinear_arith);
    assert((cy * cp) * s - (sp * s) * 0 == (cy * s) * cp) by (nonlinear_arith);
    assert(0 * (sy * cp) - (cy * s) * (sp * s) == (-(cy * sp)) * (s * s)) by (nonlinear_arith);
    assert((cy * s) * (cy * cp) - (-(sy * s)) * (sy * cp) == (cp * s) * (s * s))
        by (nonlinear_arith)
        requires
            cy * cy + sy * sy == s * s,
    ;
    assert((-(sy * s)) * (sp * s) - 0 * (cy * cp) == (-(sy * sp)) * (s * s)) by (nonlinear_arith);
}

/// Ascending and then descending for the same time interval returns the
/// position to its prior value: the two keyboard steps are exact inverses.
/// `lifted` is the camera after the ascent — same basis and settings, with
/// the position one ascent step up.
pub proof fn lemma_up_then_down_restores_position(cam: Camera, lifted: Camera, delta_time: int)
    requires
        lifted.position@ == keyboard_move_model(cam, CameraMovement::UP, delta_time),
        lifted.up == cam.up,
        lifted.movement_speed == cam.movement_speed,
    ensures
        keyboard_move_model(lifted, CameraMovement::DOWN, delta_time) == cam.position@,
{
    let v = velocity_model(cam, delta_time);
    crate::fx::lemma_mul_model_neg_left(cam.up@.0, v);
    crate::fx::lemma_mul_model_neg_left(cam.up@.1, v);
    crate::fx::lemma_mul_model_neg_left(cam.up@.2, v);
}

/// At the default orientation the derived basis is exactly the world
/// frame: front down negative z, right down positive x, up along positive
/// y.
proof fn lemma_default_orientation_basis()
    ensures
        normalize_model(front_target(YAW as int, PITCH as int)) == (0int, 0int, -(SCALE as int)),
        normalize_model(cross3((0int, 0int, -(SCALE as int)), (0int, SCALE as int, 0int))) == (
            SCALE as int,
            0int,
            0int,
        ),
        normalize_model(
            cross3((SCALE as int, 0int, 0int), (0int, 0int, -(SCALE as int))),
        ) == (0int, SCALE as int, 0int),
{
    let s = SCALE as int;
    crate::trig::lemma_trig_quarter_turn_values();
    assert(cos_model(YAW as int) == 0 && sin_model(YAW as int) == -s && cos_model(PITCH as int)
        == s && sin_model(PITCH as int) == 0);
    crate::fx::lemma_mul_model_zero(s);
    crate::fx::lemma_mul_model_zero(0);
    crate::fx::lemma_mul_model_zero(-s);
    crate::fx::lemma_mul_model_scale(-s);
    crate::fx::lemma_mul_model_scale(s);
    assert(front_target(YAW as int, PITCH as int) == (0int, 0int, -s));

    assert((-s) * (-s) == s * s && s * (-s) == (-s) * s && (-s) * s == -(s * s))
        by (nonlinear_arith);
    assert(is_sqrt_floor(s * s, s)) by (nonlinear_arith)
        requires
            s == 1_000_000,
    ;
    crate::vec3::lemma_sqrt_floor(s * s, s);
    crate::fx::lemma_div_trunc_eval((-s) * s, s, -s);
    crate::fx::lemma_div_trunc_eval(0 * s, s, 0);
    crate::fx::lemma_div_trunc_eval(s * s, s, s);
    assert(norm_sq3((0int, 0int, -s)) == s * s);
    assert(normalize_model((0int, 0int, -s)) == (0int, 0int, -s));

    let right_raw = cross3((0int, 0int, -s), (0int, s, 0int));
    assert(right_raw == (s, 0int, 0int));
    assert(norm_sq3((s, 0int, 0int)) == s * s);
    assert(normalize_model((s, 0int, 0int)) == (s, 0int, 0int));

    crate::fx::lemma_div_trunc_eval(s * (-s), s, -s);
    let up_raw = cross3((s, 0int, 0int), (0int, 0int, -s));
    assert(up_raw == (0int, s, 0int));
    assert(norm_sq3((0int, s, 0int)) == s * s);
    assert(normalize_model((0int, s, 0int)) == (0int, s, 0int));
}

/// A well-formed camera within the coordinate limit satisfies every
/// machine-width condition of the look-at construction.
proof fn lemma_view_matrix_fits(cam: Camera)
    requires
        cam.wf(),
        bounded3(cam.position@, COORD_LIMIT as int),
        fits3(add3(cam.position@, cam.front@)),
    ensures
        look_at_fits(cam.position@, add3(cam.position@, cam.front@), cam.up@),
{
    let s = SCALE as int;
    let eye = cam.position@;
    let center = add3(cam.position@, cam.front@);
    let up = cam.up@;
    assert(sub3(center, eye) == cam.front@);
    let f = look_at_f(eye, center);
    crate::vec3::lemma_normalize_model_bounded(cam.front@);
    crate::mat4::lemma_unit_cross_fits(f, up);
    let sv = look_at_s(eye, center, up);
    crate::vec3::lemma_normalize_model_bounded(cross3(f, up));
    crate::mat4::lemma_unit_cross_fits(sv, f);
    let uv = look_at_u(eye, center, up);
    lemma_dot_with_coord_fits(sv, eye, s);
    lemma_dot_with_coord_fits(f, eye, s);
    lemma_dot_with_coord_fits_two(uv, eye, s);
}

/// Dot products of a one-unit-bounded vector with a coordinate-limited
/// point stay in range.
proof fn lemma_dot_with_coord_fits(a: (int, int, int), b: (int, int, int), s: int)
    requires
        s == SCALE as int,
        bounded3(a, s),
        bounded3(b, COORD_LIMIT as int),
    ensures
        dot_fits(a, b),
        fits(-dot3(a, b)),
{
    let c = COORD_LIMIT as int;
    crate::fx::lemma_mul_model_bound(a.0, b.0, s, c);
    crate::fx::lemma_mul_model_bound(a.1, b.1, s, c);
    crate::fx::lemma_mul_model_bound(a.2, b.2, s, c);
    assert(crate::fx::div_trunc(s * c, s) == c) by {
        vstd::arithmetic::div_mod::lemma_div_multiples_vanish(c, s);
    }
}

/// Dot products of a two-unit-bounded vector with a coordinate-limited
/// point stay in range.
proof fn lemma_dot_with_coord_fits_two(a: (int, int, int), b: (int, int, int), s: int)
    requires
        s == SCALE as int,
        bounded3(a, 2 * s),
        bounded3(b, COORD_LIMIT as int),
    ensures
        dot_fits(a, b),
        fits(-dot3(a, b)),
{
    let c = COORD_LIMIT as int;
    crate::fx::lemma_mul_model_bound(a.0, b.0, 2 * s, c);
    crate::fx::lemma_mul_model_bound(a.1, b.1, 2 * s, c);
    crate::fx::lemma_mul_model_bound(a.2, b.2, 2 * s, c);
    assert(crate::fx::div_trunc(2 * s * c, s) == 2 * c) by {
        vstd::arithmetic::div_mod::lemma_div_multiples_vanish(2 * c, s);
        assert(2 * s * c == s * (2 * c)) by (nonlinear_arith);
    }
}

} // verus!
