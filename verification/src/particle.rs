//! Point-mass particles with Störmer–Verlet position integration.
//!
//! A particle stores its position, the position at the previous step, an
//! acceleration accumulator and a mass.  Velocity is never stored: it is
//! re-derived as `position - previous position` whenever needed.

use vstd::prelude::*;
use crate::fixed::{
    fx_add, fx_add_s, fx_mul, fx_mul_s, fx_sub, fx_sub_s, in_range, tdiv, to_units, SCALE,
};

verus! {

/// Largest particle count a scene may hold, so that the ensemble's degree
/// of freedom count stays within the linear-algebra kernel's dimensions.
pub const MAX_OBJECTS: usize = 32768;

/// Width of the default play region, in raw scalar units.
pub const REGION_WIDTH: i64 = 640 * SCALE;

/// Height of the default play region, in raw scalar units.
pub const REGION_HEIGHT: i64 = 480 * SCALE;

/// Horizontal center of the default play region.
pub const REGION_CENTER_X: i64 = 320 * SCALE;

/// Vertical center of the default play region.
pub const REGION_CENTER_Y: i64 = 240 * SCALE;

/// A two-component fixed-point vector.
#[derive(Clone, Copy, PartialEq, Eq, Structural, Debug)]
pub struct Vec2 {
    pub x: i64,
    pub y: i64,
}

/// Both components lie in the representable scalar range.
pub open spec fn vec2_in_range(v: Vec2) -> bool {
    in_range(v.x as int) && in_range(v.y as int)
}

/// What one axis of a Verlet step yields: the position advances by the
/// implicit velocity `pos - old` plus `acc * dt * dt`.
pub open spec fn integrate_axis_s(pos: int, old: int, acc: int, dt: int) -> int {
    fx_add_s(fx_add_s(pos, fx_sub_s(pos, old)), fx_mul_s(fx_mul_s(acc, dt), dt))
}

/// A draw request for the rendering collaborator: position and radius in
/// whole logical units.
#[derive(Clone, Copy, PartialEq, Eq, Structural, Debug)]
pub struct DrawRequest {
    pub x: i64,
    pub y: i64,
    pub radius: i64,
}

/// A circular point mass.
#[derive(Clone, Copy, PartialEq, Eq, Structural, Debug)]
pub struct Circle {
    pub radius: i64,
    pub mass: i64,
    pub position: Vec2,
    pub old_position: Vec2,
    pub acceleration: Vec2,
}

impl Circle {
    /// All stored scalars lie in the representable range.
    pub open spec fn wf(self) -> bool {
        &&& in_range(self.radius as int)
        &&& in_range(self.mass as int)
        &&& vec2_in_range(self.position)
        &&& vec2_in_range(self.old_position)
        &&& vec2_in_range(self.acceleration)
    }

    /// A unit-mass circle resting at the center of the default region with
    /// zero implicit velocity and no accumulated acceleration.
    pub fn new() -> (r: Circle)
        ensures
            r.radius == 5 * SCALE,
            r.mass == SCALE,
            r.position == (Vec2 { x: REGION_CENTER_X, y: REGION_CENTER_Y }),
            r.old_position == r.position,
            r.acceleration == (Vec2 { x: 0i64, y: 0i64 }),
            r.wf(),
    {
        Circle {
            radius: 5 * SCALE,
            mass: SCALE,
            position: Vec2 { x: REGION_CENTER_X, y: REGION_CENTER_Y },
            old_position: Vec2 { x: REGION_CENTER_X, y: REGION_CENTER_Y },
            acceleration: Vec2 { x: 0, y: 0 },
        }
    }

    pub fn get_mass(&self) -> (r: i64)
        ensures
            r == self.mass,
    {
        self.mass
    }

    /// The implicit velocity: current position minus previous position.
    pub fn get_velocity(&self) -> (r: Vec2)
        requires
            self.wf(),
        ensures
            r.x as int == fx_sub_s(self.position.x as int, self.old_position.x as int),
            r.y as int == fx_sub_s(self.position.y as int, self.old_position.y as int),
            vec2_in_range(r),
    {
        Vec2 {
            x: fx_sub(self.position.x, self.old_position.x),
            y: fx_sub(self.position.y, self.old_position.y),
        }
    }

    pub fn get_acceleration(&self) -> (r: Vec2)
        ensures
            r == self.acceleration,
    {
        self.acceleration
    }

    pub fn get_position(&self) -> (r: Vec2)
        ensures
            r == self.position,
    {
        self.position
    }

    pub fn get_old_position(&self) -> (r: Vec2)
        ensures
            r == self.old_position,
    {
        self.old_position
    }

    pub fn get_acceleration_mut(&mut self) -> (r: &mut Vec2)
        ensures
            *r == old(self).acceleration,
            final(self).acceleration == *final(r),
            final(self).position == old(self).position,
            final(self).old_position == old(self).old_position,
            final(self).mass == old(self).mass,
            final(self).radius == old(self).radius,
    {
        &mut self.acceleration
    }

    pub fn get_position_mut(&mut self) -> (r: &mut Vec2)
        ensures
            *r == old(self).position,
            final(self).position == *final(r),
            final(self).acceleration == old(self).acceleration,
            final(self).old_position == old(self).old_position,
            final(self).mass == old(self).mass,
            final(self).radius == old(self).radius,
    {
        &mut self.position
    }

    pub fn get_old_position_mut(&mut self) -> (r: &mut Vec2)
        ensures
            *r == old(self).old_position,
            final(self).old_position == *final(r),
            final(self).position == old(self).position,
            final(self).acceleration == old(self).acceleration,
            final(self).mass == old(self).mass,
            final(self).radius == old(self).radius,
    {
        &mut self.old_position
    }

    pub fn set_mass(&mut self, mass: i64)
        requires
            in_range(mass as int),
        ensures
            *final(self) == (Circle { mass, ..*old(self) }),
    {
        self.mass = mass;
    }

    pub fn set_acceleration(&mut self, acceleration: Vec2)
        requires
            vec2_in_range(acceleration),
        ensures
            *final(self) == (Circle { acceleration, ..*old(self) }),
    {
        self.acceleration = acceleration;
    }

    pub fn set_position(&mut self, position: Vec2)
        requires
            vec2_in_range(position),
        ensures
            *final(self) == (Circle { position, ..*old(self) }),
    {
        self.position = position;
    }

    pub fn set_old_position(&mut self, old_position: Vec2)
        requires
            vec2_in_range(old_position),
        ensures
            *final(self) == (Circle { old_position, ..*old(self) }),
    {
        self.old_position = old_position;
    }

    /// Accumulate an acceleration contribution; may be called several times
    /// between integration steps.
    pub fn accelerate(&mut self, acc: Vec2)
        requires
            old(self).wf(),
            vec2_in_range(acc),
        ensures
            final(self).acceleration.x as int == fx_add_s(
                old(self).acceleration.x as int,
                acc.x as int,
            ),
            final(self).acceleration.y as int == fx_add_s(
                old(self).acceleration.y as int,
                acc.y as int,
            ),
            final(self).position == old(self).position,
            final(self).old_position == old(self).old_position,
            final(self).mass == old(self).mass,
            final(self).radius == old(self).radius,
            final(self).wf(),
    {
        self.acceleration = Vec2 {
            x: fx_add(self.acceleration.x, acc.x),
            y: fx_add(self.acceleration.y, acc.y),
        };
    }

    /// One Störmer–Verlet step: derive the implicit velocity, remember the
    /// current position, advance by velocity plus `acceleration * dt * dt`,
    /// and reset the acceleration accumulator.
    pub fn update(&mut self, dt: i64)
        requires
            old(self).wf(),
            in_range(dt as int),
        ensures
            final(self).old_position == old(self).position,
            final(self).position.x as int == integrate_axis_s(
                old(self).position.x as int,
                old(self).old_position.x as int,
                old(self).acceleration.x as int,
                dt as int,
            ),
            final(self).position.y as int == integrate_axis_s(
                old(self).position.y as int,
                old(self).old_position.y as int,
                old(self).acceleration.y as int,
                dt as int,
            ),
            final(self).acceleration == (Vec2 { x: 0i64, y: 0i64 }),
            final(self).mass == old(self).mass,
            final(self).radius == old(self).radius,
            final(self).wf(),
    {
        let vx = fx_sub(self.position.x, self.old_position.x);
        let vy = fx_sub(self.position.y, self.old_position.y);
        let ax = fx_mul(fx_mul(self.acceleration.x, dt), dt);
        let ay = fx_mul(fx_mul(self.acceleration.y, dt), dt);
        let px = fx_add(fx_add(self.position.x, vx), ax);
        let py = fx_add(fx_add(self.position.y, vy), ay);
        self.old_position = self.position;
        self.position = Vec2 { x: px, y: py };
        self.acceleration = Vec2 { x: 0, y: 0 };
    }

    /// The per-frame output handed to the rendering collaborator: position
    /// and radius divided back out of the internal scaling.
    pub fn draw_request(&self) -> (r: DrawRequest)
        requires
            self.wf(),
        ensures
            r.x as int == tdiv(self.position.x as int, SCALE as int),
            r.y as int == tdiv(self.position.y as int, SCALE as int),
            r.radius as int == tdiv(self.radius as int, SCALE as int),
    {
        DrawRequest {
            x: to_units(self.position.x),
            y: to_units(self.position.y),
            radius: to_units(self.radius),
        }
    }
}

impl Default for Circle {
    fn default() -> (r: Circle)
        ensures
            r.radius == 5 * SCALE,
            r.mass == SCALE,
            r.position == (Vec2 { x: REGION_CENTER_X, y: REGION_CENTER_Y }),
            r.old_position == r.position,
            r.acceleration == (Vec2 { x: 0i64, y: 0i64 }),
            r.wf(),
    {
        Circle::new()
    }
}

/// Uniform motion is preserved exactly: a Verlet step with a zero
/// acceleration accumulator leaves the implicit velocity unchanged, as long
/// as the advanced position stays in the representable range.
pub proof fn lemma_uniform_motion(pos: int, old_pos: int, dt: int)
    requires
        in_range(pos),
        in_range(old_pos),
        in_range(dt),
        in_range(pos + fx_sub_s(pos, old_pos)),
    ensures
        fx_sub_s(integrate_axis_s(pos, old_pos, 0, dt), pos) == fx_sub_s(pos, old_pos),
{
    let v = fx_sub_s(pos, old_pos);
    assert(fx_mul_s(0, dt) == 0);
    assert(fx_mul_s(fx_mul_s(0, dt), dt) == 0);
    assert(integrate_axis_s(pos, old_pos, 0, dt) == pos + v);
}

/// One axis of a particle after `k` Verlet steps with nothing accumulating
/// on it: the position advances by the fixed velocity each step.
pub open spec fn coasted_axis_s(pos: int, old: int, dt: int, k: nat) -> (int, int)
    decreases k,
{
    if k == 0 {
        (pos, old)
    } else {
        coasted_axis_s(integrate_axis_s(pos, old, 0, dt), pos, dt, (k - 1) as nat)
    }
}

/// Uniform motion is preserved across any number of steps: with a zero
/// acceleration accumulator, `k` Verlet steps move one axis by exactly `k`
/// times the implicit velocity, which itself never changes — as long as
/// every visited position stays in the representable range.
pub proof fn lemma_uniform_motion_repeated(pos: int, old: int, dt: int, k: nat)
    requires
        in_range(pos),
        in_range(old),
        in_range(dt),
        in_range(pos - old),
        forall|i: int| 0 <= i <= k ==> in_range(pos + #[trigger] (i * (pos - old))),
    ensures
        coasted_axis_s(pos, old, dt, k).0 == pos + k * (pos - old),
        k > 0 ==> coasted_axis_s(pos, old, dt, k).1 == pos + (k - 1) * (pos - old),
    decreases k,
{
    let v = pos - old;
    if k == 0 {
        assert(1 * v == v) by (nonlinear_arith);
    } else {
        assert(fx_sub_s(pos, old) == v);
        assert(fx_mul_s(fx_mul_s(0, dt), dt) == 0);
        assert(0 * v == 0 && 1 * v == v) by (nonlinear_arith);
        assert(in_range(pos + 1 * v));
        let p1 = integrate_axis_s(pos, old, 0, dt);
        assert(p1 == pos + v);
        assert(p1 - pos == v);
        assert forall|i: int| 0 <= i <= k - 1 implies in_range(p1 + #[trigger] (i * (p1 - pos))) by {
            assert((i + 1) * v == i * v + v) by (nonlinear_arith);
            assert(in_range(pos + (i + 1) * v));
        }
        lemma_uniform_motion_repeated(p1, pos, dt, (k - 1) as nat);
        assert(coasted_axis_s(pos, old, dt, k) == coasted_axis_s(p1, pos, dt, (k - 1) as nat));
        assert(k * v == (k - 1) * v + v) by (nonlinear_arith);
        if k > 1 {
            assert((k - 1) * v == (k - 2) * v + v) by (nonlinear_arith);
        }
    }
}

} // verus!
