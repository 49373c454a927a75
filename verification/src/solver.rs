//! Solver orchestration: one physics sub-step in a fixed order.
//!
//! Gravity, the drag-mode hard position clamp, Jacobian and mass-matrix
//! assembly, a warm-started conjugate-gradient solve for the constraint
//! forces, force application with the velocity-consistency correction,
//! optional air resistance, and Verlet integration.

use vstd::prelude::*;
use crate::constraints::{
    constraint_jacobian_s, objects_wf, Constraint, InputSnapshot,
};
use crate::fixed::{
    fx_add, fx_add_s, fx_div, fx_div_s, fx_mul, fx_mul_s, fx_sub, fx_sub_s, half, in_range,
    int_div, isqrt_u128, tdiv, SCALE,
};
use crate::linalg::{
    cg_solve_s, conjugate_gradient, diag_inverse, ints, isqrt_s, lemma_isqrt_unique, mat_ints,
    mat_mul, mat_vec, mat_wf, matmul_entry, matvec_s, scale_cols, transpose, vec_copy,
    vec_in_range, vec_neg, zeros,
};
use crate::particle::{integrate_axis_s, Circle, Vec2, MAX_OBJECTS};

verus! {

/// Downward gravitational acceleration, in raw scalar units per second
/// squared; independent of mass.
pub const GRAVITY: i64 = 981 * SCALE;

/// Velocity fraction removed by one application of air resistance: about
/// one thousandth, in raw scalar units.
pub const AIR_DRAG: i64 = 1073742;

/// Radius of the drag-capture circle around the pointer, in raw scalar
/// units.
pub const CAPTURE_RADIUS: i64 = 100 * SCALE;

/// Number of integration sub-steps per displayed frame.
pub const SUB_STEPS: usize = 10;

/// Largest number of constraint evaluators a scene may hold.
pub const MAX_CONSTRAINTS: usize = 65536;

/// The fatal configuration errors a solve can report.
#[derive(Clone, Copy, PartialEq, Eq, Structural, Debug)]
pub enum SolverError {
    /// Some particle's mass is zero or negative, so the mass matrix cannot
    /// be inverted.
    SingularMassMatrix,
}

/// Every particle's mass is strictly positive.
pub open spec fn masses_positive_s(objects: Seq<Circle>) -> bool {
    forall|i: int| 0 <= i < objects.len() ==> (#[trigger] objects[i]).mass > 0
}

/// A particle after the gravity step: the constant downward acceleration
/// accumulated onto the vertical axis.
pub open spec fn with_gravity_s(c: Circle) -> Circle {
    Circle {
        acceleration: Vec2 {
            x: fx_add_s(c.acceleration.x as int, 0) as i64,
            y: fx_add_s(c.acceleration.y as int, GRAVITY as int) as i64,
        },
        ..c
    }
}

/// The whole ensemble after the gravity step.
pub open spec fn gravity_all_s(objects: Seq<Circle>) -> Seq<Circle> {
    Seq::new(objects.len(), |i: int| with_gravity_s(objects[i]))
}

/// Pointer offset of a particle, per axis.
pub open spec fn drag_delta_x_s(c: Circle, input: InputSnapshot) -> int {
    fx_sub_s(c.position.x as int, input.pointer.x as int)
}

/// Pointer offset of a particle, per axis.
pub open spec fn drag_delta_y_s(c: Circle, input: InputSnapshot) -> int {
    fx_sub_s(c.position.y as int, input.pointer.y as int)
}

/// Distance from the pointer to a particle, in raw scalar units.
pub open spec fn drag_dist_s(c: Circle, input: InputSnapshot) -> int {
    isqrt_s(
        drag_delta_x_s(c, input) * drag_delta_x_s(c, input) + drag_delta_y_s(c, input)
            * drag_delta_y_s(c, input),
    )
}

/// A particle after the drag-mode hard clamp: anything farther than the
/// capture radius is placed on the capture circle, and half the positional
/// correction is carried into the previous position.
pub open spec fn with_drag_clamp_s(c: Circle, input: InputSnapshot) -> Circle {
    if !input.dragging || drag_dist_s(c, input) <= CAPTURE_RADIUS {
        c
    } else {
        let dist = drag_dist_s(c, input);
        let px = fx_add_s(
            input.pointer.x as int,
            fx_mul_s(fx_div_s(drag_delta_x_s(c, input), dist), CAPTURE_RADIUS as int),
        );
        let py = fx_add_s(
            input.pointer.y as int,
            fx_mul_s(fx_div_s(drag_delta_y_s(c, input), dist), CAPTURE_RADIUS as int),
        );
        Circle {
            position: Vec2 { x: px as i64, y: py as i64 },
            old_position: Vec2 {
                x: fx_add_s(
                    c.old_position.x as int,
                    tdiv(fx_sub_s(px, c.position.x as int), 2),
                ) as i64,
                y: fx_add_s(
                    c.old_position.y as int,
                    tdiv(fx_sub_s(py, c.position.y as int), 2),
                ) as i64,
            },
            ..c
        }
    }
}

/// The whole ensemble after the drag-mode hard clamp.
pub open spec fn clamp_all_s(objects: Seq<Circle>, input: InputSnapshot) -> Seq<Circle> {
    Seq::new(objects.len(), |i: int| with_drag_clamp_s(objects[i], input))
}

/// A particle after one application of air resistance: the previous
/// position is nudged toward the current one by a small fraction of the
/// implicit velocity.
pub open spec fn with_air_s(c: Circle) -> Circle {
    Circle {
        old_position: Vec2 {
            x: fx_add_s(
                c.old_position.x as int,
                fx_mul_s(fx_sub_s(c.position.x as int, c.old_position.x as int), AIR_DRAG as int),
            ) as i64,
            y: fx_add_s(
                c.old_position.y as int,
                fx_mul_s(fx_sub_s(c.position.y as int, c.old_position.y as int), AIR_DRAG as int),
            ) as i64,
        },
        ..c
    }
}

/// The whole ensemble after air resistance.
pub open spec fn air_all_s(objects: Seq<Circle>) -> Seq<Circle> {
    Seq::new(objects.len(), |i: int| with_air_s(objects[i]))
}

/// A particle after one Verlet integration step.
pub open spec fn integrated_s(c: Circle, dt: int) -> Circle {
    Circle {
        position: Vec2 {
            x: integrate_axis_s(
                c.position.x as int,
                c.old_position.x as int,
                c.acceleration.x as int,
                dt,
            ) as i64,
            y: integrate_axis_s(
                c.position.y as int,
                c.old_position.y as int,
                c.acceleration.y as int,
                dt,
            ) as i64,
        },
        old_position: c.position,
        acceleration: Vec2 { x: 0i64, y: 0i64 },
        ..c
    }
}

/// The whole ensemble after one Verlet integration step.
pub open spec fn integrate_all_s(objects: Seq<Circle>, dt: int) -> Seq<Circle> {
    Seq::new(objects.len(), |i: int| integrated_s(objects[i], dt))
}

/// The Jacobian matrix: one row per constraint evaluator, one column per
/// degree of freedom.
pub open spec fn jacobian_s(
    constraints: Seq<Constraint>,
    objects: Seq<Circle>,
    input: InputSnapshot,
) -> Seq<Seq<int>> {
    Seq::new(
        constraints.len(),
        |i: int|
            Seq::new(
                2 * objects.len(),
                |k: int| constraint_jacobian_s(constraints[i], objects, input, k),
            ),
    )
}

/// The transposed Jacobian matrix.
pub open spec fn jacobian_t_s(
    constraints: Seq<Constraint>,
    objects: Seq<Circle>,
    input: InputSnapshot,
) -> Seq<Seq<int>> {
    Seq::new(
        2 * objects.len(),
        |k: int|
            Seq::new(
                constraints.len(),
                |i: int| constraint_jacobian_s(constraints[i], objects, input, k),
            ),
    )
}

/// The inverse mass matrix `W = M^-1` as a diagonal: each particle's
/// reciprocal mass repeated on its two axes.
pub open spec fn inv_mass_diag_s(objects: Seq<Circle>) -> Seq<int> {
    Seq::new(2 * objects.len(), |k: int| fx_div_s(SCALE as int, objects[k / 2].mass as int))
}

/// The generalized force vector `Q`: accumulated acceleration times mass,
/// per degree of freedom.
pub open spec fn force_vector_s(objects: Seq<Circle>) -> Seq<int> {
    Seq::new(
        2 * objects.len(),
        |k: int|
            if k % 2 == 0 {
                fx_mul_s(objects[k / 2].acceleration.x as int, objects[k / 2].mass as int)
            } else {
                fx_mul_s(objects[k / 2].acceleration.y as int, objects[k / 2].mass as int)
            },
    )
}

/// The product `J * W` of the Jacobian with the diagonal inverse mass
/// matrix.
pub open spec fn jw_s(
    constraints: Seq<Constraint>,
    objects: Seq<Circle>,
    input: InputSnapshot,
) -> Seq<Seq<int>> {
    Seq::new(
        constraints.len(),
        |i: int|
            Seq::new(
                2 * objects.len(),
                |k: int|
                    fx_mul_s(
                        constraint_jacobian_s(constraints[i], objects, input, k),
                        inv_mass_diag_s(objects)[k],
                    ),
            ),
    )
}

/// The normal-equation matrix `A = J * W * J^T`.
pub open spec fn a_mat_s(
    constraints: Seq<Constraint>,
    objects: Seq<Circle>,
    input: InputSnapshot,
) -> Seq<Seq<int>> {
    Seq::new(
        constraints.len(),
        |i: int|
            Seq::new(
                constraints.len(),
                |j: int|
                    matmul_entry(
                        jw_s(constraints, objects, input),
                        jacobian_t_s(constraints, objects, input),
                        i,
                        j,
                    ),
            ),
    )
}

/// The right-hand side `b = -J * W * Q`.
pub open spec fn b_vec_s(
    constraints: Seq<Constraint>,
    objects: Seq<Circle>,
    input: InputSnapshot,
) -> Seq<int> {
    Seq::new(
        constraints.len(),
        |i: int| -matvec_s(jw_s(constraints, objects, input), force_vector_s(objects))[i],
    )
}

/// The warm-start seed: the previous multiplier vector, or zeros when the
/// system's shape changed since the prior sub-step.
pub open spec fn seed_s(prev: Seq<int>, c: int) -> Seq<int> {
    if prev.len() == c {
        prev
    } else {
        Seq::new(c as nat, |i: int| 0)
    }
}

/// The Lagrange-multiplier vector: the conjugate-gradient solution of
/// `A * lambda == b`, warm-started from the previous sub-step.
pub open spec fn lambda_s(
    constraints: Seq<Constraint>,
    objects: Seq<Circle>,
    input: InputSnapshot,
    prev: Seq<int>,
) -> Seq<int> {
    cg_solve_s(
        a_mat_s(constraints, objects, input),
        b_vec_s(constraints, objects, input),
        seed_s(prev, constraints.len() as int),
    ).0
}

/// The per-degree-of-freedom constraint force: the multipliers mapped back
/// through the transposed Jacobian.
pub open spec fn constraint_force_s(
    constraints: Seq<Constraint>,
    objects: Seq<Circle>,
    input: InputSnapshot,
    prev: Seq<int>,
) -> Seq<int> {
    matvec_s(
        jacobian_t_s(constraints, objects, input),
        lambda_s(constraints, objects, input, prev),
    )
}

/// The velocity-consistency coefficient for one axis: 1 when the
/// acceleration stayed zero, 0 when it left zero, otherwise the ratio of
/// new to old acceleration.
pub open spec fn coeff_s(prev: int, next: int) -> int {
    if prev == 0 {
        if next == 0 {
            SCALE as int
        } else {
            0
        }
    } else {
        fx_div_s(next, prev)
    }
}

/// A particle after the constraint force `(fx_, fy_)` lands on it: the
/// force is accumulated, and the previous position is rewritten so that the
/// implicit velocity is rescaled by the per-axis coefficient.
pub open spec fn with_force_s(c: Circle, fx_: int, fy_: int) -> Circle {
    let ax1 = fx_add_s(c.acceleration.x as int, fx_);
    let ay1 = fx_add_s(c.acceleration.y as int, fy_);
    let cx = coeff_s(c.acceleration.x as int, ax1);
    let cy = coeff_s(c.acceleration.y as int, ay1);
    let vx = fx_sub_s(c.position.x as int, c.old_position.x as int);
    let vy = fx_sub_s(c.position.y as int, c.old_position.y as int);
    Circle {
        acceleration: Vec2 { x: ax1 as i64, y: ay1 as i64 },
        old_position: Vec2 {
            x: fx_sub_s(c.position.x as int, fx_mul_s(cx, vx)) as i64,
            y: fx_sub_s(c.position.y as int, fx_mul_s(cy, vy)) as i64,
        },
        ..c
    }
}

/// The whole ensemble after one constraint solve.
pub open spec fn forces_all_s(
    constraints: Seq<Constraint>,
    objects: Seq<Circle>,
    input: InputSnapshot,
    prev: Seq<int>,
) -> Seq<Circle> {
    Seq::new(
        objects.len(),
        |i: int|
            with_force_s(
                objects[i],
                constraint_force_s(constraints, objects, input, prev)[2 * i],
                constraint_force_s(constraints, objects, input, prev)[2 * i + 1],
            ),
    )
}

/// The solver: exclusive owner of the particle ensemble and constraint
/// list, and of the warm-start seed threaded between sub-steps.
pub struct Solver {
    pub scene_objects: Vec<Circle>,
    pub constraints: Vec<Constraint>,
    /// The Lagrange-multiplier vector found by the previous sub-step's
    /// conjugate-gradient solve, kept as the next solve's warm-start seed.
    pub previous_force: Vec<i64>,
}

impl Solver {
    /// Bounds and ranges every solver operation preserves.
    pub open spec fn wf(self) -> bool {
        &&& self.scene_objects@.len() <= MAX_OBJECTS
        &&& objects_wf(self.scene_objects@)
        &&& self.constraints@.len() <= MAX_CONSTRAINTS
        &&& vec_in_range(self.previous_force@)
    }

    /// An empty scene with no warm-start seed.
    pub fn new() -> (r: Solver)
        ensures
            r.scene_objects@.len() == 0,
            r.constraints@.len() == 0,
            r.previous_force@.len() == 0,
            r.wf(),
    {
        Solver { scene_objects: Vec::new(), constraints: Vec::new(), previous_force: Vec::new() }
    }

    /// Add a particle to the scene.
    pub fn add_object(&mut self, c: Circle)
        requires
            old(self).wf(),
            c.wf(),
            old(self).scene_objects@.len() < MAX_OBJECTS,
        ensures
            final(self).scene_objects@ == old(self).scene_objects@.push(c),
            final(self).constraints@ == old(self).constraints@,
            final(self).previous_force@ == old(self).previous_force@,
            final(self).wf(),
    {
        self.scene_objects.push(c);
    }

    /// Add a constraint evaluator to the scene.
    pub fn add_constraint(&mut self, c: Constraint)
        requires
            old(self).wf(),
            old(self).constraints@.len() < MAX_CONSTRAINTS,
        ensures
            final(self).constraints@ == old(self).constraints@.push(c),
            final(self).scene_objects@ == old(self).scene_objects@,
            final(self).previous_force@ == old(self).previous_force@,
            final(self).wf(),
    {
        self.constraints.push(c);
    }

    /// Accumulate the constant downward gravitational acceleration onto
    /// every particle.
    pub fn apply_gravity(&mut self)
        requires
            old(self).wf(),
        ensures
            final(self).scene_objects@ == gravity_all_s(old(self).scene_objects@),
            final(self).constraints@ == old(self).constraints@,
            final(self).previous_force@ == old(self).previous_force@,
            final(self).wf(),
    {
        let ghost objs0 = self.scene_objects@;
        let n = self.scene_objects.len();
        let mut i: usize = 0;
        while i < n
            invariant
                i <= n,
                n == self.scene_objects@.len(),
                objs0.len() == n,
                objects_wf(objs0),
                self.constraints@ == old(self).constraints@,
                self.previous_force@ == old(self).previous_force@,
                self.constraints@.len() <= MAX_CONSTRAINTS,
                vec_in_range(self.previous_force@),
                n <= MAX_OBJECTS,
                forall|p: int| 0 <= p < i ==> self.scene_objects@[p] == with_gravity_s(objs0[p]),
                forall|p: int| i <= p < n ==> self.scene_objects@[p] == objs0[p],
                objects_wf(self.scene_objects@),
            decreases n - i,
        {
            let mut c = self.scene_objects[i];
            c.accelerate(Vec2 { x: 0, y: GRAVITY });
            self.scene_objects.set(i, c);
            i += 1;
        }
        proof {
            assert(self.scene_objects@ =~= gravity_all_s(objs0));
        }
    }

    /// Decay every particle's implicit velocity by nudging its previous
    /// position toward the current one; a direct kinematic adjustment, not a
    /// force.
    pub fn apply_air_resistance(&mut self)
        requires
            old(self).wf(),
        ensures
            final(self).scene_objects@ == air_all_s(old(self).scene_objects@),
            final(self).constraints@ == old(self).constraints@,
            final(self).previous_force@ == old(self).previous_force@,
            final(self).wf(),
    {
        let ghost objs0 = self.scene_objects@;
        let n = self.scene_objects.len();
        let mut i: usize = 0;
        while i < n
            invariant
                i <= n,
                n == self.scene_objects@.len(),
                objs0.len() == n,
                objects_wf(objs0),
                self.constraints@ == old(self).constraints@,
                self.previous_force@ == old(self).previous_force@,
                self.constraints@.len() <= MAX_CONSTRAINTS,
                vec_in_range(self.previous_force@),
                n <= MAX_OBJECTS,
                forall|p: int| 0 <= p < i ==> self.scene_objects@[p] == with_air_s(objs0[p]),
                forall|p: int| i <= p < n ==> self.scene_objects@[p] == objs0[p],
                objects_wf(self.scene_objects@),
            decreases n - i,
        {
            let c = self.scene_objects[i];
            let vel = c.get_velocity();
            let nx = fx_add(c.old_position.x, fx_mul(vel.x, AIR_DRAG));
            let ny = fx_add(c.old_position.y, fx_mul(vel.y, AIR_DRAG));
            let updated = Circle { old_position: Vec2 { x: nx, y: ny }, ..c };
            self.scene_objects.set(i, updated);
            i += 1;
        }
        proof {
            assert(self.scene_objects@ =~= air_all_s(objs0));
        }
    }

    /// The drag-mode hard position clamp: while a drag gesture is active,
    /// particles farther than the capture radius from the pointer are placed
    /// directly on the capture circle, and half of the positional correction
    /// is carried into the previous position to soften the momentum loss.
    pub fn apply_constraints(&mut self, input: &InputSnapshot)
        requires
            old(self).wf(),
            input.wf(),
        ensures
            final(self).scene_objects@ == clamp_all_s(old(self).scene_objects@, *input),
            final(self).constraints@ == old(self).constraints@,
            final(self).previous_force@ == old(self).previous_force@,
            final(self).wf(),
    {
        let ghost objs0 = self.scene_objects@;
        if !input.dragging {
            proof {
                assert(self.scene_objects@ =~= clamp_all_s(objs0, *input));
            }
            return ;
        }
        let n = self.scene_objects.len();
        let mut i: usize = 0;
        while i < n
            invariant
                i <= n,
                n == self.scene_objects@.len(),
                objs0.len() == n,
                objects_wf(objs0),
                input.wf(),
                input.dragging,
                self.constraints@ == old(self).constraints@,
                self.previous_force@ == old(self).previous_force@,
                self.constraints@.len() <= MAX_CONSTRAINTS,
                vec_in_range(self.previous_force@),
                n <= MAX_OBJECTS,
                forall|p: int|
                    0 <= p < i ==> self.scene_objects@[p] == with_drag_clamp_s(objs0[p], *input),
                forall|p: int| i <= p < n ==> self.scene_objects@[p] == objs0[p],
                objects_wf(self.scene_objects@),
            decreases n - i,
        {
            let c = self.scene_objects[i];
            let tx = fx_sub(c.position.x, input.pointer.x);
            let ty = fx_sub(c.position.y, input.pointer.y);
            proof {
                assert(0 <= (tx as int) * (tx as int) <= 19342813113834066795298816)
                    by (nonlinear_arith)
                    requires
                        -4398046511104 <= tx as int <= 4398046511104,
                ;
                assert(0 <= (ty as int) * (ty as int) <= 19342813113834066795298816)
                    by (nonlinear_arith)
                    requires
                        -4398046511104 <= ty as int <= 4398046511104,
                ;
            }
            let sqx: i128 = (tx as i128) * (tx as i128);
            let sqy: i128 = (ty as i128) * (ty as i128);
            let sq: u128 = (sqx + sqy) as u128;
            let root = isqrt_u128(sq);
            proof {
                lemma_isqrt_unique(sq as int, root as int);
                assert((root as int) < 8796093022208) by (nonlinear_arith)
                    requires
                        0 <= root as int,
                        (root as int) * (root as int) <= 38685626227668133590597632,
                ;
            }
            let dist: i64 = root as i64;
            if dist > CAPTURE_RADIUS {
                let nx = fx_div(tx, dist);
                let ny = fx_div(ty, dist);
                let px = fx_add(input.pointer.x, fx_mul(nx, CAPTURE_RADIUS));
                let py = fx_add(input.pointer.y, fx_mul(ny, CAPTURE_RADIUS));
                let ox = fx_add(c.old_position.x, half(fx_sub(px, c.position.x)));
                let oy = fx_add(c.old_position.y, half(fx_sub(py, c.position.y)));
                let updated = Circle {
                    position: Vec2 { x: px, y: py },
                    old_position: Vec2 { x: ox, y: oy },
                    ..c
                };
                self.scene_objects.set(i, updated);
            }
            i += 1;
        }
        proof {
            assert(self.scene_objects@ =~= clamp_all_s(objs0, *input));
        }
    }

    /// One Verlet integration step for every particle.
    pub fn update_positions(&mut self, dt: i64)
        requires
            old(self).wf(),
            in_range(dt as int),
        ensures
            final(self).scene_objects@ == integrate_all_s(old(self).scene_objects@, dt as int),
            final(self).constraints@ == old(self).constraints@,
            final(self).previous_force@ == old(self).previous_force@,
            final(self).wf(),
    {
        let ghost objs0 = self.scene_objects@;
        let n = self.scene_objects.len();
        let mut i: usize = 0;
        while i < n
            invariant
                i <= n,
                n == self.scene_objects@.len(),
                objs0.len() == n,
                objects_wf(objs0),
                in_range(dt as int),
                self.constraints@ == old(self).constraints@,
                self.previous_force@ == old(self).previous_force@,
                self.constraints@.len() <= MAX_CONSTRAINTS,
                vec_in_range(self.previous_force@),
                n <= MAX_OBJECTS,
                forall|p: int|
                    0 <= p < i ==> self.scene_objects@[p] == integrated_s(objs0[p], dt as int),
                forall|p: int| i <= p < n ==> self.scene_objects@[p] == objs0[p],
                objects_wf(self.scene_objects@),
            decreases n - i,
        {
            let mut c = self.scene_objects[i];
            c.update(dt);
            self.scene_objects.set(i, c);
            i += 1;
        }
        proof {
            assert(self.scene_objects@ =~= integrate_all_s(objs0, dt as int));
        }
    }

    /// One constraint solve: assemble `J`, `W = M^-1` and `Q`, form the
    /// normal equations `A = J * W * J^T` and `b = -J * W * Q`, solve
    /// `A * lambda == b` by warm-started conjugate gradient, map the
    /// multipliers back through `J^T` onto every particle, and rescale each
    /// implicit velocity by the ratio of new to old acceleration.
    ///
    /// Any non-positive particle mass makes the mass matrix singular: the
    /// solve reports it as fatal before touching any state.
    pub fn solve_constraints(&mut self, input: &InputSnapshot) -> (r: Result<(), SolverError>)
        requires
            old(self).wf(),
            input.wf(),
        ensures
            r is Ok <==> masses_positive_s(old(self).scene_objects@),
            final(self).constraints@ == old(self).constraints@,
            r is Ok ==> final(self).scene_objects@ == forces_all_s(
                old(self).constraints@,
                old(self).scene_objects@,
                *input,
                ints(old(self).previous_force@),
            ),
            r is Ok ==> ints(final(self).previous_force@) == lambda_s(
                old(self).constraints@,
                old(self).scene_objects@,
                *input,
                ints(old(self).previous_force@),
            ),
            r is Err ==> final(self).scene_objects@ == old(self).scene_objects@,
            r is Err ==> final(self).previous_force@ == old(self).previous_force@,
            r is Err ==> r == Err::<(), SolverError>(SolverError::SingularMassMatrix),
            final(self).wf(),
    {
        let ghost objs0 = self.scene_objects@;
        let ghost cons0 = self.constraints@;
        let ghost prev0 = ints(self.previous_force@);
        let n = self.scene_objects.len();
        let c_count = self.constraints.len();
        let two_n = 2 * n;

        // The mass matrix must be invertible: reject any non-positive mass
        // before any state is touched.
        let mut i: usize = 0;
        while i < n
            invariant
                i <= n,
                n == self.scene_objects@.len(),
                *self == *old(self),
                self.scene_objects@ == objs0,
                self.wf(),
                forall|p: int| 0 <= p < i ==> (#[trigger] self.scene_objects@[p]).mass > 0,
            decreases n - i,
        {
            if self.scene_objects[i].get_mass() <= 0 {
                return Err(SolverError::SingularMassMatrix);
            }
            i += 1;
        }

        // Jacobian assembly: one row per constraint evaluator.
        let mut j: Vec<Vec<i64>> = Vec::new();
        let mut ci: usize = 0;
        while ci < c_count
            invariant
                ci <= c_count,
                c_count == self.constraints@.len(),
                n == self.scene_objects@.len(),
                n <= MAX_OBJECTS,
                two_n == 2 * n,
                self.scene_objects@ == objs0,
                self.constraints@ == cons0,
                objects_wf(objs0),
                input.wf(),
                j@.len() == ci,
                forall|p: int|
                    0 <= p < ci ==> (#[trigger] j@[p])@.len() == two_n && vec_in_range(j@[p]@),
                forall|p: int|
                    0 <= p < ci ==> ints((#[trigger] j@[p])@) == jacobian_s(cons0, objs0, *input)[p],
            decreases c_count - ci,
        {
            let cref = &self.constraints[ci];
            let row = cref.jacobian(&self.scene_objects, input);
            proof {
                assert(ints(row@) =~= jacobian_s(cons0, objs0, *input)[ci as int]);
            }
            j.push(row);
            ci += 1;
        }
        proof {
            assert(mat_ints(j@) =~= jacobian_s(cons0, objs0, *input));
            assert(mat_wf(j@, c_count as int, two_n as int));
        }

        // Diagonal mass matrix, and its inverse by entrywise reciprocal.
        let mut masses: Vec<i64> = Vec::new();
        let mut mi: usize = 0;
        while mi < n
            invariant
                mi <= n,
                n == self.scene_objects@.len(),
                self.scene_objects@ == objs0,
                objects_wf(objs0),
                masses_positive_s(objs0),
                masses@.len() == 2 * mi,
                forall|k: int|
                    0 <= k < 2 * mi ==> (#[trigger] masses@[k]) == objs0[k / 2].mass,
            decreases n - mi,
        {
            let m = self.scene_objects[mi].get_mass();
            masses.push(m);
            masses.push(m);
            proof {
                assert((2 * (mi as int)) % 2 == 0);
                assert((2 * (mi as int)) / 2 == mi as int);
                assert((2 * (mi as int) + 1) % 2 == 1);
                assert((2 * (mi as int) + 1) / 2 == mi as int);
            }
            mi += 1;
        }
        proof {
            assert(vec_in_range(masses@));
            assert(forall|k: int| 0 <= k < masses@.len() ==> (#[trigger] masses@[k]) != 0i64);
        }
        let w = diag_inverse(&masses);
        proof {
            assert(ints(w@) =~= inv_mass_diag_s(objs0));
        }

        // Generalized force vector Q: accumulated acceleration times mass.
        let mut q: Vec<i64> = Vec::new();
        let mut qi: usize = 0;
        while qi < n
            invariant
                qi <= n,
                n == self.scene_objects@.len(),
                self.scene_objects@ == objs0,
                objects_wf(objs0),
                q@.len() == 2 * qi,
                forall|k: int|
                    0 <= k < 2 * qi ==> (#[trigger] q@[k]) as int == force_vector_s(objs0)[k]
                        && in_range(q@[k] as int),
            decreases n - qi,
        {
            let obj = &self.scene_objects[qi];
            q.push(fx_mul(obj.acceleration.x, obj.mass));
            q.push(fx_mul(obj.acceleration.y, obj.mass));
            proof {
                assert((2 * (qi as int)) % 2 == 0);
                assert((2 * (qi as int)) / 2 == qi as int);
                assert((2 * (qi as int) + 1) % 2 == 1);
                assert((2 * (qi as int) + 1) / 2 == qi as int);
            }
            qi += 1;
        }
        proof {
            assert(ints(q@) =~= force_vector_s(objs0));
        }

        // Normal equations: A = J * W * J^T and b = -J * W * Q.
        let jw = scale_cols(&j, &w);
        proof {
            assert forall|p: int| 0 <= p < c_count implies ints((#[trigger] jw@[p])@) == jw_s(
                cons0,
                objs0,
                *input,
            )[p] by {
                assert forall|k: int| 0 <= k < two_n implies ints(jw@[p]@)[k] == jw_s(
                    cons0,
                    objs0,
                    *input,
                )[p][k] by {
                    assert(j@[p]@[k] as int == jacobian_s(cons0, objs0, *input)[p][k]);
                    assert(w@[k] as int == inv_mass_diag_s(objs0)[k]);
                    assert(jw@[p]@[k] as int == fx_mul_s(j@[p]@[k] as int, w@[k] as int));
                }
                assert(ints(jw@[p]@) =~= jw_s(cons0, objs0, *input)[p]);
            }
            assert(mat_ints(jw@) =~= jw_s(cons0, objs0, *input));
        }
        let jt = transpose(&j, two_n);
        proof {
            assert forall|p: int| 0 <= p < two_n implies ints((#[trigger] jt@[p])@)
                == jacobian_t_s(cons0, objs0, *input)[p] by {
                assert forall|k: int| 0 <= k < c_count implies ints(jt@[p]@)[k] == jacobian_t_s(
                    cons0,
                    objs0,
                    *input,
                )[p][k] by {
                    assert(jt@[p]@[k] == j@[k]@[p]);
                    assert(j@[k]@[p] as int == jacobian_s(cons0, objs0, *input)[k][p]);
                }
                assert(ints(jt@[p]@) =~= jacobian_t_s(cons0, objs0, *input)[p]);
            }
            assert(mat_ints(jt@) =~= jacobian_t_s(cons0, objs0, *input));
        }
        let a = mat_mul(&jw, &jt, c_count);
        proof {
            assert forall|p: int| 0 <= p < c_count implies ints((#[trigger] a@[p])@) == a_mat_s(
                cons0,
                objs0,
                *input,
            )[p] by {
                assert(ints(a@[p]@) =~= a_mat_s(cons0, objs0, *input)[p]);
            }
            assert(mat_ints(a@) =~= a_mat_s(cons0, objs0, *input));
        }
        let jwq = mat_vec(&jw, &q);
        let b = vec_neg(&jwq);
        proof {
            assert(ints(b@) =~= b_vec_s(cons0, objs0, *input));
        }

        // Warm start: the previous multipliers, re-zeroed when the system's
        // shape changed since the prior sub-step.
        let seed: Vec<i64> = if self.previous_force.len() != c_count {
            zeros(c_count)
        } else {
            vec_copy(&self.previous_force)
        };
        proof {
            assert(ints(seed@) =~= seed_s(prev0, c_count as int));
        }

        // Solve A * lambda == b and keep lambda as the next seed.
        let (lambda, _iterations) = conjugate_gradient(&a, &b, &seed);
        proof {
            assert(ints(lambda@) == lambda_s(cons0, objs0, *input, prev0));
        }

        // Map the multipliers back through J^T onto the particles.
        let f = mat_vec(&jt, &lambda);
        proof {
            assert(ints(f@) == constraint_force_s(cons0, objs0, *input, prev0));
        }
        self.previous_force = lambda;

        let mut ai: usize = 0;
        while ai < n
            invariant
                ai <= n,
                n == self.scene_objects@.len(),
                objs0.len() == n,
                n <= MAX_OBJECTS,
                objects_wf(objs0),
                self.constraints@ == cons0,
                self.constraints@.len() <= MAX_CONSTRAINTS,
                vec_in_range(self.previous_force@),
                ints(self.previous_force@) == lambda_s(cons0, objs0, *input, prev0),
                f@.len() == 2 * n,
                vec_in_range(f@),
                ints(f@) == constraint_force_s(cons0, objs0, *input, prev0),
                forall|p: int|
                    0 <= p < ai ==> self.scene_objects@[p] == with_force_s(
                        objs0[p],
                        constraint_force_s(cons0, objs0, *input, prev0)[2 * p],
                        constraint_force_s(cons0, objs0, *input, prev0)[2 * p + 1],
                    ),
                forall|p: int| ai <= p < n ==> self.scene_objects@[p] == objs0[p],
                objects_wf(self.scene_objects@),
            decreases n - ai,
        {
            let c0 = self.scene_objects[ai];
            let fx_i = f[2 * ai];
            let fy_i = f[2 * ai + 1];
            let ax1 = fx_add(c0.acceleration.x, fx_i);
            let ay1 = fx_add(c0.acceleration.y, fy_i);
            let cx = if c0.acceleration.x == 0 {
                if ax1 == 0 {
                    SCALE
                } else {
                    0
                }
            } else {
                fx_div(ax1, c0.acceleration.x)
            };
            let cy = if c0.acceleration.y == 0 {
                if ay1 == 0 {
                    SCALE
                } else {
                    0
                }
            } else {
                fx_div(ay1, c0.acceleration.y)
            };
            let vx = fx_sub(c0.position.x, c0.old_position.x);
            let vy = fx_sub(c0.position.y, c0.old_position.y);
            let ox = fx_sub(c0.position.x, fx_mul(cx, vx));
            let oy = fx_sub(c0.position.y, fx_mul(cy, vy));
            let updated = Circle {
                acceleration: Vec2 { x: ax1, y: ay1 },
                old_position: Vec2 { x: ox, y: oy },
                ..c0
            };
            proof {
                assert(updated == with_force_s(
                    objs0[ai as int],
                    constraint_force_s(cons0, objs0, *input, prev0)[2 * ai],
                    constraint_force_s(cons0, objs0, *input, prev0)[2 * ai + 1],
                ));
            }
            self.scene_objects.set(ai, updated);
            ai += 1;
        }
        proof {
            assert(self.scene_objects@ =~= forces_all_s(cons0, objs0, *input, prev0));
        }
        Ok(())
    }

    /// One physics sub-step, in the fixed order: gravity, the drag-mode
    /// hard clamp, the constraint solve, optional air resistance, and
    /// Verlet integration.
    pub fn sub_step(&mut self, input: &InputSnapshot, sub_dt: i64, air_resistance: bool) -> (r:
        Result<(), SolverError>)
        requires
            old(self).wf(),
            input.wf(),
            in_range(sub_dt as int),
        ensures
            final(self).constraints@ == old(self).constraints@,
            r is Ok <==> masses_positive_s(old(self).scene_objects@),
            r is Ok ==> ({
                let cl = clamp_all_s(gravity_all_s(old(self).scene_objects@), *input);
                let fo = forces_all_s(
                    old(self).constraints@,
                    cl,
                    *input,
                    ints(old(self).previous_force@),
                );
                let ai = if air_resistance {
                    air_all_s(fo)
                } else {
                    fo
                };
                final(self).scene_objects@ == integrate_all_s(ai, sub_dt as int) && ints(
                    final(self).previous_force@,
                ) == lambda_s(old(self).constraints@, cl, *input, ints(old(self).previous_force@))
            }),
            r is Err ==> final(self).scene_objects@ == clamp_all_s(
                gravity_all_s(old(self).scene_objects@),
                *input,
            ),
            r is Err ==> final(self).previous_force@ == old(self).previous_force@,
            r is Err ==> r == Err::<(), SolverError>(SolverError::SingularMassMatrix),
            final(self).wf(),
    {
        let ghost objs0 = self.scene_objects@;
        self.apply_gravity();
        self.apply_constraints(input);
        proof {
            let cl = clamp_all_s(gravity_all_s(objs0), *input);
            assert forall|p: int| 0 <= p < objs0.len() implies (#[trigger] cl[p]).mass
                == objs0[p].mass by {
                assert(cl[p] == with_drag_clamp_s(with_gravity_s(objs0[p]), *input));
            }
            if masses_positive_s(objs0) {
                assert forall|p: int| 0 <= p < cl.len() implies (#[trigger] cl[p]).mass > 0 by {
                    assert(objs0[p].mass > 0);
                    assert(cl[p].mass == objs0[p].mass);
                }
            }
            if masses_positive_s(cl) {
                assert forall|p: int| 0 <= p < objs0.len() implies (#[trigger] objs0[p]).mass
                    > 0 by {
                    assert(cl[p].mass > 0);
                    assert(cl[p].mass == objs0[p].mass);
                }
            }
            assert(masses_positive_s(cl) <==> masses_positive_s(objs0));
        }
        match self.solve_constraints(input) {
            Err(e) => {
                return Err(e);
            },
            Ok(()) => {},
        }
        if air_resistance {
            self.apply_air_resistance();
        }
        self.update_positions(sub_dt);
        Ok(())
    }
}

/// Span of the random horizontal spawn offset, in raw scalar units.
pub const SPAWN_SPAN_X: i64 = 300 * SCALE;

/// Half of the horizontal spawn span.
pub const SPAWN_HALF_X: i64 = 150 * SCALE;

/// Span of the random vertical spawn offset, in raw scalar units.
pub const SPAWN_SPAN_Y: i64 = 80 * SCALE;

/// Half of the vertical spawn span.
pub const SPAWN_HALF_Y: i64 = 40 * SCALE;

/// Relies on rand::random: draws a value from the thread-local generator;
/// nothing can be promised of it.
pub assume_specification<T>[ rand::random::<T> ]() -> (r: T)
    where rand::distributions::Standard: rand::distributions::Distribution<T>
;

/// The particle a pair of random samples spawns: a fresh circle whose
/// position (and previous position, so the implicit velocity is zero) is
/// offset from the region center by the samples reduced to the spawn spans.
pub fn spawn_circle(rx: u64, ry: u64) -> (r: Circle)
    ensures
        r.radius == 5 * SCALE,
        r.mass == SCALE,
        r.acceleration == (Vec2 { x: 0i64, y: 0i64 }),
        r.old_position == r.position,
        r.position.x as int == crate::particle::REGION_CENTER_X + (rx as int) % (
        SPAWN_SPAN_X as int) - SPAWN_HALF_X,
        r.position.y as int == crate::particle::REGION_CENTER_Y + (ry as int) % (
        SPAWN_SPAN_Y as int) - SPAWN_HALF_Y,
        r.wf(),
{
    let mut c = Circle::new();
    let ox = (rx % (SPAWN_SPAN_X as u64)) as i64 - SPAWN_HALF_X;
    let oy = (ry % (SPAWN_SPAN_Y as u64)) as i64 - SPAWN_HALF_Y;
    let p = Vec2 { x: c.position.x + ox, y: c.position.y + oy };
    c.set_position(p);
    c.set_old_position(p);
    c
}

impl Solver {
    /// Scene setup: release `count` particles with randomized position
    /// offsets around the region center and zero initial velocity.
    pub fn populate(&mut self, count: usize)
        requires
            old(self).wf(),
            old(self).scene_objects@.len() + count <= MAX_OBJECTS,
        ensures
            final(self).scene_objects@.len() == old(self).scene_objects@.len() + count,
            forall|p: int|
                0 <= p < old(self).scene_objects@.len() ==> final(self).scene_objects@[p] == old(
                    self,
                ).scene_objects@[p],
            forall|p: int|
                old(self).scene_objects@.len() <= p < final(self).scene_objects@.len() ==> {
                    let c = #[trigger] final(self).scene_objects@[p];
                    &&& c.radius == 5 * SCALE
                    &&& c.mass == SCALE
                    &&& c.acceleration == (Vec2 { x: 0i64, y: 0i64 })
                    &&& c.old_position == c.position
                    &&& crate::particle::REGION_CENTER_X - SPAWN_HALF_X <= (c.position.x as int)
                        < crate::particle::REGION_CENTER_X + SPAWN_HALF_X
                    &&& crate::particle::REGION_CENTER_Y - SPAWN_HALF_Y <= (c.position.y as int)
                        < crate::particle::REGION_CENTER_Y + SPAWN_HALF_Y
                },
            final(self).constraints@ == old(self).constraints@,
            final(self).previous_force@ == old(self).previous_force@,
            final(self).wf(),
    {
        let ghost len0 = self.scene_objects@.len();
        let mut i: usize = 0;
        while i < count
            invariant
                i <= count,
                len0 + count <= MAX_OBJECTS,
                self.scene_objects@.len() == len0 + i,
                self.constraints@ == old(self).constraints@,
                self.previous_force@ == old(self).previous_force@,
                self.constraints@.len() <= MAX_CONSTRAINTS,
                vec_in_range(self.previous_force@),
                objects_wf(self.scene_objects@),
                forall|p: int|
                    0 <= p < len0 ==> self.scene_objects@[p] == old(self).scene_objects@[p],
                forall|p: int|
                    len0 <= p < self.scene_objects@.len() ==> {
                        let c = #[trigger] self.scene_objects@[p];
                        &&& c.radius == 5 * SCALE
                        &&& c.mass == SCALE
                        &&& c.acceleration == (Vec2 { x: 0i64, y: 0i64 })
                        &&& c.old_position == c.position
                        &&& crate::particle::REGION_CENTER_X - SPAWN_HALF_X <= (c.position.x as int)
                            < crate::particle::REGION_CENTER_X + SPAWN_HALF_X
                        &&& crate::particle::REGION_CENTER_Y - SPAWN_HALF_Y <= (c.position.y as int)
                            < crate::particle::REGION_CENTER_Y + SPAWN_HALF_Y
                    },
            decreases count - i,
        {
            let rx: u64 = rand::random();
            let ry: u64 = rand::random();
            let c = spawn_circle(rx, ry);
            self.scene_objects.push(c);
            i += 1;
        }
    }
}

/// The particle ensemble after one whole sub-step on the `Ok` path.
pub open spec fn sub_step_objects_s(
    constraints: Seq<Constraint>,
    objects: Seq<Circle>,
    input: InputSnapshot,
    prev: Seq<int>,
    dt: int,
    air: bool,
) -> Seq<Circle> {
    let cl = clamp_all_s(gravity_all_s(objects), input);
    let fo = forces_all_s(constraints, cl, input, prev);
    let ai = if air {
        air_all_s(fo)
    } else {
        fo
    };
    integrate_all_s(ai, dt)
}

/// The warm-start seed left behind by one whole sub-step.
pub open spec fn sub_step_force_s(
    constraints: Seq<Constraint>,
    objects: Seq<Circle>,
    input: InputSnapshot,
    prev: Seq<int>,
) -> Seq<int> {
    lambda_s(constraints, clamp_all_s(gravity_all_s(objects), input), input, prev)
}

/// The scene state after `k` consecutive sub-steps under one input
/// snapshot.
pub open spec fn steps_s(
    constraints: Seq<Constraint>,
    objects: Seq<Circle>,
    input: InputSnapshot,
    prev: Seq<int>,
    dt: int,
    air: bool,
    k: nat,
) -> (Seq<Circle>, Seq<int>)
    decreases k,
{
    if k == 0 {
        (objects, prev)
    } else {
        let o1 = sub_step_objects_s(constraints, objects, input, prev, dt, air);
        let p1 = sub_step_force_s(constraints, objects, input, prev);
        steps_s(constraints, o1, input, p1, dt, air, (k - 1) as nat)
    }
}

/// Running one more sub-step after `k` equals applying one sub-step to the
/// state after `k`.
pub proof fn lemma_steps_snoc(
    constraints: Seq<Constraint>,
    objects: Seq<Circle>,
    input: InputSnapshot,
    prev: Seq<int>,
    dt: int,
    air: bool,
    k: nat,
)
    ensures
        steps_s(constraints, objects, input, prev, dt, air, (k + 1) as nat) == ({
            let s = steps_s(constraints, objects, input, prev, dt, air, k);
            (
                sub_step_objects_s(constraints, s.0, input, s.1, dt, air),
                sub_step_force_s(constraints, s.0, input, s.1),
            )
        }),
    decreases k,
{
    let o1 = sub_step_objects_s(constraints, objects, input, prev, dt, air);
    let p1 = sub_step_force_s(constraints, objects, input, prev);
    assert(steps_s(constraints, objects, input, prev, dt, air, (k + 1) as nat) == steps_s(
        constraints,
        o1,
        input,
        p1,
        dt,
        air,
        k,
    ));
    if k > 0 {
        lemma_steps_snoc(constraints, o1, input, p1, dt, air, (k - 1) as nat);
    }
}

/// A whole sub-step moves particles but leaves every mass as it was.
pub proof fn lemma_sub_step_masses(
    constraints: Seq<Constraint>,
    objects: Seq<Circle>,
    input: InputSnapshot,
    prev: Seq<int>,
    dt: int,
    air: bool,
)
    ensures
        sub_step_objects_s(constraints, objects, input, prev, dt, air).len() == objects.len(),
        forall|q: int|
            0 <= q < objects.len() ==> #[trigger] sub_step_objects_s(
                constraints,
                objects,
                input,
                prev,
                dt,
                air,
            )[q].mass == objects[q].mass,
{
    let cl = clamp_all_s(gravity_all_s(objects), input);
    let fo = forces_all_s(constraints, cl, input, prev);
    let ai = if air {
        air_all_s(fo)
    } else {
        fo
    };
    let fin = integrate_all_s(ai, dt);
    assert forall|q: int| 0 <= q < objects.len() implies #[trigger] fin[q].mass
        == objects[q].mass by {
        assert(cl[q] == with_drag_clamp_s(with_gravity_s(objects[q]), input));
        assert(cl[q].mass == objects[q].mass);
        assert(fo[q].mass == cl[q].mass);
        assert(ai[q].mass == fo[q].mass);
        assert(fin[q] == integrated_s(ai[q], dt));
    }
}

impl Solver {
    /// One displayed frame: the frame interval divided into the fixed
    /// number of sub-steps, each integrating under the same input snapshot.
    pub fn step(&mut self, input: &InputSnapshot, dt: i64, air_resistance: bool) -> (r: Result<
        (),
        SolverError,
    >)
        requires
            old(self).wf(),
            input.wf(),
            in_range(dt as int),
        ensures
            final(self).constraints@ == old(self).constraints@,
            r is Ok <==> masses_positive_s(old(self).scene_objects@),
            r is Ok ==> ({
                let s = steps_s(
                    old(self).constraints@,
                    old(self).scene_objects@,
                    *input,
                    ints(old(self).previous_force@),
                    tdiv(dt as int, SUB_STEPS as int),
                    air_resistance,
                    SUB_STEPS as nat,
                );
                final(self).scene_objects@ == s.0 && ints(final(self).previous_force@) == s.1
            }),
            r is Err ==> final(self).scene_objects@ == clamp_all_s(
                gravity_all_s(old(self).scene_objects@),
                *input,
            ),
            r is Err ==> final(self).previous_force@ == old(self).previous_force@,
            r is Err ==> r == Err::<(), SolverError>(SolverError::SingularMassMatrix),
            final(self).wf(),
    {
        let ghost objs0 = self.scene_objects@;
        let ghost cons0 = self.constraints@;
        let ghost prev0 = ints(self.previous_force@);
        let sub_dt = int_div(dt, SUB_STEPS as i64);
        let mut k: usize = 0;
        while k < SUB_STEPS
            invariant
                k <= SUB_STEPS,
                self.wf(),
                input.wf(),
                in_range(sub_dt as int),
                sub_dt as int == tdiv(dt as int, SUB_STEPS as int),
                cons0 == old(self).constraints@,
                objs0 == old(self).scene_objects@,
                prev0 == ints(old(self).previous_force@),
                self.constraints@ == cons0,
                (self.scene_objects@, ints(self.previous_force@)) == steps_s(
                    cons0,
                    objs0,
                    *input,
                    prev0,
                    sub_dt as int,
                    air_resistance,
                    k as nat,
                ),
                masses_positive_s(self.scene_objects@) <==> masses_positive_s(objs0),
                k > 0 ==> masses_positive_s(objs0),
            decreases SUB_STEPS - k,
        {
            let ghost objs_k = self.scene_objects@;
            let ghost prev_k = ints(self.previous_force@);
            match self.sub_step(input, sub_dt, air_resistance) {
                Err(e) => {
                    proof {
                        assert(k == 0) by {
                            if k > 0 {
                                assert(masses_positive_s(objs_k));
                            }
                        }
                        assert(objs_k == objs0 && prev_k == prev0);
                        assert(ints(self.previous_force@) == ints(old(self).previous_force@));
                        assert(self.previous_force@.len() == old(self).previous_force@.len()) by {
                            assert(ints(self.previous_force@).len() == self.previous_force@.len());
                            assert(ints(old(self).previous_force@).len() == old(
                                self,
                            ).previous_force@.len());
                        }
                        assert(self.previous_force@ =~= old(self).previous_force@) by {
                            assert forall|q: int|
                                0 <= q < self.previous_force@.len() implies self.previous_force@[q]
                                == old(self).previous_force@[q] by {
                                assert(ints(self.previous_force@)[q] == self.previous_force@[q]
                                    as int);
                                assert(ints(old(self).previous_force@)[q] == old(
                                    self,
                                ).previous_force@[q] as int);
                            }
                        }
                    }
                    return Err(e);
                },
                Ok(()) => {},
            }
            proof {
                lemma_steps_snoc(cons0, objs0, *input, prev0, sub_dt as int, air_resistance,
                    k as nat);
                lemma_sub_step_masses(cons0, objs_k, *input, prev_k, sub_dt as int,
                    air_resistance);
                assert(self.scene_objects@ == sub_step_objects_s(cons0, objs_k, *input, prev_k,
                    sub_dt as int, air_resistance));
                assert(ints(self.previous_force@) == sub_step_force_s(cons0, objs_k, *input,
                    prev_k));
                assert((self.scene_objects@, ints(self.previous_force@)) == steps_s(
                    cons0,
                    objs0,
                    *input,
                    prev0,
                    sub_dt as int,
                    air_resistance,
                    (k + 1) as nat,
                ));
                assert(masses_positive_s(self.scene_objects@) <==> masses_positive_s(objs_k)) by {
                    if masses_positive_s(objs_k) {
                        assert forall|q: int| 0 <= q < self.scene_objects@.len() implies (
                        #[trigger] self.scene_objects@[q]).mass > 0 by {
                            assert(self.scene_objects@[q].mass == objs_k[q].mass);
                        }
                    }
                    if masses_positive_s(self.scene_objects@) {
                        assert forall|q: int| 0 <= q < objs_k.len() implies (#[trigger] objs_k[q]).mass
                            > 0 by {
                            assert(self.scene_objects@[q].mass == objs_k[q].mass);
                        }
                    }
                }
            }
            k += 1;
        }
        Ok(())
    }
}

/// With an empty constraint set and no drag gesture, one sub-step of a
/// particle with zero implicit velocity and an empty acceleration
/// accumulator advances its position by exactly `GRAVITY * dt * dt` on the
/// vertical axis and leaves the horizontal axis unchanged: no constraint
/// correction is applied.
pub proof fn lemma_free_fall_step(
    objects: Seq<Circle>,
    constraints: Seq<Constraint>,
    input: InputSnapshot,
    prev: Seq<int>,
    i: int,
    dt: int,
)
    requires
        constraints.len() == 0,
        !input.dragging,
        0 <= i < objects.len(),
        objects[i].wf(),
        objects[i].old_position == objects[i].position,
        objects[i].acceleration == (Vec2 { x: 0i64, y: 0i64 }),
        in_range(dt),
    ensures
        ({
            let cl = clamp_all_s(gravity_all_s(objects), input);
            let fin = integrate_all_s(forces_all_s(constraints, cl, input, prev), dt);
            &&& fin[i].position.x == objects[i].position.x
            &&& fin[i].position.y as int == fx_add_s(
                objects[i].position.y as int,
                fx_mul_s(fx_mul_s(GRAVITY as int, dt), dt),
            )
        }),
{
    let c = objects[i];
    let g = with_gravity_s(c);
    assert(g.acceleration.x == 0i64 && g.acceleration.y == GRAVITY);
    assert(g.position == c.position && g.old_position == c.position);
    let cl = clamp_all_s(gravity_all_s(objects), input);
    assert(cl[i] == g);
    let cf = constraint_force_s(constraints, cl, input, prev);
    assert(cf[2 * i] == 0 && cf[2 * i + 1] == 0) by {
        assert(jacobian_t_s(constraints, cl, input)[2 * i].len() == 0);
        assert(jacobian_t_s(constraints, cl, input)[2 * i + 1].len() == 0);
    }
    let fo = forces_all_s(constraints, cl, input, prev);
    assert(fo[i] == with_force_s(g, 0, 0));
    let fc = with_force_s(g, 0, 0);
    assert(fc.acceleration.x as int == 0);
    assert(fc.acceleration.y as int == GRAVITY as int);
    crate::fixed::lemma_fx_div_self(GRAVITY as int);
    crate::fixed::lemma_fx_mul_one(0);
    assert(coeff_s(GRAVITY as int, GRAVITY as int) == SCALE as int);
    assert(fx_sub_s(c.position.x as int, c.position.x as int) == 0);
    assert(fc.old_position.x as int == c.position.x as int);
    assert(fc.old_position.y as int == c.position.y as int);
    assert(fc.position == c.position);
    let fin = integrate_all_s(fo, dt);
    assert(fin[i] == integrated_s(fc, dt));
    assert(fx_mul_s(0, dt) == 0);
    assert(fx_mul_s(fx_mul_s(0, dt), dt) == 0);
    assert(fin[i].position.x as int == fx_add_s(fx_add_s(c.position.x as int, 0), 0));
    assert(fin[i].position.x == objects[i].position.x);
}

} // verus!
