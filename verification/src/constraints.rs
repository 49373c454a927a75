//! Holonomic constraint evaluators.
//!
//! Each evaluator produces, for the whole particle ensemble, a residual
//! vector and a Jacobian row of length `2 * N` (one entry per degree of
//! freedom).  Two evaluators exist: boundary containment, active while no
//! drag gesture is in progress, and drag-point follow, active while one is;
//! an inactive evaluator yields all zeros and so still occupies a Jacobian
//! row without contributing.

use vstd::prelude::*;
use crate::fixed::{clip, fx_add, fx_add_s, fx_sub, fx_sub_s, half, in_range, tdiv, LIM};
use crate::linalg::{vec_in_range, zeros};
use crate::particle::{vec2_in_range, Circle, Vec2, MAX_OBJECTS};

verus! {

/// Damping coefficient carried by active Jacobian entries: one half, in raw
/// scalar units.
pub const DAMPING: i64 = 536870912;

/// The per-frame external input snapshot: sampled once per displayed frame
/// and held constant across every sub-step within it.
#[derive(Clone, Copy, PartialEq, Eq, Structural, Debug)]
pub struct InputSnapshot {
    /// Whether the primary pointer button is down (a drag is in progress).
    pub dragging: bool,
    /// Pointer position, in raw scalar units.
    pub pointer: Vec2,
    /// Width of the play region, in raw scalar units.
    pub width: i64,
    /// Height of the play region, in raw scalar units.
    pub height: i64,
}

impl InputSnapshot {
    /// All carried scalars lie in the representable range.
    pub open spec fn wf(self) -> bool {
        &&& vec2_in_range(self.pointer)
        &&& in_range(self.width as int)
        &&& in_range(self.height as int)
    }
}

/// Residual of one axis against the interval `[lo, hi]`: zero inside, the
/// signed distance back to the nearest violated edge outside.
pub open spec fn edge_residual_s(p: int, lo: int, hi: int) -> int {
    if p < lo {
        clip(lo - p)
    } else if p > hi {
        clip(hi - p)
    } else {
        0
    }
}

/// Jacobian entry of one axis against `[lo, hi]`: the violation sign scaled
/// by the damping coefficient, zero inside.
pub open spec fn edge_jacobian_s(p: int, lo: int, hi: int) -> int {
    if p < lo {
        -(DAMPING as int)
    } else if p > hi {
        DAMPING as int
    } else {
        0
    }
}

/// Every particle is well-formed.
pub open spec fn objects_wf(objects: Seq<Circle>) -> bool {
    forall|i: int| 0 <= i < objects.len() ==> (#[trigger] objects[i]).wf()
}

/// Residual entry `k` of the boundary-containment evaluator over the fixed
/// rectangle `[0, width] x [0, height]`; all zeros while a drag is in
/// progress.
pub open spec fn screen_edge_residual_s(
    objects: Seq<Circle>,
    input: InputSnapshot,
    k: int,
) -> int {
    if input.dragging {
        0
    } else if k % 2 == 0 {
        edge_residual_s(objects[k / 2].position.x as int, 0, input.width as int)
    } else {
        edge_residual_s(objects[k / 2].position.y as int, 0, input.height as int)
    }
}

/// Jacobian entry `k` of the boundary-containment evaluator.
pub open spec fn screen_edge_jacobian_s(
    objects: Seq<Circle>,
    input: InputSnapshot,
    k: int,
) -> int {
    if input.dragging {
        0
    } else if k % 2 == 0 {
        edge_jacobian_s(objects[k / 2].position.x as int, 0, input.width as int)
    } else {
        edge_jacobian_s(objects[k / 2].position.y as int, 0, input.height as int)
    }
}

/// Left edge of the drag-follow region: the play rectangle recentered on
/// the pointer.
pub open spec fn follow_lo_x(input: InputSnapshot) -> int {
    fx_sub_s(input.pointer.x as int, tdiv(input.width as int, 2))
}

/// Right edge of the drag-follow region.
pub open spec fn follow_hi_x(input: InputSnapshot) -> int {
    fx_add_s(input.pointer.x as int, tdiv(input.width as int, 2))
}

/// Top edge of the drag-follow region.
pub open spec fn follow_lo_y(input: InputSnapshot) -> int {
    fx_sub_s(input.pointer.y as int, tdiv(input.height as int, 2))
}

/// Bottom edge of the drag-follow region.
pub open spec fn follow_hi_y(input: InputSnapshot) -> int {
    fx_add_s(input.pointer.y as int, tdiv(input.height as int, 2))
}

/// Residual entry `k` of the drag-point-follow evaluator; all zeros while
/// no drag is in progress.
pub open spec fn mouse_follow_residual_s(
    objects: Seq<Circle>,
    input: InputSnapshot,
    k: int,
) -> int {
    if !input.dragging {
        0
    } else if k % 2 == 0 {
        edge_residual_s(objects[k / 2].position.x as int, follow_lo_x(input), follow_hi_x(input))
    } else {
        edge_residual_s(objects[k / 2].position.y as int, follow_lo_y(input), follow_hi_y(input))
    }
}

/// Jacobian entry `k` of the drag-point-follow evaluator.
pub open spec fn mouse_follow_jacobian_s(
    objects: Seq<Circle>,
    input: InputSnapshot,
    k: int,
) -> int {
    if !input.dragging {
        0
    } else if k % 2 == 0 {
        edge_jacobian_s(objects[k / 2].position.x as int, follow_lo_x(input), follow_hi_x(input))
    } else {
        edge_jacobian_s(objects[k / 2].position.y as int, follow_lo_y(input), follow_hi_y(input))
    }
}

/// One axis of a residual evaluation.
fn edge_residual(p: i64, lo: i64, hi: i64) -> (r: i64)
    requires
        in_range(p as int),
        in_range(lo as int),
        in_range(hi as int),
    ensures
        r as int == edge_residual_s(p as int, lo as int, hi as int),
        in_range(r as int),
{
    if p < lo {
        fx_sub(lo, p)
    } else if p > hi {
        fx_sub(hi, p)
    } else {
        0
    }
}

/// One axis of a Jacobian evaluation.
fn edge_jacobian(p: i64, lo: i64, hi: i64) -> (r: i64)
    ensures
        r as int == edge_jacobian_s(p as int, lo as int, hi as int),
        in_range(r as int),
{
    if p < lo {
        -DAMPING
    } else if p > hi {
        DAMPING
    } else {
        0
    }
}

/// Boundary containment: keeps every particle inside the fixed play
/// rectangle while no drag gesture is in progress.
pub struct ScreenEdge {}

impl ScreenEdge {
    pub fn new() -> (r: ScreenEdge) {
        ScreenEdge {  }
    }

    /// The residual vector over all degrees of freedom.
    pub fn constraint(&self, scene_objects: &Vec<Circle>, input: &InputSnapshot) -> (r: Vec<i64>)
        requires
            scene_objects@.len() <= MAX_OBJECTS,
            objects_wf(scene_objects@),
            input.wf(),
        ensures
            r@.len() == 2 * scene_objects@.len(),
            vec_in_range(r@),
            forall|k: int|
                0 <= k < r@.len() ==> (#[trigger] r@[k]) as int == screen_edge_residual_s(
                    scene_objects@,
                    *input,
                    k,
                ),
    {
        if input.dragging {
            return zeros(2 * scene_objects.len());
        }
        let n = scene_objects.len();
        let mut r: Vec<i64> = Vec::new();
        let mut i: usize = 0;
        while i < n
            invariant
                i <= n,
                n == scene_objects@.len(),
                n <= MAX_OBJECTS,
                objects_wf(scene_objects@),
                input.wf(),
                !input.dragging,
                r@.len() == 2 * i,
                forall|k: int|
                    0 <= k < 2 * i ==> (#[trigger] r@[k]) as int == screen_edge_residual_s(
                        scene_objects@,
                        *input,
                        k,
                    ) && in_range(r@[k] as int),
            decreases n - i,
        {
            let obj = &scene_objects[i];
            r.push(edge_residual(obj.position.x, 0, input.width));
            r.push(edge_residual(obj.position.y, 0, input.height));
            proof {
                assert((2 * (i as int)) % 2 == 0);
                assert((2 * (i as int)) / 2 == i as int);
                assert((2 * (i as int) + 1) % 2 == 1);
                assert((2 * (i as int) + 1) / 2 == i as int);
            }
            i += 1;
        }
        r
    }

    /// The Jacobian row over all degrees of freedom.
    pub fn jacobian(&self, scene_objects: &Vec<Circle>, input: &InputSnapshot) -> (r: Vec<i64>)
        requires
            scene_objects@.len() <= MAX_OBJECTS,
            objects_wf(scene_objects@),
            input.wf(),
        ensures
            r@.len() == 2 * scene_objects@.len(),
            vec_in_range(r@),
            forall|k: int|
                0 <= k < r@.len() ==> (#[trigger] r@[k]) as int == screen_edge_jacobian_s(
                    scene_objects@,
                    *input,
                    k,
                ),
    {
        if input.dragging {
            return zeros(2 * scene_objects.len());
        }
        let n = scene_objects.len();
        let mut r: Vec<i64> = Vec::new();
        let mut i: usize = 0;
        while i < n
            invariant
                i <= n,
                n == scene_objects@.len(),
                n <= MAX_OBJECTS,
                objects_wf(scene_objects@),
                input.wf(),
                !input.dragging,
                r@.len() == 2 * i,
                forall|k: int|
                    0 <= k < 2 * i ==> (#[trigger] r@[k]) as int == screen_edge_jacobian_s(
                        scene_objects@,
                        *input,
                        k,
                    ) && in_range(r@[k] as int),
            decreases n - i,
        {
            let obj = &scene_objects[i];
            r.push(edge_jacobian(obj.position.x, 0, input.width));
            r.push(edge_jacobian(obj.position.y, 0, input.height));
            proof {
                assert((2 * (i as int)) % 2 == 0);
                assert((2 * (i as int)) / 2 == i as int);
                assert((2 * (i as int) + 1) % 2 == 1);
                assert((2 * (i as int) + 1) / 2 == i as int);
            }
            i += 1;
        }
        r
    }
}

/// Drag-point follow: pulls every particle toward the pointer while a drag
/// gesture is in progress, using the play rectangle recentered on the
/// pointer.
pub struct MouseFollow {}

impl MouseFollow {
    pub fn new() -> (r: MouseFollow) {
        MouseFollow {  }
    }

    /// The residual vector over all degrees of freedom.
    pub fn constraint(&self, scene_objects: &Vec<Circle>, input: &InputSnapshot) -> (r: Vec<i64>)
        requires
            scene_objects@.len() <= MAX_OBJECTS,
            objects_wf(scene_objects@),
            input.wf(),
        ensures
            r@.len() == 2 * scene_objects@.len(),
            vec_in_range(r@),
            forall|k: int|
                0 <= k < r@.len() ==> (#[trigger] r@[k]) as int == mouse_follow_residual_s(
                    scene_objects@,
                    *input,
                    k,
                ),
    {
        if !input.dragging {
            return zeros(2 * scene_objects.len());
        }
        let lo_x = fx_sub(input.pointer.x, half(input.width));
        let hi_x = fx_add(input.pointer.x, half(input.width));
        let lo_y = fx_sub(input.pointer.y, half(input.height));
        let hi_y = fx_add(input.pointer.y, half(input.height));
        let n = scene_objects.len();
        let mut r: Vec<i64> = Vec::new();
        let mut i: usize = 0;
        while i < n
            invariant
                i <= n,
                n == scene_objects@.len(),
                n <= MAX_OBJECTS,
                objects_wf(scene_objects@),
                input.wf(),
                input.dragging,
                lo_x as int == follow_lo_x(*input),
                hi_x as int == follow_hi_x(*input),
                lo_y as int == follow_lo_y(*input),
                hi_y as int == follow_hi_y(*input),
                in_range(lo_x as int),
                in_range(hi_x as int),
                in_range(lo_y as int),
                in_range(hi_y as int),
                r@.len() == 2 * i,
                forall|k: int|
                    0 <= k < 2 * i ==> (#[trigger] r@[k]) as int == mouse_follow_residual_s(
                        scene_objects@,
                        *input,
                        k,
                    ) && in_range(r@[k] as int),
            decreases n - i,
        {
            let obj = &scene_objects[i];
            r.push(edge_residual(obj.position.x, lo_x, hi_x));
            r.push(edge_residual(obj.position.y, lo_y, hi_y));
            proof {
                assert((2 * (i as int)) % 2 == 0);
                assert((2 * (i as int)) / 2 == i as int);
                assert((2 * (i as int) + 1) % 2 == 1);
                assert((2 * (i as int) + 1) / 2 == i as int);
            }
            i += 1;
        }
        r
    }

    /// The Jacobian row over all degrees of freedom.
    pub fn jacobian(&self, scene_objects: &Vec<Circle>, input: &InputSnapshot) -> (r: Vec<i64>)
        requires
            scene_objects@.len() <= MAX_OBJECTS,
            objects_wf(scene_objects@),
            input.wf(),
        ensures
            r@.len() == 2 * scene_objects@.len(),
            vec_in_range(r@),
            forall|k: int|
                0 <= k < r@.len() ==> (#[trigger] r@[k]) as int == mouse_follow_jacobian_s(
                    scene_objects@,
                    *input,
                    k,
                ),
    {
        if !input.dragging {
            return zeros(2 * scene_objects.len());
        }
        let lo_x = fx_sub(input.pointer.x, half(input.width));
        let hi_x = fx_add(input.pointer.x, half(input.width));
        let lo_y = fx_sub(input.pointer.y, half(input.height));
        let hi_y = fx_add(input.pointer.y, half(input.height));
        let n = scene_objects.len();
        let mut r: Vec<i64> = Vec::new();
        let mut i: usize = 0;
        while i < n
            invariant
                i <= n,
                n == scene_objects@.len(),
                n <= MAX_OBJECTS,
                objects_wf(scene_objects@),
                input.wf(),
                input.dragging,
                lo_x as int == follow_lo_x(*input),
                hi_x as int == follow_hi_x(*input),
                lo_y as int == follow_lo_y(*input),
                hi_y as int == follow_hi_y(*input),
                r@.len() == 2 * i,
                forall|k: int|
                    0 <= k < 2 * i ==> (#[trigger] r@[k]) as int == mouse_follow_jacobian_s(
                        scene_objects@,
                        *input,
                        k,
                    ) && in_range(r@[k] as int),
            decreases n - i,
        {
            let obj = &scene_objects[i];
            r.push(edge_jacobian(obj.position.x, lo_x, hi_x));
            r.push(edge_jacobian(obj.position.y, lo_y, hi_y));
            proof {
                assert((2 * (i as int)) % 2 == 0);
                assert((2 * (i as int)) / 2 == i as int);
                assert((2 * (i as int) + 1) % 2 == 1);
                assert((2 * (i as int) + 1) / 2 == i as int);
            }
            i += 1;
        }
        r
    }
}

/// The closed set of constraint evaluators, dispatched by an explicit
/// match.
pub enum Constraint {
    ScreenEdge(ScreenEdge),
    MouseFollow(MouseFollow),
}

/// Residual entry `k` of a constraint evaluator.
pub open spec fn constraint_residual_s(
    c: Constraint,
    objects: Seq<Circle>,
    input: InputSnapshot,
    k: int,
) -> int {
    match c {
        Constraint::ScreenEdge(_) => screen_edge_residual_s(objects, input, k),
        Constraint::MouseFollow(_) => mouse_follow_residual_s(objects, input, k),
    }
}

/// Jacobian entry `k` of a constraint evaluator.
pub open spec fn constraint_jacobian_s(
    c: Constraint,
    objects: Seq<Circle>,
    input: InputSnapshot,
    k: int,
) -> int {
    match c {
        Constraint::ScreenEdge(_) => screen_edge_jacobian_s(objects, input, k),
        Constraint::MouseFollow(_) => mouse_follow_jacobian_s(objects, input, k),
    }
}

impl Constraint {
    /// The residual vector of this evaluator.
    pub fn constraint(&self, scene_objects: &Vec<Circle>, input: &InputSnapshot) -> (r: Vec<i64>)
        requires
            scene_objects@.len() <= MAX_OBJECTS,
            objects_wf(scene_objects@),
            input.wf(),
        ensures
            r@.len() == 2 * scene_objects@.len(),
            vec_in_range(r@),
            forall|k: int|
                0 <= k < r@.len() ==> (#[trigger] r@[k]) as int == constraint_residual_s(
                    *self,
                    scene_objects@,
                    *input,
                    k,
                ),
    {
        match self {
            Constraint::ScreenEdge(c) => c.constraint(scene_objects, input),
            Constraint::MouseFollow(c) => c.constraint(scene_objects, input),
        }
    }

    /// The Jacobian row of this evaluator.
    pub fn jacobian(&self, scene_objects: &Vec<Circle>, input: &InputSnapshot) -> (r: Vec<i64>)
        requires
            scene_objects@.len() <= MAX_OBJECTS,
            objects_wf(scene_objects@),
            input.wf(),
        ensures
            r@.len() == 2 * scene_objects@.len(),
            vec_in_range(r@),
            forall|k: int|
                0 <= k < r@.len() ==> (#[trigger] r@[k]) as int == constraint_jacobian_s(
                    *self,
                    scene_objects@,
                    *input,
                    k,
                ),
    {
        match self {
            Constraint::ScreenEdge(c) => c.jacobian(scene_objects, input),
            Constraint::MouseFollow(c) => c.jacobian(scene_objects, input),
        }
    }
}

/// A particle on or inside the play rectangle contributes a zero residual
/// on both of its axes while no drag is in progress.
pub proof fn lemma_boundary_inside(objects: Seq<Circle>, input: InputSnapshot, i: int)
    requires
        !input.dragging,
        0 <= i < objects.len(),
        0 <= objects[i].position.x as int <= input.width as int,
        0 <= objects[i].position.y as int <= input.height as int,
    ensures
        screen_edge_residual_s(objects, input, 2 * i) == 0,
        screen_edge_residual_s(objects, input, 2 * i + 1) == 0,
{
    assert((2 * i) % 2 == 0);
    assert((2 * i) / 2 == i);
    assert((2 * i + 1) % 2 == 1);
    assert((2 * i + 1) / 2 == i);
}

/// A particle displaced `delta` beyond the right edge contributes a
/// residual of exactly `-delta` on its horizontal axis, and zero on the
/// vertical axis while that one stays inside.
pub proof fn lemma_boundary_violation(objects: Seq<Circle>, input: InputSnapshot, i: int, delta: int)
    requires
        !input.dragging,
        0 <= i < objects.len(),
        0 <= input.width as int,
        0 < delta <= LIM as int,
        objects[i].position.x as int == input.width as int + delta,
        0 <= objects[i].position.y as int <= input.height as int,
    ensures
        screen_edge_residual_s(objects, input, 2 * i) == -delta,
        screen_edge_residual_s(objects, input, 2 * i + 1) == 0,
{
    assert((2 * i) % 2 == 0);
    assert((2 * i) / 2 == i);
    assert((2 * i + 1) % 2 == 1);
    assert((2 * i + 1) / 2 == i);
}

} // verus!
