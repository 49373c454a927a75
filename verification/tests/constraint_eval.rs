use verlet_solver::constraints::{
    Constraint, InputSnapshot, MouseFollow, ScreenEdge, DAMPING,
};
use verlet_solver::fixed::SCALE;
use verlet_solver::particle::{Circle, Vec2, REGION_HEIGHT, REGION_WIDTH};

fn quiet_input() -> InputSnapshot {
    InputSnapshot {
        dragging: false,
        pointer: Vec2 { x: 0, y: 0 },
        width: REGION_WIDTH,
        height: REGION_HEIGHT,
    }
}

fn drag_input(px: i64, py: i64) -> InputSnapshot {
    InputSnapshot {
        dragging: true,
        pointer: Vec2 { x: px, y: py },
        width: REGION_WIDTH,
        height: REGION_HEIGHT,
    }
}

fn circle_at(x: i64, y: i64) -> Circle {
    let mut c = Circle::new();
    c.set_position(Vec2 { x, y });
    c.set_old_position(Vec2 { x, y });
    c
}

#[test]
fn boundary_residual_is_zero_strictly_inside() {
    let objs = vec![circle_at(320 * SCALE, 240 * SCALE)];
    let r = ScreenEdge::new().constraint(&objs, &quiet_input());
    assert_eq!(r, vec![0, 0]);
}

#[test]
fn boundary_residual_is_minus_delta_beyond_one_edge() {
    // 25 units beyond the right edge, vertically inside.
    let delta = 25 * SCALE;
    let objs = vec![circle_at(REGION_WIDTH + delta, 240 * SCALE)];
    let se = ScreenEdge::new();
    let r = se.constraint(&objs, &quiet_input());
    assert_eq!(r[0], -delta);
    assert_eq!(r[1], 0);
    // 7 units above the top edge, horizontally inside.
    let objs2 = vec![circle_at(320 * SCALE, -7 * SCALE)];
    let r2 = se.constraint(&objs2, &quiet_input());
    assert_eq!(r2[0], 0);
    assert_eq!(r2[1], 7 * SCALE);
}

#[test]
fn boundary_jacobian_carries_the_damped_violation_sign() {
    let se = ScreenEdge::new();
    let objs = vec![
        circle_at(-SCALE, 240 * SCALE),
        circle_at(REGION_WIDTH + SCALE, REGION_HEIGHT + SCALE),
        circle_at(320 * SCALE, 240 * SCALE),
    ];
    let j = se.jacobian(&objs, &quiet_input());
    assert_eq!(j, vec![-DAMPING, 0, DAMPING, DAMPING, 0, 0]);
    assert_eq!(DAMPING, SCALE / 2);
}

#[test]
fn boundary_is_inactive_while_dragging() {
    let objs = vec![circle_at(REGION_WIDTH + 25 * SCALE, 240 * SCALE)];
    let se = ScreenEdge::new();
    let input = drag_input(320 * SCALE, 240 * SCALE);
    assert_eq!(se.constraint(&objs, &input), vec![0, 0]);
    assert_eq!(se.jacobian(&objs, &input), vec![0, 0]);
}

#[test]
fn mouse_follow_is_inactive_without_a_drag() {
    let objs = vec![circle_at(REGION_WIDTH + 25 * SCALE, 240 * SCALE)];
    let mf = MouseFollow::new();
    assert_eq!(mf.constraint(&objs, &quiet_input()), vec![0, 0]);
    assert_eq!(mf.jacobian(&objs, &quiet_input()), vec![0, 0]);
}

#[test]
fn mouse_follow_recenters_the_region_on_the_pointer() {
    // Pointer at the region center: the recentered rectangle coincides with
    // the play area, so a particle 60 units beyond its right edge gets the
    // same residual the boundary would give.
    let input = drag_input(320 * SCALE, 240 * SCALE);
    let objs = vec![circle_at(REGION_WIDTH + 60 * SCALE, 240 * SCALE)];
    let mf = MouseFollow::new();
    let r = mf.constraint(&objs, &input);
    assert_eq!(r[0], -60 * SCALE);
    assert_eq!(r[1], 0);
    let j = mf.jacobian(&objs, &input);
    assert_eq!(j[0], DAMPING);
    assert_eq!(j[1], 0);
    // Pointer far to the left: the same particle position now sits inside
    // the recentered rectangle's right half but beyond its right edge by
    // more; shifted pointer shifts the residual.
    let input2 = drag_input(200 * SCALE, 240 * SCALE);
    let r2 = mf.constraint(&objs, &input2);
    assert_eq!(r2[0], -(180 * SCALE));
}

#[test]
fn constraint_enum_dispatches_to_its_evaluator() {
    let objs = vec![circle_at(REGION_WIDTH + 25 * SCALE, 240 * SCALE)];
    let input = quiet_input();
    let edge = Constraint::ScreenEdge(ScreenEdge::new());
    let follow = Constraint::MouseFollow(MouseFollow::new());
    assert_eq!(edge.constraint(&objs, &input)[0], -25 * SCALE);
    assert_eq!(edge.jacobian(&objs, &input)[0], DAMPING);
    assert_eq!(follow.constraint(&objs, &input), vec![0, 0]);
    assert_eq!(follow.jacobian(&objs, &input), vec![0, 0]);
}
