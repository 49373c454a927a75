use verlet_solver::constraints::{Constraint, InputSnapshot, MouseFollow, ScreenEdge};
use verlet_solver::fixed::SCALE;
use verlet_solver::particle::{Circle, Vec2, REGION_HEIGHT, REGION_WIDTH};
use verlet_solver::solver::{
    spawn_circle, Solver, SolverError, AIR_DRAG, CAPTURE_RADIUS, GRAVITY,
};

fn fxm(a: i64, b: i64) -> i64 {
    ((a as i128) * (b as i128) / (SCALE as i128)) as i64
}

fn quiet_input() -> InputSnapshot {
    InputSnapshot {
        dragging: false,
        pointer: Vec2 { x: 0, y: 0 },
        width: REGION_WIDTH,
        height: REGION_HEIGHT,
    }
}

#[test]
fn free_fall_matches_the_closed_form_displacement() {
    // With an empty constraint set, one sub-step under gravity moves a
    // resting particle by exactly g * dt * dt, with no horizontal force.
    let mut s = Solver::new();
    s.add_object(Circle::new());
    let input = quiet_input();
    let dt = SCALE / 600;
    let p0 = s.scene_objects[0].get_position();
    assert!(s.sub_step(&input, dt, false).is_ok());
    let p1 = s.scene_objects[0].get_position();
    assert_eq!(p1.x, p0.x);
    assert_eq!(p1.y - p0.y, fxm(fxm(GRAVITY, dt), dt));
}

#[test]
fn ten_particles_settle_on_the_bottom_boundary() {
    let mut s = Solver::new();
    let samples: [(u64, u64); 10] = [
        (101, 7),
        (999983, 65537),
        (123456789, 42),
        (5, 888888),
        (31337, 2718281828),
        (777777777777, 161803),
        (271828, 314159265358),
        (99991, 3),
        (424242424242, 565656),
        (808017424794, 512977),
    ];
    let mut start_x = Vec::new();
    for &(rx, ry) in samples.iter() {
        let c = spawn_circle(rx, ry);
        start_x.push(c.position.x);
        s.add_object(c);
    }
    s.add_constraint(Constraint::ScreenEdge(ScreenEdge::new()));
    let input = quiet_input();
    let dt = SCALE / 600;
    for _ in 0..1500 {
        assert!(s.sub_step(&input, dt, false).is_ok());
    }
    let eps = 2 * SCALE;
    for (k, obj) in s.scene_objects.iter().enumerate() {
        // No horizontal force was ever applied: x is bit-for-bit unchanged.
        assert_eq!(obj.position.x, start_x[k], "particle {k} drifted sideways");
        let gap = obj.position.y - REGION_HEIGHT;
        assert!(
            gap.abs() <= eps,
            "particle {k} ended {gap} raw units from the bottom edge"
        );
    }
}

#[test]
fn a_zero_mass_particle_makes_the_solve_fail() {
    let mut s = Solver::new();
    let mut c = Circle::new();
    c.set_mass(0);
    s.add_object(c);
    s.add_constraint(Constraint::ScreenEdge(ScreenEdge::new()));
    let input = quiet_input();
    let before = s.scene_objects[0];
    assert_eq!(
        s.solve_constraints(&input),
        Err(SolverError::SingularMassMatrix)
    );
    // the failed solve touched nothing
    assert_eq!(s.scene_objects[0], before);
    // the whole sub-step reports the same fatal error
    assert_eq!(
        s.sub_step(&input, SCALE / 600, false),
        Err(SolverError::SingularMassMatrix)
    );
}

#[test]
fn a_positive_mass_scene_solves_cleanly() {
    let mut s = Solver::new();
    s.add_object(Circle::new());
    s.add_constraint(Constraint::ScreenEdge(ScreenEdge::new()));
    assert_eq!(s.solve_constraints(&quiet_input()), Ok(()));
    // the multiplier vector is retained as the next warm-start seed,
    // one entry per constraint
    assert_eq!(s.previous_force.len(), 1);
}

#[test]
fn the_drag_clamp_pulls_far_particles_onto_the_capture_circle() {
    let mut s = Solver::new();
    let mut c = Circle::new();
    let px = 320 * SCALE;
    let py = 240 * SCALE;
    // 200 units right of the pointer: outside the 100-unit capture circle.
    c.set_position(Vec2 { x: px + 200 * SCALE, y: py });
    c.set_old_position(Vec2 { x: px + 200 * SCALE, y: py });
    s.add_object(c);
    let input = InputSnapshot {
        dragging: true,
        pointer: Vec2 { x: px, y: py },
        width: REGION_WIDTH,
        height: REGION_HEIGHT,
    };
    s.apply_constraints(&input);
    let moved = s.scene_objects[0];
    assert_eq!(moved.position, Vec2 { x: px + CAPTURE_RADIUS, y: py });
    // half of the correction went into the previous position
    assert_eq!(
        moved.old_position,
        Vec2 { x: px + 200 * SCALE - 50 * SCALE, y: py }
    );
}

#[test]
fn the_drag_clamp_leaves_near_particles_alone() {
    let mut s = Solver::new();
    let mut c = Circle::new();
    c.set_position(Vec2 { x: 330 * SCALE, y: 240 * SCALE });
    c.set_old_position(Vec2 { x: 330 * SCALE, y: 240 * SCALE });
    s.add_object(c);
    let before = s.scene_objects[0];
    let input = InputSnapshot {
        dragging: true,
        pointer: Vec2 { x: 320 * SCALE, y: 240 * SCALE },
        width: REGION_WIDTH,
        height: REGION_HEIGHT,
    };
    s.apply_constraints(&input);
    assert_eq!(s.scene_objects[0], before);
    // and without a drag in progress nothing moves either
    let mut far = Circle::new();
    far.set_position(Vec2 { x: 620 * SCALE, y: 240 * SCALE });
    s.add_object(far);
    s.apply_constraints(&quiet_input());
    assert_eq!(s.scene_objects[1].position, Vec2 { x: 620 * SCALE, y: 240 * SCALE });
}

#[test]
fn air_resistance_nudges_the_previous_position() {
    let mut s = Solver::new();
    let mut c = Circle::new();
    let p = c.position;
    // implicit velocity of 10 units rightward
    c.set_old_position(Vec2 { x: p.x - 10 * SCALE, y: p.y });
    s.add_object(c);
    s.apply_air_resistance();
    let got = s.scene_objects[0];
    assert_eq!(got.position, p);
    assert_eq!(
        got.old_position.x,
        p.x - 10 * SCALE + fxm(10 * SCALE, AIR_DRAG)
    );
    assert_eq!(got.old_position.y, p.y);
}

#[test]
fn gravity_accumulates_only_on_the_vertical_axis() {
    let mut s = Solver::new();
    s.add_object(Circle::new());
    s.apply_gravity();
    s.apply_gravity();
    let a = s.scene_objects[0].get_acceleration();
    assert_eq!(a, Vec2 { x: 0, y: 2 * GRAVITY });
}

#[test]
fn populate_releases_particles_around_the_center() {
    let mut s = Solver::new();
    s.populate(10);
    assert_eq!(s.scene_objects.len(), 10);
    for obj in s.scene_objects.iter() {
        assert_eq!(obj.old_position, obj.position);
        assert_eq!(obj.mass, SCALE);
        assert_eq!(obj.acceleration, Vec2 { x: 0, y: 0 });
        assert!((obj.position.x - 320 * SCALE).abs() <= 150 * SCALE);
        assert!((obj.position.y - 240 * SCALE).abs() <= 40 * SCALE);
    }
}

#[test]
fn one_frame_equals_ten_sub_steps() {
    let samples: [(u64, u64); 3] = [(12, 34), (5678, 90), (777, 31415)];
    let mut a = Solver::new();
    let mut b = Solver::new();
    for &(rx, ry) in samples.iter() {
        a.add_object(spawn_circle(rx, ry));
        b.add_object(spawn_circle(rx, ry));
    }
    a.add_constraint(Constraint::ScreenEdge(ScreenEdge::new()));
    b.add_constraint(Constraint::ScreenEdge(ScreenEdge::new()));
    a.add_constraint(Constraint::MouseFollow(MouseFollow::new()));
    b.add_constraint(Constraint::MouseFollow(MouseFollow::new()));
    let input = quiet_input();
    let dt = SCALE / 60;
    assert!(a.step(&input, dt, true).is_ok());
    for _ in 0..10 {
        assert!(b.sub_step(&input, dt / 10, true).is_ok());
    }
    assert_eq!(a.scene_objects, b.scene_objects);
    assert_eq!(a.previous_force, b.previous_force);
}
