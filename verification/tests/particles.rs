use verlet_solver::fixed::SCALE;
use verlet_solver::particle::{
    Circle, Vec2, REGION_CENTER_X, REGION_CENTER_Y,
};

fn fxm(a: i64, b: i64) -> i64 {
    ((a as i128) * (b as i128) / (SCALE as i128)) as i64
}

#[test]
fn a_new_circle_rests_at_the_region_center() {
    let c = Circle::new();
    assert_eq!(c.position, Vec2 { x: REGION_CENTER_X, y: REGION_CENTER_Y });
    assert_eq!(c.old_position, c.position);
    assert_eq!(c.acceleration, Vec2 { x: 0, y: 0 });
    assert_eq!(c.mass, SCALE);
    assert_eq!(c.radius, 5 * SCALE);
    assert_eq!(Circle::default(), c);
}

#[test]
fn accelerate_accumulates_over_calls() {
    let mut c = Circle::new();
    c.accelerate(Vec2 { x: 3, y: -4 });
    c.accelerate(Vec2 { x: 10, y: 40 });
    assert_eq!(c.get_acceleration(), Vec2 { x: 13, y: 36 });
}

#[test]
fn update_advances_by_velocity_plus_acceleration() {
    let mut c = Circle::new();
    let p0 = c.position;
    // give it an implicit velocity of (2, -1) units
    c.set_old_position(Vec2 { x: p0.x - 2 * SCALE, y: p0.y + SCALE });
    c.set_acceleration(Vec2 { x: 0, y: 128 * SCALE });
    let dt = SCALE / 128;  // exactly representable
    c.update(dt);
    assert_eq!(c.old_position, p0);
    assert_eq!(c.position.x, p0.x + 2 * SCALE);
    let acc_term = fxm(fxm(128 * SCALE, dt), dt);  // 128 / 128 / 128 == 1/128
    assert_eq!(acc_term, SCALE / 128);
    assert_eq!(c.position.y, p0.y - SCALE + acc_term);
    assert_eq!(c.acceleration, Vec2 { x: 0, y: 0 });
}

#[test]
fn uniform_motion_keeps_the_implicit_velocity() {
    let mut c = Circle::new();
    let v = Vec2 { x: 3 * SCALE, y: -2 * SCALE };
    c.set_old_position(Vec2 { x: c.position.x - v.x, y: c.position.y - v.y });
    for _ in 0..50 {
        assert_eq!(c.get_velocity(), v);
        c.update(SCALE / 60);
    }
    assert_eq!(c.get_velocity(), v);
}

#[test]
fn velocity_is_position_minus_previous_position() {
    let mut c = Circle::new();
    c.set_position(Vec2 { x: 7 * SCALE, y: 9 * SCALE });
    c.set_old_position(Vec2 { x: 5 * SCALE, y: 10 * SCALE });
    assert_eq!(c.get_velocity(), Vec2 { x: 2 * SCALE, y: -SCALE });
}

#[test]
fn getters_and_setters_agree() {
    let mut c = Circle::new();
    c.set_mass(2 * SCALE);
    assert_eq!(c.get_mass(), 2 * SCALE);
    c.set_position(Vec2 { x: 1, y: 2 });
    assert_eq!(c.get_position(), Vec2 { x: 1, y: 2 });
    c.set_old_position(Vec2 { x: 3, y: 4 });
    assert_eq!(c.get_old_position(), Vec2 { x: 3, y: 4 });
    c.set_acceleration(Vec2 { x: 5, y: 6 });
    assert_eq!(c.get_acceleration(), Vec2 { x: 5, y: 6 });
    *c.get_position_mut() = Vec2 { x: 8, y: 9 };
    assert_eq!(c.get_position(), Vec2 { x: 8, y: 9 });
    *c.get_old_position_mut() = Vec2 { x: 10, y: 11 };
    assert_eq!(c.get_old_position(), Vec2 { x: 10, y: 11 });
    *c.get_acceleration_mut() = Vec2 { x: 12, y: 13 };
    assert_eq!(c.get_acceleration(), Vec2 { x: 12, y: 13 });
}

#[test]
fn draw_requests_divide_the_scaling_back_out() {
    let mut c = Circle::new();
    c.set_position(Vec2 { x: 100 * SCALE + SCALE / 3, y: 200 * SCALE });
    let d = c.draw_request();
    assert_eq!(d.x, 100);
    assert_eq!(d.y, 200);
    assert_eq!(d.radius, 5);
}
