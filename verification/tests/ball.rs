use fallingball::ball::{Ball, BALL_HEIGHT_INIT};
use fallingball::units::VALUE_SCALE;

#[test]
fn new_ball_starts_alive_at_launch_height() {
    let b = Ball::new(10, (3, 4), (7, -3, 9));
    assert!(b.is_avtive());
    assert_eq!(b.get_pos(), (3, 4));
    assert_eq!(b.get_radius(), 10);
    assert_eq!(b.height, BALL_HEIGHT_INIT);
    assert_eq!((b.vx, b.vy, b.vz), (7, -3, 9));
}

#[test]
fn horizontal_displacement_is_exactly_velocity_times_time() {
    // planar velocity is untouched by gravity: after n steps of size dt
    // the displacement is exactly n * dt * v on each axis
    let mut b = Ball::new(10, (0, 0), (7, -3, 0));
    for _ in 0..10 {
        b.update(4);
    }
    assert_eq!(b.get_pos(), (10 * 4 * 7, 10 * 4 * -3));
    assert_eq!((b.vx, b.vy), (7, -3));
    // gravity of -3 per tick squared has meanwhile bent the height:
    // after step k the height velocity is -12k, so the height dropped by
    // 48 * (1 + 2 + ... + 10)
    assert_eq!(b.height, BALL_HEIGHT_INIT - 48 * 55);
    assert!(b.is_avtive());
    assert!(!b.is_on_ground());
}

#[test]
fn landing_happens_once_and_freezes_the_ball() {
    let mut b = Ball::new(5, (100, 100), (3, 3, -1_000_000));
    assert!(!b.is_on_ground());
    b.update(2);
    // one step took the height below zero: the ball is on the ground
    assert!(b.is_on_ground());
    assert_eq!(b.get_pos(), (106, 106));
    let landed = b;
    // further steps change nothing: landing is terminal for the flight
    b.update(2);
    b.update(1000);
    assert_eq!(b, landed);
}

#[test]
fn disabled_ball_does_not_integrate() {
    let mut b = Ball::new(5, (0, 0), (10, 10, 10));
    b.disable();
    assert!(!b.is_avtive());
    let frozen = b;
    b.update(5);
    assert_eq!(b, frozen);
}

#[test]
fn zero_direction_vector_is_silently_ignored() {
    let mut b = Ball::new(5, (0, 0), (30, 40, 0));
    let before = b;
    b.set_direction_vec((0, 0));
    assert_eq!(b, before);
}

#[test]
fn set_direction_vec_keeps_the_speed_along_the_new_direction() {
    // speed 50 pointed along the positive x axis
    let mut b = Ball::new(5, (0, 0), (30, 40, 0));
    b.set_direction_vec((7, 0));
    assert_eq!((b.vx, b.vy), (50, 0));
    // and along a negative axis
    b.set_direction_vec((0, -13));
    assert_eq!((b.vx, b.vy), (0, -50));
}

#[test]
fn restore_rearms_a_pooled_ball() {
    let mut b = Ball::new(5, (0, 0), (1, 1, 1));
    b.disable();
    b.restore(9, (50, 60), (2, 3, 4));
    assert!(b.is_avtive());
    assert_eq!(b.get_radius(), 9);
    assert_eq!(b.get_pos(), (50, 60));
    assert_eq!(b.height, BALL_HEIGHT_INIT);
    assert_eq!((b.vx, b.vy, b.vz), (2, 3, 4));
}

#[test]
fn draw_radius_grows_with_height() {
    let mut b = Ball::new(100, (0, 0), (0, 0, 0));
    b.height = 0;
    assert_eq!(b.get_draw_radius(), 100);
    b.height = 2_000_000;
    // (1 + 1.5) times the base radius at the top of the arc
    assert_eq!(b.get_draw_radius(), 250);
    b.height = 1_000_000;
    assert_eq!(b.get_draw_radius(), 175);
}

#[test]
fn draw_alpha_fades_with_height() {
    let mut b = Ball::new(100, (0, 0), (0, 0, 0));
    b.height = 0;
    assert_eq!(b.get_draw_alpha(), VALUE_SCALE);
    b.height = 2_000_000;
    assert_eq!(b.get_draw_alpha(), 900);
    b.height = 4_000_000;
    assert_eq!(b.get_draw_alpha(), 800);
}

#[test]
fn launch_power_is_capped_at_full() {
    assert_eq!(Ball::get_vel_alpha(0), 0);
    assert_eq!(Ball::get_vel_alpha(640), 640);
    assert_eq!(Ball::get_vel_alpha(VALUE_SCALE), VALUE_SCALE);
    assert_eq!(Ball::get_vel_alpha(VALUE_SCALE + 500), VALUE_SCALE);
}
