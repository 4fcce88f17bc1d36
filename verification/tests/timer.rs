use fallingball::timer::Timer;
use fallingball::units::VALUE_SCALE;

#[test]
fn new_timer_is_stopped_with_zero_progress() {
    let t = Timer::new(1000);
    assert!(t.is_stopped());
    assert!(!t.is_paused());
    assert!(!t.on_start());
    assert_eq!(t.get_value(), 0);
}

#[test]
fn halfway_progress_is_exactly_one_half() {
    let mut t = Timer::new(1000);
    t.start(500);
    t.update(500 + 500);
    assert_eq!(t.get_value(), VALUE_SCALE / 2);
    assert!(!t.get_event());
    assert!(t.on_start());
}

#[test]
fn update_at_full_duration_does_not_fire() {
    let mut t = Timer::new(1000);
    t.start(0);
    t.update(1000);
    assert_eq!(t.get_value(), VALUE_SCALE);
    assert!(!t.get_event());
}

#[test]
fn fires_once_past_duration_and_event_is_consumed_once() {
    let mut t = Timer::new(1000);
    t.start(500);
    t.update(500 + 1010);
    assert!(t.get_event());
    assert!(!t.get_event());
    t.update(500 + 2000);
    assert!(!t.get_event());
    assert!(t.is_stopped());
    t.start(3000);
    assert!(!t.get_event());
    assert!(t.on_start());
    assert_eq!(t.get_value(), 0);
}

#[test]
fn restore_resets_value_but_keeps_run_state_and_clock() {
    let mut t = Timer::new(1000);
    t.start(0);
    t.update(600);
    assert_eq!(t.get_value(), 600);
    t.restore(2000);
    assert_eq!(t.get_value(), 0);
    assert!(t.on_start());
    assert!(!t.is_stopped());
    assert!(!t.is_paused());
    // the clock origin is untouched: elapsed-so-far counts against the
    // new duration at the very next update
    t.update(600);
    assert_eq!(t.get_value(), 300);
}

#[test]
fn restore_while_stopped_stays_stopped() {
    let mut t = Timer::new(1000);
    t.restore(500);
    assert!(t.is_stopped());
    assert_eq!(t.get_value(), 0);
}

#[test]
fn pause_resume_counts_only_unpaused_time() {
    let mut t = Timer::new(1000);
    t.start(0);
    t.update(300);
    assert_eq!(t.get_value(), 300);
    t.pause_triggle();
    assert!(t.is_paused());
    t.update(700);
    assert_eq!(t.get_value(), 300);
    t.pause_triggle();
    assert!(t.on_start());
    t.update(900);
    // 300 ticks before the pause, 200 after the resume
    assert_eq!(t.get_value(), 500);
}

#[test]
fn pausing_twice_in_a_row_is_a_no_op() {
    let mut t = Timer::new(1000);
    t.start(0);
    t.update(250);
    t.pause();
    let once = t;
    t.pause();
    assert_eq!(t, once);
    assert!(t.is_paused());
}

#[test]
fn pausing_a_stopped_timer_is_a_no_op() {
    let mut t = Timer::new(1000);
    assert!(t.is_stopped());
    t.pause();
    assert!(t.is_stopped());
    assert!(!t.is_paused());
}

#[test]
fn stop_silences_the_event() {
    let mut t = Timer::new(100);
    t.start(0);
    t.update(250);
    t.stop();
    assert!(t.is_stopped());
    assert!(!t.get_event());
}

#[test]
fn update_before_the_origin_counts_nothing() {
    let mut t = Timer::new(1000);
    t.start(800);
    t.update(700);
    assert_eq!(t.get_value(), 0);
    assert!(!t.get_event());
}
