use fallingball::bar::{Bar, BarDirection, TimeBarMode, TimerBar};
use fallingball::units::VALUE_SCALE;

#[test]
fn new_bar_is_full_and_horizontal() {
    let b = Bar::new(0, 0, 102, 52);
    assert_eq!(b.get_value(), VALUE_SCALE);
    assert_eq!(b.direction, BarDirection::Horizontal);
    assert_eq!((b.rim_rect.x, b.rim_rect.y, b.rim_rect.w, b.rim_rect.h), (0, 0, 102, 52));
    assert_eq!(
        (b.value_rect.x, b.value_rect.y, b.value_rect.w, b.value_rect.h),
        (1, 1, 100, 50)
    );
}

#[test]
fn set_value_scales_the_filled_rectangle() {
    let mut b = Bar::new(0, 0, 102, 52);
    b.set_value(500);
    assert_eq!(b.get_value(), 500);
    // (102 - 1) * 500 / 1000, rounded toward zero
    assert_eq!(b.value_rect.w, 50);
    assert_eq!(b.value_rect.h, 50);
}

#[test]
fn out_of_range_value_is_silently_ignored() {
    let mut b = Bar::new(0, 0, 102, 52);
    b.set_value(500);
    let before = b;
    b.set_value(VALUE_SCALE + 1);
    assert_eq!(b.get_value(), 500);
    assert_eq!(b.value_rect, before.value_rect);
    // the boundary itself is accepted
    b.set_value(VALUE_SCALE);
    assert_eq!(b.get_value(), VALUE_SCALE);
}

#[test]
fn zero_value_hides_the_filled_rectangle() {
    let mut b = Bar::new(0, 0, 102, 52);
    b.set_value(0);
    assert!(!b.shows_value());
    b.set_value(1);
    assert!(b.shows_value());
}

#[test]
fn vertical_bars_fill_from_the_bottom() {
    let mut b = Bar::new(0, 0, 102, 52);
    b.set_value(0);
    b.set_direction(BarDirection::Vertical);
    // rim sides swap, the empty fill sits at the bottom edge
    assert_eq!((b.rim_rect.w, b.rim_rect.h), (52, 102));
    assert_eq!(b.value_rect.h, 0);
    assert_eq!(b.value_rect.y, 101);
    assert_eq!(b.value_rect.w, 50);
}

#[test]
fn timer_bar_mirrors_decrease_mode() {
    let mut tb = TimerBar::new(1000, 0, 0, 102, 52);
    assert_eq!(tb.mode, TimeBarMode::DecreaseAutoDisappear);
    tb.start(0);
    assert_eq!(tb.bar.get_value(), VALUE_SCALE);
    tb.update(300);
    assert_eq!(tb.get_value(), 300);
    assert_eq!(tb.bar.get_value(), 700);
}

#[test]
fn mode_switch_recomputes_the_mirrored_value_at_once() {
    let mut tb = TimerBar::new(1000, 0, 0, 102, 52);
    tb.start(0);
    tb.update(300);
    assert_eq!(tb.bar.get_value(), 700);
    tb.set_mode(TimeBarMode::Increase);
    assert_eq!(tb.bar.get_value(), 300);
}

#[test]
fn auto_disappear_bars_hide_while_stopped() {
    let mut tb = TimerBar::new(1000, 0, 0, 102, 52);
    assert!(!tb.is_visible());
    tb.start(0);
    assert!(tb.is_visible());
    tb.update(1500);
    assert!(tb.get_event());
    assert!(tb.is_stopped());
    assert!(!tb.is_visible());
    tb.set_mode(TimeBarMode::Decrease);
    assert!(tb.is_visible());
}

#[test]
fn timer_bar_pause_freezes_progress() {
    let mut tb = TimerBar::new(1000, 0, 0, 102, 52);
    tb.start(0);
    tb.update(400);
    tb.pause();
    assert!(tb.is_paused());
    tb.update(900);
    assert_eq!(tb.get_value(), 400);
}
