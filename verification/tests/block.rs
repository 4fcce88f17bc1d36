use fallingball::block::Block;

#[test]
fn new_block_lays_out_its_cell() {
    let b = Block::new(10_000, (1000, 2000), 100);
    // the body is inset by a tenth of the width, below the lifetime bar
    assert_eq!((b.rect.x, b.rect.y, b.rect.w, b.rect.h), (1010, 2020, 80, 80));
    assert!(b.is_stopped());
    assert_eq!(b.time_bar.get_value(), 1000);
}

#[test]
fn hit_on_the_center_counts() {
    let b = Block::new(10_000, (1000, 2000), 100);
    // visual center: (pos.x + width/2, pos.y + 3*width/5)
    assert!(b.is_hit_cricle((1050, 2060), 20));
}

#[test]
fn hit_boundary_at_equality_counts_beyond_it_misses() {
    let b = Block::new(10_000, (1000, 2000), 100);
    // combined radius: 20 + 48% of 100 = 68; a landing at exactly that
    // distance is a hit — the tie-break at equality counts as a hit
    assert!(b.is_hit_cricle((1050 + 68, 2060), 20));
    assert!(!b.is_hit_cricle((1050 + 69, 2060), 20));
    assert!(b.is_hit_cricle((1050, 2060 - 68), 20));
    assert!(!b.is_hit_cricle((1050, 2060 - 69), 20));
}

#[test]
fn far_away_points_miss() {
    let b = Block::new(10_000, (1000, 2000), 100);
    assert!(!b.is_hit_cricle((i64::MAX, 2060), 20));
    assert!(!b.is_hit_cricle((1050, i64::MIN), 20));
}

#[test]
fn contains_is_closed_on_the_edges() {
    let b = Block::new(10_000, (1000, 2000), 100);
    assert!(b.is_contains((1010, 2020)));
    assert!(b.is_contains((1090, 2100)));
    assert!(!b.is_contains((1009, 2020)));
    assert!(!b.is_contains((1010, 2101)));
}

#[test]
fn lifetime_runs_down_and_expires_once() {
    let mut b = Block::new(10_000, (0, 0), 100);
    b.start(0);
    assert!(!b.is_stopped());
    b.update(5000);
    assert!(!b.get_event());
    // the lifetime bar mirrors the remaining half
    assert_eq!(b.time_bar.get_value(), 500);
    b.update(10_050);
    assert!(b.get_event());
    assert!(!b.get_event());
    assert!(b.is_stopped());
}

#[test]
fn update_on_a_stopped_block_does_nothing() {
    let mut b = Block::new(10_000, (0, 0), 100);
    let frozen = b.timer_tick;
    b.update(7000);
    assert_eq!(b.timer_tick, frozen);
    assert_eq!(b.time_bar.get_value(), 1000);
}

#[test]
fn stop_destroys_the_block_early() {
    let mut b = Block::new(10_000, (0, 0), 100);
    b.start(0);
    b.update(100);
    b.stop();
    assert!(b.is_stopped());
    assert!(!b.get_event());
}

#[test]
fn restore_rearms_a_pooled_block() {
    let mut b = Block::new(10_000, (0, 0), 100);
    b.start(0);
    b.update(20_000);
    assert!(b.get_event());
    assert!(b.is_stopped());
    b.restore(10_000, (500, 600), 200);
    // still stopped until the next start, but re-armed for the new cell
    assert!(b.is_stopped());
    assert_eq!(b.pos, (500, 600));
    assert_eq!(b.width, 200);
    assert_eq!((b.rect.x, b.rect.y, b.rect.w, b.rect.h), (520, 640, 160, 160));
    assert_eq!(b.time_bar.get_value(), 1000);
    b.start(30_000);
    assert!(!b.is_stopped());
}
