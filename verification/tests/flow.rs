use fallingball::game::{GameState, GameStatus, PointerUpAction, SHORT_GENERATE};
use fallingball::timer::Timer;

const W: i64 = 800_000;
const H: i64 = 800_000;

#[test]
fn scheduler_spawns_the_first_block_on_its_own() {
    let mut gs = GameState::new(W, H, 21);
    assert_eq!(gs.mouse_button_up_event(true, 0, 0, 0), PointerUpAction::Restarted);
    assert_eq!(gs.block_generate_time_ticker.duration, SHORT_GENERATE);
    // the short interval fires within the first few frames
    let mut now: u64 = 0;
    while gs.block_list.is_empty() {
        now += 50;
        assert!(now <= 500, "the first spawn is due just after {SHORT_GENERATE} ticks");
        gs.update_running(now, 50);
    }
    assert_eq!(gs.block_list.len(), 1);
    // after the spawn the scheduler is re-armed and running again
    assert!(gs.block_generate_time_ticker.on_start());
    assert!(gs.block_generate_time_ticker.duration >= 5000);
}

#[test]
fn geometry_is_derived_from_the_window() {
    let gs = GameState::new(W, H, 22);
    assert_eq!(gs.delta_length, 50_000);
    assert_eq!(gs.get_left_point(), 200_000);
    // isqrt((4 * 50000)^2 + (14 * 50000)^2)
    assert_eq!(gs.get_ball_max_range(), 728_010);
    assert_eq!(gs.get_ball_max_vel(), 485);
    // slot 0 sits at the grid's top left, slot 9 one cell in and down
    assert_eq!(gs.slot_pos(0), (200_000, 100_000));
    assert_eq!(gs.slot_pos(9), (250_000, 150_000));
}

#[test]
fn power_full_cue_fires_when_the_charge_tops_out() {
    let mut gs = GameState::new(W, H, 23);
    assert_eq!(gs.mouse_button_up_event(true, 0, 0, 0), PointerUpAction::Restarted);
    assert!(gs.mouse_button_down_event(true, 0));
    let cues = gs.update_running(500, 20);
    assert!(!cues.power_full);
    let cues = gs.update_running(1100, 20);
    assert!(cues.power_full);
    // the cue is edge-triggered: it does not repeat
    let cues = gs.update_running(1200, 20);
    assert!(!cues.power_full);
}

#[test]
fn pause_triggle_toggles_between_running_and_paused() {
    let mut t = Timer::new(1000);
    t.start(0);
    assert!(t.on_start());
    t.pause_triggle();
    assert!(t.is_paused());
    assert!(!t.on_start());
    t.pause_triggle();
    assert!(t.on_start());
}

#[test]
fn restart_keeps_the_ball_pool_but_resets_the_board() {
    let mut gs = GameState::new(W, H, 24);
    assert_eq!(gs.mouse_button_up_event(true, 0, 0, 0), PointerUpAction::Restarted);
    assert!(gs.mouse_button_down_event(true, 10));
    assert_eq!(gs.mouse_button_up_event(true, 0, 0, 400), PointerUpAction::Shot);
    gs.random_block(500);
    // force the end of the run and restart
    gs.left = 1;
    let mut now: u64 = 500;
    while gs.status == GameStatus::Running {
        now += 50;
        assert!(now < 60_000);
        gs.update_running(now, 50);
    }
    assert_eq!(gs.mouse_button_up_event(true, 0, 0, now + 10), PointerUpAction::Restarted);
    assert_eq!(gs.ball_list.len(), 1);
    assert!(gs.block_list.iter().all(|b| b.block.is_stopped()));
    assert!(gs.block_index.iter().all(|&o| !o));
}
