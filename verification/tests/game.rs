use fallingball::ball::{Ball, BALL_HEIGHT_INIT};
use fallingball::bar::{BarDirection, TimeBarMode};
use fallingball::game::{
    GameState, GameStatus, LandingCue, PointerUpAction, StateBall, BLOCK_ALIVE, BLOCK_NUM,
    SHORT_GENERATE, START_LIVES,
};
use fallingball::timer::Timer;

const W: i64 = 800_000;
const H: i64 = 800_000;

fn running_game(seed: u64) -> GameState {
    let mut gs = GameState::new(W, H, seed);
    let action = gs.mouse_button_up_event(true, 0, 0, 0);
    assert_eq!(action, PointerUpAction::Restarted);
    assert_eq!(gs.status, GameStatus::Running);
    gs
}

#[test]
fn new_game_is_ready_with_an_empty_board() {
    let gs = GameState::new(W, H, 1);
    assert_eq!(gs.status, GameStatus::Ready);
    assert_eq!(gs.score, 0);
    assert_eq!(gs.left, START_LIVES);
    assert_eq!(gs.delta_length, H / 16);
    assert!(gs.block_list.is_empty());
    assert!(gs.ball_list.is_empty());
    assert_eq!(gs.block_index.len(), BLOCK_NUM);
    assert!(gs.block_index.iter().all(|&o| !o));
    assert_eq!(gs.block_generate_time_ticker.duration, SHORT_GENERATE);
    assert_eq!(gs.power_record_bar.mode, TimeBarMode::Increase);
    assert_eq!(gs.power_record_bar.bar.direction, BarDirection::Vertical);
}

#[test]
fn spawn_fills_a_free_slot_and_rearms_the_scheduler() {
    let mut gs = running_game(3);
    gs.random_block(100);
    assert_eq!(gs.block_list.len(), 1);
    let sb = &gs.block_list[0];
    assert!(!sb.block.is_stopped());
    assert!(sb.index < BLOCK_NUM);
    assert!(gs.block_index[sb.index]);
    assert_eq!(gs.block_index.iter().filter(|&&o| o).count(), 1);
    assert_eq!(sb.block.width, gs.delta_length);
    assert_eq!(sb.block.pos, gs.slot_pos(sb.index));
    // one slot occupied: the next interval is drawn from [5000, 8000)
    gs.restore_timer();
    let d = gs.block_generate_time_ticker.duration;
    assert!((5000..8000).contains(&d));
}

#[test]
fn spawn_reuses_a_stopped_block_without_allocating() {
    let mut gs = running_game(4);
    gs.random_block(0);
    assert_eq!(gs.block_list.len(), 1);
    gs.block_list[0].block.stop();
    // the very next spawn reuses the stopped entry, and its lifetime
    // timer reports not-stopped right after the reused spawn's start
    gs.random_block(1000);
    assert_eq!(gs.block_list.len(), 1);
    assert!(!gs.block_list[0].block.is_stopped());
    assert_eq!(gs.block_index.iter().filter(|&&o| o).count(), 2);
}

#[test]
fn spawn_allocates_while_no_entry_is_free() {
    let mut gs = running_game(5);
    gs.random_block(0);
    gs.random_block(10);
    assert_eq!(gs.block_list.len(), 2);
    assert_ne!(gs.block_list[0].index, gs.block_list[1].index);
}

#[test]
fn full_charge_launches_at_exactly_the_maximum_speed() {
    let mut gs = running_game(6);
    assert!(gs.mouse_button_down_event(true, 0));
    // held from 0 to 1000 with a charge duration of 1000: full power
    let action = gs.mouse_button_up_event(true, W / 2, 0, 1000);
    assert_eq!(action, PointerUpAction::Shot);
    assert_eq!(gs.ball_list.len(), 1);
    let b = &gs.ball_list[0].ball;
    // straight-up drag: the planar speed is the maximum-range speed,
    // exactly: isqrt((4*50000)^2 + (14*50000)^2) / 1500 = 485
    assert_eq!(gs.get_ball_max_vel(), 485);
    assert_eq!((b.vx, b.vy), (0, -485));
    // a full charge adds 2 height units per tick of height velocity
    assert_eq!(b.vz, 2000);
    assert!(b.is_avtive());
    assert_eq!(b.height, BALL_HEIGHT_INIT);
    // the launch cooldown is running now: a second release is ignored
    let second = gs.mouse_button_up_event(true, W / 2, 0, 1010);
    assert_eq!(second, PointerUpAction::Ignored);
}

#[test]
fn half_charge_launches_at_half_speed() {
    let mut gs = running_game(7);
    assert!(gs.mouse_button_down_event(true, 0));
    let action = gs.mouse_button_up_event(true, W / 2, 0, 500);
    assert_eq!(action, PointerUpAction::Shot);
    let b = &gs.ball_list[0].ball;
    assert_eq!((b.vx, b.vy), (0, -(485 * 500 / 1000)));
    assert_eq!(b.vz, 1000);
}

#[test]
fn release_on_the_launch_point_throws_nothing() {
    let mut gs = running_game(8);
    assert!(gs.mouse_button_down_event(true, 0));
    let action = gs.mouse_button_up_event(true, W / 2, H, 400);
    assert_eq!(action, PointerUpAction::Shot);
    assert!(gs.ball_list.is_empty());
}

#[test]
fn launch_reuses_an_inactive_ball() {
    let mut gs = running_game(9);
    assert!(gs.mouse_button_down_event(true, 0));
    assert_eq!(gs.mouse_button_up_event(true, 0, 0, 300), PointerUpAction::Shot);
    assert_eq!(gs.ball_list.len(), 1);
    gs.ball_list[0].ball.disable();
    // let the launch cooldown (1000 ticks from the shot) run out
    gs.ball_ready_timer.update(1400);
    assert!(gs.ball_ready_timer.get_event());
    assert!(gs.ball_ready_timer.is_stopped());
    let now = 1500;
    assert!(gs.mouse_button_down_event(true, now));
    assert_eq!(gs.mouse_button_up_event(true, 0, 0, now + 200), PointerUpAction::Shot);
    assert_eq!(gs.ball_list.len(), 1);
    assert!(gs.ball_list[0].ball.is_avtive());
}

#[test]
fn find_hit_block_picks_the_first_live_hit() {
    let mut gs = running_game(10);
    gs.random_block(0);
    let blk = gs.block_list[0].block;
    let center = (blk.pos.0 + blk.width / 2, blk.pos.1 + 3 * blk.width / 5);
    assert_eq!(gs.find_hit_block(center, 0), Some(0));
    // width 50000: the combined radius for a point ball is 24000, and
    // the boundary itself still hits
    assert_eq!(gs.find_hit_block((center.0 + 24_000, center.1), 0), Some(0));
    assert_eq!(gs.find_hit_block((center.0 + 24_001, center.1), 0), None);
    // a stopped block is never hit
    gs.block_list[0].block.stop();
    assert_eq!(gs.find_hit_block(center, 0), None);
}

#[test]
fn landing_on_a_block_scores_and_frees_its_slot() {
    let mut gs = running_game(11);
    gs.random_block(0);
    let blk = gs.block_list[0].block;
    let slot = gs.block_list[0].index;
    let center = (blk.pos.0 + blk.width / 2, blk.pos.1 + 3 * blk.width / 5);
    let mut ball = Ball::new(10, center, (0, 0, 0));
    ball.height = 0;
    gs.ball_list.push(StateBall { ball, extra_live_timer: Timer::new(500) });
    let cues = gs.update_running(10, 0);
    assert_eq!(cues.landing, LandingCue::Boom);
    assert_eq!(gs.score, 1);
    assert!(gs.block_list[0].block.is_stopped());
    assert!(!gs.block_index[slot]);
    assert!(!gs.ball_list[0].ball.is_avtive());
    assert_eq!(gs.left, START_LIVES);
}

#[test]
fn landing_far_from_every_block_misses() {
    let mut gs = running_game(12);
    gs.random_block(0);
    let mut ball = Ball::new(1, (-400_000, -400_000), (0, 0, 0));
    ball.height = 0;
    gs.ball_list.push(StateBall { ball, extra_live_timer: Timer::new(500) });
    let cues = gs.update_running(10, 0);
    assert_eq!(cues.landing, LandingCue::Miss);
    assert_eq!(gs.score, 0);
    assert!(!gs.block_list[0].block.is_stopped());
    // the missed ball stays visible on its extra-life timer
    assert!(!gs.ball_list[0].ball.is_avtive());
    assert!(!gs.ball_list[0].extra_live_timer.is_stopped());
    // and the landing is resolved only once: the next tick is quiet
    let cues = gs.update_running(20, 0);
    assert_eq!(cues.landing, LandingCue::Quiet);
}

#[test]
fn five_expiries_end_the_game_and_stop_the_scheduler() {
    let mut gs = running_game(13);
    let mut now: u64 = 0;
    while gs.status == GameStatus::Running {
        now += 50;
        assert!(now < 200_000, "the game should have ended by now");
        gs.update_running(now, 50);
    }
    assert_eq!(gs.status, GameStatus::GameOver);
    assert_eq!(gs.left, 0);
    assert_eq!(gs.score, 0);
    assert!(gs.block_generate_time_ticker.is_stopped());
    assert!(gs.ball_ready_timer.is_stopped());
    // no further block ever appears: the pool stops growing and, once
    // the survivors run out, every entry stays stopped for good
    let pool = gs.block_list.len();
    for _ in 0..400 {
        now += 50;
        gs.update_running(now, 50);
    }
    assert_eq!(gs.block_list.len(), pool);
    assert!(gs.block_list.iter().all(|b| b.block.is_stopped()));
    assert!(gs.block_index.iter().all(|&o| !o));
    // a click restarts with a clean board and full lives
    let action = gs.mouse_button_up_event(true, 0, 0, now);
    assert_eq!(action, PointerUpAction::Restarted);
    assert_eq!(gs.status, GameStatus::Running);
    assert_eq!(gs.left, START_LIVES);
    assert_eq!(gs.score, 0);
    assert!(gs.block_index.iter().all(|&o| !o));
}

#[test]
fn lives_do_not_change_outside_running() {
    let mut gs = GameState::new(W, H, 14);
    // a block expiring while the game is Ready costs nothing
    gs.random_block(0);
    for step in 1..=300u64 {
        gs.update_running(step * 50, 50);
    }
    assert_eq!(gs.status, GameStatus::Ready);
    assert_eq!(gs.left, START_LIVES);
    assert!(gs.block_list[0].block.is_stopped());
}

#[test]
fn expiry_costs_a_life_while_running() {
    let mut gs = running_game(15);
    gs.random_block(0);
    let slot = gs.block_list[0].index;
    // run just past the block's lifetime, short of any new spawn
    let mut now: u64 = 0;
    while now < BLOCK_ALIVE + 100 {
        now += 50;
        gs.update_running(now, 50);
    }
    assert!(gs.block_list[0].block.is_stopped());
    assert!(!gs.block_index[slot]);
    assert_eq!(gs.left, START_LIVES - 1);
    assert_eq!(gs.status, GameStatus::Running);
}

#[test]
fn right_button_does_not_charge_or_restart() {
    let mut gs = GameState::new(W, H, 16);
    assert!(!gs.mouse_button_down_event(false, 0));
    let action = gs.mouse_button_up_event(false, 0, 0, 10);
    assert_eq!(action, PointerUpAction::Ignored);
    assert_eq!(gs.status, GameStatus::Ready);
}

#[test]
fn power_bar_freezes_on_release() {
    let mut gs = running_game(17);
    assert!(gs.mouse_button_down_event(true, 0));
    gs.power_record_bar.update(400);
    assert_eq!(gs.power_record_bar.get_value(), 400);
    let _ = gs.mouse_button_up_event(true, 0, 0, 700);
    assert!(gs.power_record_bar.is_paused());
    assert_eq!(gs.power_record_bar.get_value(), 700);
    gs.power_record_bar.update(2000);
    assert_eq!(gs.power_record_bar.get_value(), 700);
}
