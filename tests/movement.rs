use side_scroller::config::{
    CAMERA_MAX_X, MAX_X, MAX_Y, MIN_X, MIN_Y, PLAYER_SPEED, PX, TILE_SIZE, WIN_X,
};
use side_scroller::flow::{win_event_listener, GameFlow, GameState, WinEvents};
use side_scroller::isqrt::{isqrt_ceil, isqrt_floor};
use side_scroller::motion::{next_frame_velocity, HeldKeys, Velocity};
use side_scroller::player::{camera_x, move_player, Player};

fn keys(left: bool, right: bool, up: bool, down: bool) -> HeldKeys {
    HeldKeys { left, right, up, down }
}

fn none() -> HeldKeys {
    keys(false, false, false, false)
}

fn right() -> HeldKeys {
    keys(false, true, false, false)
}

fn speed_sq(v: Velocity) -> i128 {
    (v.x as i128) * (v.x as i128) + (v.y as i128) * (v.y as i128)
}

fn in_bounds(p: &Player) -> bool {
    MIN_X <= p.x && p.x <= MAX_X && MIN_Y <= p.y && p.y <= MAX_Y
}

#[test]
fn integer_square_roots() {
    assert_eq!(isqrt_floor(0), 0);
    assert_eq!(isqrt_floor(1), 1);
    assert_eq!(isqrt_floor(15), 3);
    assert_eq!(isqrt_floor(16), 4);
    assert_eq!(isqrt_floor(u128::MAX), u64::MAX as u128);
    assert_eq!(isqrt_ceil(15), 4);
    assert_eq!(isqrt_ceil(16), 4);
    assert_eq!(isqrt_ceil(17), 5);
}

#[test]
fn one_frame_of_acceleration_along_an_axis() {
    let v = next_frame_velocity(Velocity::new(), right(), 10);
    assert_eq!(v, Velocity { x: 50_000, y: 0 });
    let v = next_frame_velocity(Velocity::new(), keys(false, false, false, true), 16);
    assert_eq!(v, Velocity { x: 0, y: -80_000 });
}

#[test]
fn diagonal_push_has_the_frame_acceleration_as_length() {
    // floor(50000 / sqrt 2) = 35355
    let v = next_frame_velocity(Velocity::new(), keys(true, false, true, false), 10);
    assert_eq!(v, Velocity { x: -35_355, y: 35_355 });
}

#[test]
fn opposite_keys_cancel_and_brake() {
    let v = Velocity { x: 200_000, y: 0 };
    let v = next_frame_velocity(v, keys(true, true, true, true), 10);
    assert_eq!(v, Velocity { x: 150_000, y: 0 });
}

#[test]
fn speed_is_clamped_to_the_largest_speed() {
    let v = next_frame_velocity(Velocity { x: 480_000, y: 0 }, right(), 10);
    assert_eq!(v, Velocity { x: PLAYER_SPEED, y: 0 });
    let max_sq = (PLAYER_SPEED as i128) * (PLAYER_SPEED as i128);
    let all = [false, true];
    for l in all {
        for r in all {
            for u in all {
                for d in all {
                    let mut v = Velocity::new();
                    for dt in [1u32, 7, 16, 33, 250, 1000, u32::MAX] {
                        v = next_frame_velocity(v, keys(l, r, u, d), dt);
                        assert!(speed_sq(v) <= max_sq);
                    }
                }
            }
        }
    }
}

#[test]
fn a_long_diagonal_frame_stays_under_the_largest_speed() {
    let v = next_frame_velocity(Velocity { x: -400_000, y: 300_000 }, keys(false, true, false, true), u32::MAX);
    assert!(speed_sq(v) <= (PLAYER_SPEED as i128) * (PLAYER_SPEED as i128));
    assert!(v.x > 0 && v.y < 0);
}

#[test]
fn coasting_from_full_speed_stops_after_a_tenth_of_a_second() {
    let mut v = Velocity { x: PLAYER_SPEED, y: 0 };
    for k in 1..10 {
        v = next_frame_velocity(v, none(), 10);
        assert_eq!(v, Velocity { x: PLAYER_SPEED - 50_000 * k, y: 0 });
    }
    v = next_frame_velocity(v, none(), 10);
    assert_eq!(v, Velocity { x: 0, y: 0 });
    v = next_frame_velocity(v, none(), 10);
    assert_eq!(v, Velocity { x: 0, y: 0 });
}

#[test]
fn coasting_on_a_diagonal_stops_exactly() {
    let mut v = Velocity { x: 353_553, y: -353_553 };
    let mut elapsed = 0;
    while elapsed <= 100 {
        v = next_frame_velocity(v, none(), 7);
        elapsed += 7;
    }
    assert_eq!(v, Velocity { x: 0, y: 0 });
}

#[test]
fn slow_velocity_snaps_to_rest() {
    let v = next_frame_velocity(Velocity { x: 30_000, y: 40_000 }, none(), 10);
    assert_eq!(v, Velocity { x: 0, y: 0 });
}

#[test]
fn holding_right_follows_accelerate_then_cruise() {
    let mut p = Player::spawn();
    let mut win = WinEvents::new();
    assert_eq!((p.x, p.y), (0, MIN_Y));
    for _ in 0..100 {
        move_player(&mut p, right(), 10, &mut win);
    }
    // 100 ms to reach full speed, covering 50000 * 10 * (1 + ... + 10) micropixels,
    // then 90 frames of 5 px each.
    assert_eq!(p.velocity, Velocity { x: PLAYER_SPEED, y: 0 });
    assert_eq!(p.x, 27_500_000 + 90 * 5 * PX);
    assert_eq!(p.x, 477_500_000);
    assert_eq!(p.y, MIN_Y);
    assert!(!win.raised);
}

#[test]
fn holding_right_ends_at_the_right_boundary() {
    let mut p = Player::spawn();
    let mut win = WinEvents::new();
    for _ in 0..1000 {
        move_player(&mut p, right(), 10, &mut win);
    }
    assert_eq!(p.x, MAX_X);
    assert!(win.raised);
}

#[test]
fn positions_stay_in_bounds() {
    let mut p = Player::spawn();
    let mut win = WinEvents::new();
    let pattern = [
        keys(true, false, false, false),
        keys(false, false, true, false),
        keys(true, false, true, false),
        keys(false, false, false, true),
        keys(false, true, false, false),
        keys(false, false, false, false),
    ];
    for i in 0..600usize {
        let k = pattern[(i / 40) % pattern.len()];
        let dt = [16u32, 17, 33, 250, 5000][i % 5];
        move_player(&mut p, k, dt, &mut win);
        assert!(in_bounds(&p));
    }
}

#[test]
fn jumping_up_stops_under_the_top() {
    let mut p = Player::spawn();
    let mut win = WinEvents::new();
    move_player(&mut p, keys(false, false, true, false), 100_000, &mut win);
    assert_eq!(p.y, MAX_Y);
    move_player(&mut p, keys(true, false, false, false), 100_000, &mut win);
    assert_eq!(p.x, MIN_X);
}

#[test]
fn win_signal_fires_right_past_the_threshold() {
    let mut win = WinEvents::new();
    let mut p = Player { x: WIN_X - 5 * PX, y: MIN_Y, velocity: Velocity { x: PLAYER_SPEED, y: 0 } };
    move_player(&mut p, right(), 10, &mut win);
    assert_eq!(p.x, WIN_X);
    assert!(win.is_empty());
    move_player(&mut p, right(), 1, &mut win);
    assert_eq!(p.x, WIN_X + 500_000);
    assert!(!win.is_empty());
}

#[test]
fn win_signal_moves_play_to_win_at_the_next_update() {
    let mut flow = GameFlow::new();
    flow.set_next(GameState::Playing);
    assert_eq!(flow.apply_next(), Some(GameState::Playing));
    let mut win = WinEvents::new();
    win_event_listener(&mut win, &mut flow);
    assert_eq!(flow.apply_next(), None);
    assert_eq!(flow.current, GameState::Playing);
    let mut p = Player { x: WIN_X, y: MIN_Y, velocity: Velocity { x: PLAYER_SPEED, y: 0 } };
    move_player(&mut p, right(), 16, &mut win);
    assert!(win.raised);
    win_event_listener(&mut win, &mut flow);
    assert!(win.is_empty());
    assert_eq!(flow.next, Some(GameState::Win));
    assert_eq!(flow.apply_next(), Some(GameState::Win));
    assert_eq!(flow.current, GameState::Win);
    // A later signal is harmless.
    win.send();
    win_event_listener(&mut win, &mut flow);
    assert_eq!(flow.apply_next(), None);
    assert_eq!(flow.current, GameState::Win);
}

#[test]
fn states_never_go_back() {
    let mut flow = GameFlow::new();
    flow.set_next(GameState::Win);
    assert_eq!(flow.apply_next(), Some(GameState::Win));
    flow.set_next(GameState::Loading);
    assert_eq!(flow.next, None);
    flow.set_next(GameState::Playing);
    assert_eq!(flow.apply_next(), None);
    assert_eq!(flow.current, GameState::Win);
}

#[test]
fn camera_is_clamped_at_both_level_edges() {
    assert_eq!(camera_x(MIN_X), 0);
    assert_eq!(camera_x(-1), 0);
    assert_eq!(camera_x(0), 0);
    assert_eq!(camera_x(50 * PX), 50 * PX);
    assert_eq!(camera_x(1000 * PX), 1000 * PX);
    assert_eq!(camera_x(CAMERA_MAX_X), 3720 * PX);
    assert_eq!(camera_x(MAX_X), 3720 * PX);
    assert_eq!(camera_x(MAX_X - 50 * PX), 3720 * PX);
    assert_eq!(camera_x(MIN_X + TILE_SIZE), 0);
    assert_eq!(camera_x(MAX_X - TILE_SIZE), 3720 * PX);
}
