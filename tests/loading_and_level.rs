use side_scroller::animation::{animate_player, AnimationFrameCount, AnimationTimer};
use side_scroller::config::{BRICK_Y, FIRST_BRICK_X, MIN_LOAD_TIME_MS, PROGRESS_LENGTH, PX, TILE_SIZE, WIN_W};
use side_scroller::flow::{GameFlow, GameState};
use side_scroller::level::{background_offsets, brick_tiles};
use side_scroller::loading::{loading_progress, update_loading, LoadProgress, LoadingAssets, TimedLoad};
use side_scroller::motion::Velocity;

#[test]
fn no_assets_still_waits_the_full_minimum() {
    let assets: LoadingAssets<u32> = LoadingAssets::new();
    let mut timer = TimedLoad::new();
    let mut flow = GameFlow::new();
    let loaded: Vec<bool> = Vec::new();
    let mut elapsed: u64 = 0;
    while elapsed + 16 < MIN_LOAD_TIME_MS {
        assert!(!timer.tick(16));
        elapsed += 16;
        let p = update_loading(&assets, &loaded, &timer, &mut flow);
        assert_eq!(p, LoadProgress { loaded: 0, total: 1 });
        assert_eq!(flow.apply_next(), None);
        assert_eq!(flow.current, GameState::Loading);
    }
    assert_eq!(elapsed, 4992);
    assert!(timer.tick(16));
    let p = update_loading(&assets, &loaded, &timer, &mut flow);
    assert_eq!(p, LoadProgress { loaded: 1, total: 1 });
    assert_eq!(flow.apply_next(), Some(GameState::Playing));
    assert_eq!(flow.current, GameState::Playing);
}

#[test]
fn loaded_assets_do_not_shorten_loading() {
    let mut assets = LoadingAssets::new();
    for h in 0..5u32 {
        assets.register(h);
    }
    let loaded = vec![true; 5];
    let mut timer = TimedLoad::new();
    let mut flow = GameFlow::new();
    for _ in 0..4 {
        timer.tick(1000);
        let p = update_loading(&assets, &loaded, &timer, &mut flow);
        assert_eq!(p, LoadProgress { loaded: 5, total: 6 });
        assert!(!p.is_complete());
        assert_eq!(flow.next, None);
    }
    assert!(!timer.tick(999));
    assert!(!update_loading(&assets, &loaded, &timer, &mut flow).is_complete());
    assert!(timer.tick(1));
    assert!(update_loading(&assets, &loaded, &timer, &mut flow).is_complete());
    assert_eq!(flow.next, Some(GameState::Playing));
}

#[test]
fn progress_grows_with_loaded_assets_and_bar_follows() {
    let mut assets = LoadingAssets::new();
    for h in ["bg", "bricks", "walk", "music", "win"] {
        assets.register(h);
    }
    assert_eq!(assets.len(), 5);
    let mut timer = TimedLoad::new();
    let steps = [
        vec![false, false, false, false, false],
        vec![true, false, false, false, false],
        vec![true, false, true, false, false],
        vec![true, true, true, false, true],
        vec![true, true, true, true, true],
    ];
    let mut last = 0;
    for flags in steps.iter() {
        timer.tick(1200);
        let p = loading_progress(&assets, flags, &timer);
        assert_eq!(p.total, 6);
        assert!(p.loaded >= last);
        last = p.loaded;
    }
    assert_eq!(last, 6);
    assert_eq!(LoadProgress { loaded: 0, total: 6 }.bar_length(), 0);
    assert_eq!(LoadProgress { loaded: 2, total: 6 }.bar_length(), 40 * PX);
    assert_eq!(LoadProgress { loaded: 1, total: 7 }.bar_length(), 17_142_857);
    assert_eq!(LoadProgress { loaded: 6, total: 6 }.bar_length(), PROGRESS_LENGTH);
}

#[test]
fn a_failed_asset_keeps_loading_forever() {
    let mut assets = LoadingAssets::new();
    assets.register(1u8);
    assets.register(2u8);
    let mut timer = TimedLoad::new();
    let mut flow = GameFlow::new();
    for k in 1..=100u64 {
        timer.tick(1000);
        let p = update_loading(&assets, &vec![true, false], &timer, &mut flow);
        let expected = if k * 1000 >= MIN_LOAD_TIME_MS { 2 } else { 1 };
        assert_eq!(p, LoadProgress { loaded: expected, total: 3 });
    }
    assert_eq!(flow.next, None);
}

#[test]
fn timer_finishes_once() {
    let mut timer = TimedLoad::new();
    assert!(!timer.finished());
    assert!(timer.tick(u32::MAX));
    assert_eq!(timer.elapsed_ms, MIN_LOAD_TIME_MS);
    assert!(timer.finished());
    assert!(!timer.tick(10));
    assert!(timer.finished());
}

#[test]
fn cleared_asset_list_takes_no_more() {
    let mut assets = LoadingAssets::new();
    assets.register('a');
    assets.clear();
    assert_eq!(assets.len(), 0);
    assets.register('b');
    assert_eq!(assets.len(), 0);
    assert!(assets.closed);
}

#[test]
fn backgrounds_cover_the_level() {
    let xs = background_offsets();
    assert_eq!(xs, vec![0, WIN_W, 2 * WIN_W, 3 * WIN_W]);
    assert_eq!(xs[3], 3840 * PX);
}

#[test]
fn bricks_cover_the_level_and_cycle_the_sheet() {
    let bricks = brick_tiles(4);
    assert_eq!(bricks.len(), 50);
    assert_eq!(bricks[0].x, FIRST_BRICK_X);
    assert_eq!(bricks[0].x, -590 * PX);
    assert_eq!(bricks[49].x, 4310 * PX);
    for (i, b) in bricks.iter().enumerate() {
        assert_eq!(b.x, FIRST_BRICK_X + (i as i64) * TILE_SIZE);
        assert_eq!(b.y, BRICK_Y);
        assert_eq!(b.index, i % 4);
    }
    let single = brick_tiles(1);
    assert!(single.iter().all(|b| b.index == 0));
    assert_eq!(brick_tiles(3)[4].index, 1);
}

#[test]
fn animation_steps_while_moving() {
    let count = AnimationFrameCount(4);
    let mut timer = AnimationTimer::new();
    let mut frame: usize = 0;
    let moving = Velocity { x: 1, y: 0 };
    animate_player(&moving, &mut timer, &mut frame, &count, 150);
    assert_eq!((frame, timer.elapsed_ms), (0, 150));
    animate_player(&moving, &mut timer, &mut frame, &count, 60);
    assert_eq!((frame, timer.elapsed_ms), (1, 10));
    for _ in 0..3 {
        animate_player(&moving, &mut timer, &mut frame, &count, 200);
    }
    assert_eq!((frame, timer.elapsed_ms), (0, 10));
    // A long frame still moves on by one frame of the sheet.
    animate_player(&moving, &mut timer, &mut frame, &count, 1000);
    assert_eq!((frame, timer.elapsed_ms), (1, 10));
}

#[test]
fn animation_holds_at_rest() {
    let count = AnimationFrameCount(4);
    let mut timer = AnimationTimer { elapsed_ms: 190 };
    let mut frame: usize = 2;
    animate_player(&Velocity::new(), &mut timer, &mut frame, &count, 500);
    assert_eq!((frame, timer.elapsed_ms), (2, 190));
    assert!(!Velocity::new().is_moving());
    assert!(Velocity { x: 0, y: -3 }.is_moving());
}
