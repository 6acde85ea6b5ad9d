use side_scroller::clock::FrameClock;
use side_scroller::motion::Velocity;

#[test]
fn frame_clock_carries_leftover_microseconds() {
    let mut clock = FrameClock::new();
    assert_eq!(clock.frame_ms(16_667), 16);
    assert_eq!(clock.carry_us, 667);
    assert_eq!(clock.frame_ms(16_667), 17);
    assert_eq!(clock.carry_us, 334);
    assert_eq!(clock.frame_ms(16_666), 17);
    assert_eq!(clock.carry_us, 0);
    assert_eq!(clock.frame_ms(999), 0);
    assert_eq!(clock.frame_ms(1), 1);
    assert_eq!(clock.carry_us, 0);
}

#[test]
fn frame_clock_saturates_on_huge_frames() {
    let mut clock = FrameClock::new();
    clock.frame_ms(500);
    assert_eq!(clock.frame_ms(u64::MAX), u32::MAX);
    assert_eq!(clock.carry_us, 0);
    assert_eq!(clock.frame_ms(4_294_967_295_000), u32::MAX);
    assert_eq!(clock.carry_us, 0);
}

#[test]
fn velocity_from_components() {
    let v = Velocity::from((3, -4));
    assert_eq!(v, Velocity { x: 3, y: -4 });
    let w: Velocity = (0, 0).into();
    assert_eq!(w, Velocity::new());
}
