use teensy3::util::{MicrosTimer, MillisTimer};

#[test]
fn millis_timer_keeps_its_start() {
    assert_eq!(MillisTimer::new(1234).init_time, 1234);
    assert_eq!(MicrosTimer::new(u32::MAX).init_time, u32::MAX);
}

#[test]
fn millis_elapsed_without_wrap() {
    let timer = MillisTimer::new(1000);
    assert_eq!(timer.elapsed(1200), 200);
    assert_eq!(timer.elapsed(1001), 1);
    assert_eq!(timer.elapsed(u32::MAX), u32::MAX - 1000);
}

#[test]
fn millis_elapsed_at_the_start_is_zero() {
    assert_eq!(MillisTimer::new(1000).elapsed(1000), 0);
    assert_eq!(MillisTimer::new(0).elapsed(0), 0);
    assert_eq!(MillisTimer::new(u32::MAX).elapsed(u32::MAX), 0);
}

#[test]
fn millis_elapsed_across_the_wrap() {
    let timer = MillisTimer::new(u32::MAX - 9);
    assert_eq!(timer.elapsed(0), 10);
    assert_eq!(timer.elapsed(5), 15);
    assert_eq!(timer.elapsed(u32::MAX - 10), u32::MAX);
    assert_eq!(MillisTimer::new(u32::MAX).elapsed(0), 1);
    assert_eq!(MillisTimer::new(1).elapsed(0), u32::MAX);
}

#[test]
fn micros_elapsed_without_wrap() {
    let timer = MicrosTimer::new(2_000);
    assert_eq!(timer.elapsed(7_000), 5_000);
    assert_eq!(timer.elapsed(2_000), 0);
}

#[test]
fn micros_elapsed_across_the_wrap() {
    let timer = MicrosTimer::new(0xFFFF_FF00);
    assert_eq!(timer.elapsed(0x0000_0100), 0x200);
    assert_eq!(timer.elapsed(0xFFFF_FEFF), u32::MAX);
    assert_eq!(MicrosTimer::new(1).elapsed(0), u32::MAX);
}

#[test]
fn elapsed_undoes_a_wrapping_advance() {
    for start in [0u32, 1, 1000, u32::MAX / 2, u32::MAX - 1, u32::MAX] {
        for ticks in [0u32, 1, 49, u32::MAX / 2, u32::MAX] {
            let now = start.wrapping_add(ticks);
            assert_eq!(MillisTimer::new(start).elapsed(now), ticks);
            assert_eq!(MicrosTimer::new(start).elapsed(now), ticks);
        }
    }
}
