use rosu_layout::clock::PlaybackClock;

#[test]
fn new_clock_starts_at_zero() {
    let clock = PlaybackClock::new();
    assert_eq!(clock.get_speed(), 1000);
    assert_eq!(clock.get_scroll_time(), 1000);
    assert_eq!(clock.current_time_at(0), 0);
    assert_eq!(clock.current_time_at(999), 0);
    assert_eq!(clock.current_time_at(1_000), 1);
    assert_eq!(clock.current_time_at(1_500_000), 1500);
}

#[test]
fn time_is_scaled_by_the_speed() {
    let mut clock = PlaybackClock::new();
    clock.set_speed(2000);
    assert_eq!(clock.current_time_at(1_000_000), 2000);
    clock.set_speed(500);
    assert_eq!(clock.current_time_at(1_000_000), 500);
    clock.set_speed(1);
    assert_eq!(clock.current_time_at(1_000_000), 1);
    assert_eq!(clock.current_time_at(999_999), 0);
}

#[test]
fn seek_is_read_back_at_any_speed() {
    let speeds: [u32; 11] =
        [1, 3, 500, 1000, 1500, 2000, 1_000_000, 1_000_001, 3_000_000, 4_294_967_295, 7];
    let times: [i64; 8] = [5000, 0, 1, -1, -5000, 123_456_789, i64::MAX, i64::MIN];
    for speed in speeds {
        for time in times {
            let mut clock = PlaybackClock::new();
            clock.set_speed(speed);
            clock.set_time_at(777_777, time);
            assert_eq!(clock.current_time_at(777_777), time);
            assert_eq!(clock.get_speed(), speed);
        }
    }
}

#[test]
fn seek_to_five_seconds() {
    let mut clock = PlaybackClock::new();
    clock.set_time_at(40_000_000, 5000);
    assert_eq!(clock.current_time_at(40_000_000), 5000);
    assert_eq!(clock.current_time_at(41_000_000), 6000);
    clock.set_speed(2000);
    clock.set_time_at(50_000_000, 5000);
    assert_eq!(clock.current_time_at(50_000_000), 5000);
    assert_eq!(clock.current_time_at(51_000_000), 7000);
}

#[test]
fn seek_is_exact_beyond_a_thousandfold_speed() {
    let mut clock = PlaybackClock::new();
    clock.set_speed(3_000_000);
    clock.set_time_at(0, 5000);
    assert_eq!(clock.current_time_at(0), 5000);
    clock.set_time_at(999, 5001);
    assert_eq!(clock.current_time_at(999), 5001);
    clock.set_speed(u32::MAX);
    clock.set_time_at(12_345, 5000);
    assert_eq!(clock.current_time_at(12_345), 5000);
    clock.set_time_at(12_345, -5000);
    assert_eq!(clock.current_time_at(12_345), -5000);
}

#[test]
fn track_runs_on_from_the_time_sought() {
    // The time sought plus the microseconds since, scaled by the speed and
    // rounded down to a whole millisecond.
    let mut clock = PlaybackClock::new();
    clock.set_speed(3_000_000);
    clock.set_time_at(100, 5000);
    assert_eq!(clock.current_time_at(101), 5003);
    assert_eq!(clock.current_time_at(99), 4997);
    clock.set_speed(1500);
    clock.set_time_at(100, 5000);
    assert_eq!(clock.current_time_at(100 + 666), 5000);
    assert_eq!(clock.current_time_at(100 + 667), 5001);
    assert_eq!(clock.current_time_at(100 + 1001), 5001);
    assert_eq!(clock.current_time_at(100 - 1), 4999);
    clock.set_speed(u32::MAX);
    clock.set_time_at(100, 7);
    assert_eq!(clock.current_time_at(101), 7 + 4294);
    clock.set_speed(7);
    clock.set_time_at(100, 7);
    assert_eq!(clock.current_time_at(100 + 142_857), 7);
    assert_eq!(clock.current_time_at(100 + 142_858), 8);
}

#[test]
fn seek_to_the_ends_of_the_range() {
    let mut clock = PlaybackClock::new();
    clock.set_speed(1);
    clock.set_time_at(u64::MAX, i64::MAX);
    assert_eq!(clock.current_time_at(u64::MAX), i64::MAX);
    clock.set_time_at(0, i64::MIN);
    assert_eq!(clock.current_time_at(0), i64::MIN);
    // With the reference that far back, a high speed runs out of the range.
    clock.set_time_at(0, i64::MAX);
    clock.set_speed(u32::MAX);
    assert_eq!(clock.current_time_at(u64::MAX), i64::MAX);
    clock.set_time_at(0, i64::MIN);
    clock.set_speed(1);
    clock.set_time_at(u64::MAX, i64::MIN);
    clock.set_speed(u32::MAX);
    assert_eq!(clock.current_time_at(0), i64::MIN);
}

#[test]
fn reset_is_a_seek_to_zero() {
    let mut clock = PlaybackClock::new();
    clock.set_speed(1500);
    clock.reset_at(3_000_000);
    assert_eq!(clock.current_time_at(3_000_000), 0);
    assert_eq!(clock.current_time_at(4_000_000), 1500);
    assert_eq!(clock.current_time_at(2_000_000), -1500);
    let mut other = PlaybackClock::new();
    other.set_speed(1500);
    other.set_time_at(3_000_000, 0);
    assert_eq!(other.current_time_at(4_000_000), clock.current_time_at(4_000_000));
}

#[test]
fn speed_change_keeps_the_reference() {
    let mut clock = PlaybackClock::new();
    clock.reset_at(1_000_000);
    assert_eq!(clock.current_time_at(3_000_000), 2000);
    clock.set_speed(500);
    assert_eq!(clock.current_time_at(3_000_000), 1000);
    assert_eq!(clock.current_time_at(1_000_000), 0);
}

#[test]
fn zero_speed_is_refused() {
    let mut clock = PlaybackClock::new();
    clock.set_speed(2000);
    clock.set_speed(0);
    assert_eq!(clock.get_speed(), 2000);
    assert_eq!(clock.current_time_at(1_000_000), 2000);
}

#[test]
fn zero_scroll_window_is_refused() {
    let mut clock = PlaybackClock::new();
    clock.set_scroll_time(250);
    assert_eq!(clock.get_scroll_time(), 250);
    clock.set_scroll_time(0);
    assert_eq!(clock.get_scroll_time(), 250);
}

#[test]
fn monotonic_clock_does_not_run_backwards() {
    let clock = PlaybackClock::new();
    let first = clock.now();
    let second = clock.now();
    assert!(first <= second);
}

#[test]
fn seek_now_is_read_back_now() {
    let mut clock = PlaybackClock::new();
    clock.set_speed(1500);
    clock.set_time(5000);
    let time = clock.current_time();
    assert!(5000 <= time && time < 5000 + 5000);
    clock.reset();
    let time = clock.current_time();
    assert!(0 <= time && time < 5000);
}

#[test]
fn track_never_runs_backwards() {
    let mut clock = PlaybackClock::new();
    clock.set_speed(1234);
    clock.set_time_at(5_000, -3);
    let mut last = clock.current_time_at(0);
    for now in 1..20_000u64 {
        let time = clock.current_time_at(now);
        assert!(last <= time);
        last = time;
    }
    assert_eq!(clock.current_time_at(5_000), -3);
}
