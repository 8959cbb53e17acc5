use chip8::timer::{period_of, Timers, NANOS_PER_SECOND, TIMER_INTERVAL};

#[test]
fn period_is_the_nearest_nanosecond() {
    assert_eq!(period_of(1), 1_000_000_000);
    assert_eq!(period_of(2), 500_000_000);
    assert_eq!(period_of(3), 333_333_333);
    assert_eq!(period_of(60), 16_666_667);
    assert_eq!(period_of(600), 1_666_667);
    assert_eq!(period_of(700), 1_428_571);
    assert_eq!(period_of(1_000_000_000), 1);
    assert_eq!(NANOS_PER_SECOND, 1_000_000_000);
}

#[test]
fn period_ties_go_to_the_even_nanosecond() {
    // 976562.5 and 1953.125 ns
    assert_eq!(period_of(1024), 976_562);
    assert_eq!(period_of(512_000), 1_953);
    // 0.5 ns and 1.5 ns
    assert_eq!(period_of(2_000_000_000), 0);
    assert_eq!(period_of(666_666_667), 1);
    assert_eq!(period_of(u32::MAX), 0);
    assert_eq!(period_of(1_999_999_999), 1);
}

#[test]
fn fresh_timers_have_a_full_interval_ahead() {
    let t = Timers::new();
    assert_eq!(t, Timers { ticker: 16_666_667, delay: 0, sound: 0 });
    assert_eq!(TIMER_INTERVAL, 16_666_667);
}

#[test]
fn timers_decay_once_per_interval() {
    let period = period_of(600);
    let mut t = Timers { ticker: TIMER_INTERVAL, delay: 5, sound: 1 };
    for cycle in 1..=9u64 {
        t.tick(period);
        assert_eq!(t, Timers { ticker: TIMER_INTERVAL - cycle * period, delay: 5, sound: 1 });
    }
    t.tick(period);
    assert_eq!(t, Timers { ticker: TIMER_INTERVAL, delay: 4, sound: 0 });
    for _ in 0..10 {
        t.tick(period);
    }
    assert_eq!(t, Timers { ticker: TIMER_INTERVAL, delay: 3, sound: 0 });
}

#[test]
fn timers_stop_at_zero() {
    let mut t = Timers { ticker: 1, delay: 1, sound: 0 };
    t.tick(1);
    assert_eq!(t, Timers { ticker: TIMER_INTERVAL, delay: 0, sound: 0 });
    t.tick(TIMER_INTERVAL);
    assert_eq!(t, Timers { ticker: TIMER_INTERVAL, delay: 0, sound: 0 });
}

#[test]
fn a_slow_clock_takes_one_per_cycle_and_no_more() {
    let mut t = Timers { ticker: TIMER_INTERVAL, delay: 200, sound: 200 };
    t.tick(period_of(1));
    assert_eq!(t, Timers { ticker: TIMER_INTERVAL, delay: 199, sound: 199 });
}

#[test]
fn a_period_of_zero_never_reaches_the_interval() {
    let mut t = Timers { ticker: TIMER_INTERVAL, delay: 9, sound: 9 };
    for _ in 0..1000 {
        t.tick(0);
    }
    assert_eq!(t, Timers { ticker: TIMER_INTERVAL, delay: 9, sound: 9 });
}

#[test]
fn decay_counts_cycles_not_time_alone() {
    // At 700 Hz twelve cycles cover one interval: 11 * 1428571 < 16666667 <= 12 * 1428571.
    let period = period_of(700);
    assert!(11 * period < TIMER_INTERVAL && TIMER_INTERVAL <= 12 * period);
    let mut t = Timers { ticker: TIMER_INTERVAL, delay: 7, sound: 0 };
    for _ in 0..11 {
        t.tick(period);
        assert_eq!(t.delay, 7);
    }
    t.tick(period);
    assert_eq!(t.delay, 6);
    assert_eq!(t.ticker, TIMER_INTERVAL);
}
