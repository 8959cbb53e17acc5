//! The clock period of the processor, and the delay and sound timers, which
//! count down at 60 Hz however fast instructions run.

use vstd::prelude::*;

verus! {

/// The nanoseconds in one second.
pub const NANOS_PER_SECOND: u64 = 1_000_000_000;

/// The nanoseconds between two decrements of the timers: a sixtieth of a second.
pub const TIMER_INTERVAL: u64 = 16_666_667;

/// The duration of one clock cycle at `freq` cycles per second, in nanoseconds:
/// the whole number nearest to the quotient, the even one of two equally near.
pub open spec fn clock_period(freq: int) -> int
    recommends
        freq > 0,
{
    let whole = 1_000_000_000int / freq;
    let rest = 1_000_000_000int % freq;
    if 2 * rest > freq || (2 * rest == freq && whole % 2 == 1) {
        whole + 1
    } else {
        whole
    }
}

/// No whole number of nanoseconds is nearer to a second divided by `freq` than the
/// clock period: they differ by at most half a nanosecond.
pub proof fn lemma_clock_period_nearest(freq: int)
    requires
        freq > 0,
    ensures
        -freq <= 2 * (clock_period(freq) * freq - 1_000_000_000) <= freq,
        0 <= clock_period(freq) <= 1_000_000_000,
{
    let whole = 1_000_000_000int / freq;
    let rest = 1_000_000_000int % freq;
    assert(1_000_000_000int == freq * whole + rest && 0 <= rest < freq && 0 <= whole) by {
        vstd::arithmetic::div_mod::lemma_fundamental_div_mod(1_000_000_000, freq);
        vstd::arithmetic::div_mod::lemma_div_pos_is_pos(1_000_000_000, freq);
    }
    assert((whole + 1) * freq == whole * freq + freq) by (nonlinear_arith);
    assert(whole * freq == freq * whole) by (nonlinear_arith);
    assert(whole <= 1_000_000_000 && (whole == 1_000_000_000 ==> rest == 0)) by (nonlinear_arith)
        requires
            1_000_000_000int == freq * whole + rest,
            0 <= rest,
            freq >= 1,
            0 <= whole,
    ;
}

/// A clock faster than 60 Hz and slower than 2 GHz has a period of at least one
/// nanosecond and less than the timers' interval.
pub proof fn lemma_clock_period_bounds(freq: int)
    requires
        60 < freq < 2_000_000_000,
    ensures
        1 <= clock_period(freq) < TIMER_INTERVAL,
{
    let whole = 1_000_000_000int / freq;
    let rest = 1_000_000_000int % freq;
    assert(1_000_000_000int == freq * whole + rest && 0 <= rest < freq && 0 <= whole) by {
        vstd::arithmetic::div_mod::lemma_fundamental_div_mod(1_000_000_000, freq);
        vstd::arithmetic::div_mod::lemma_div_pos_is_pos(1_000_000_000, freq);
    }
    assert(whole <= 16_393_442) by (nonlinear_arith)
        requires
            1_000_000_000int == freq * whole + rest,
            0 <= rest,
            freq >= 61,
            0 <= whole,
    ;
    if whole == 0 {
        assert(freq * whole == 0) by (nonlinear_arith)
            requires
                whole == 0,
        ;
        assert(rest == 1_000_000_000);
    }
}

/// Computes the clock period for a frequency in hertz.
pub fn period_of(freq: u32) -> (nanos: u64)
    requires
        freq > 0,
    ensures
        nanos == clock_period(freq as int),
        nanos <= NANOS_PER_SECOND,
{
    proof {
        lemma_clock_period_nearest(freq as int);
    }
    let f: u64 = freq as u64;
    let whole: u64 = NANOS_PER_SECOND / f;
    let rest: u64 = NANOS_PER_SECOND % f;
    if 2 * rest > f || (2 * rest == f && whole % 2 == 1) {
        whole + 1
    } else {
        whole
    }
}

/// The delay timer, the sound timer, and the time left until both count down.
#[derive(Debug, Clone, Copy, PartialEq, Eq, Structural)]
pub struct Timers {
    /// Nanoseconds until the next decrement.
    pub ticker: u64,
    /// The delay timer.
    pub delay: u8,
    /// The sound timer; the buzzer sounds while it is not zero.
    pub sound: u8,
}

/// One less, but never below zero.
pub open spec fn decay(t: u8) -> u8 {
    if t == 0 {
        0
    } else {
        (t - 1) as u8
    }
}

impl Timers {
    /// Both timers at zero, and a full interval ahead.
    pub open spec fn fresh() -> Timers {
        Timers { ticker: TIMER_INTERVAL, delay: 0, sound: 0 }
    }

    /// Between two cycles the time left is at least a nanosecond and at most one
    /// interval.
    pub open spec fn wf(self) -> bool {
        1 <= self.ticker <= TIMER_INTERVAL
    }

    /// The timers after one clock cycle of `period` nanoseconds: the time left
    /// shrinks by the period; when none is left, both timers decay by one and a
    /// full interval starts.
    pub open spec fn tick_spec(self, period: u64) -> Timers {
        if self.ticker <= period {
            Timers { ticker: TIMER_INTERVAL, delay: decay(self.delay), sound: decay(self.sound) }
        } else {
            Timers { ticker: (self.ticker - period) as u64, ..self }
        }
    }

    /// The timers after `n` clock cycles.
    pub open spec fn ticks(self, period: u64, n: nat) -> Timers
        decreases n,
    {
        if n == 0 {
            self
        } else {
            self.ticks(period, (n - 1) as nat).tick_spec(period)
        }
    }

    /// Both timers at zero, and a full interval ahead.
    pub fn new() -> (t: Timers)
        ensures
            t == Timers::fresh(),
            t.wf(),
    {
        Timers { ticker: TIMER_INTERVAL, delay: 0, sound: 0 }
    }

    /// Accounts for one clock cycle of `period` nanoseconds.
    pub fn tick(&mut self, period: u64)
        ensures
            *final(self) == old(self).tick_spec(period),
            old(self).wf() ==> final(self).wf(),
    {
        self.ticker = self.ticker.saturating_sub(period);
        if self.ticker == 0 {
            self.delay = self.delay.saturating_sub(1);
            self.sound = self.sound.saturating_sub(1);
            self.ticker = TIMER_INTERVAL;
        }
    }
}

/// One cycle never takes more than one from a timer, never lets it grow, and keeps
/// the time left within one interval.
pub proof fn lemma_tick_decays_at_most_one(t: Timers, period: u64)
    ensures
        t.delay - 1 <= t.tick_spec(period).delay <= t.delay,
        t.sound - 1 <= t.tick_spec(period).sound <= t.sound,
        t.wf() ==> t.tick_spec(period).wf(),
{
}

/// Any number of cycles keeps the time left until the next decrement within one
/// interval.
pub proof fn lemma_ticks_wf(t: Timers, period: u64, n: nat)
    requires
        t.wf(),
    ensures
        t.ticks(period, n).wf(),
    decreases n,
{
    if n > 0 {
        lemma_ticks_wf(t, period, (n - 1) as nat);
    }
}

/// While the cycles since a decrement add up to less than one interval, the timers
/// keep their values and the time left shrinks by the time spent.
pub proof fn lemma_ticks_within_interval(t: Timers, period: u64, k: nat)
    requires
        t.ticker == TIMER_INTERVAL,
        k * period < TIMER_INTERVAL,
    ensures
        t.ticks(period, k) == (Timers { ticker: (TIMER_INTERVAL - k * period) as u64, ..t }),
    decreases k,
{
    if k > 0 {
        assert((k - 1) * period == k * period - period) by (nonlinear_arith);
        lemma_ticks_within_interval(t, period, (k - 1) as nat);
    } else {
        assert(k * period == 0) by (nonlinear_arith)
            requires
                k == 0,
        ;
    }
}

/// Timer decay: starting with a full interval ahead, the `n` cycles that together
/// first cover the interval take exactly one from each timer, however many they
/// are, and any fewer take nothing. After them a full interval is ahead again.
pub proof fn lemma_timer_decay(t: Timers, period: u64, n: nat)
    requires
        t.ticker == TIMER_INTERVAL,
        n >= 1,
        (n - 1) * period < TIMER_INTERVAL <= n * period,
    ensures
        forall|k: nat| k < n ==> (#[trigger] t.ticks(period, k)).delay == t.delay && t.ticks(
            period,
            k,
        ).sound == t.sound,
        t.ticks(period, n) == (Timers {
            ticker: TIMER_INTERVAL,
            delay: decay(t.delay),
            sound: decay(t.sound),
        }),
{
    assert forall|k: nat| k < n implies (#[trigger] t.ticks(period, k)).delay == t.delay && t.ticks(
        period,
        k,
    ).sound == t.sound by {
        assert(k * period <= (n - 1) * period) by (nonlinear_arith)
            requires
                k <= n - 1,
                period >= 0,
        ;
        lemma_ticks_within_interval(t, period, k);
    }
    lemma_ticks_within_interval(t, period, (n - 1) as nat);
    assert((n - 1) * period == n * period - period) by (nonlinear_arith);
}

} // verus!
