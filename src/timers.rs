use vstd::prelude::*;
use vstd::arithmetic::div_mod::{
    lemma_fundamental_div_mod,
    lemma_hoist_over_denominator,
    lemma_mod_multiples_vanish,
};
use std::time::{Duration, Instant};

verus! {

/// The clock reading of `std::time`, held opaquely as the time of the last
/// update.
#[verifier::external_type_specification]
#[verifier::external_body]
pub struct ExInstant(std::time::Instant);

/// Relies on `Instant::now`: a reading of the monotonic clock. Nothing is
/// assumed of the value read.
pub assume_specification[ std::time::Instant::now ]() -> std::time::Instant;

/// Relies on `Instant::saturating_duration_since`: the time from `earlier` to
/// `self`, zero when `earlier` is later. Nothing is assumed of the value.
pub assume_specification[ std::time::Instant::saturating_duration_since ](
    this: &std::time::Instant,
    earlier: std::time::Instant,
) -> std::time::Duration;

/// Relies on `Duration::as_micros`: the whole microseconds in a duration.
/// Nothing is assumed of the value.
pub assume_specification[ std::time::Duration::as_micros ](this: &std::time::Duration) -> u128;

/// Rate at which both timers count down, in ticks per second.
pub const TIMER_DECREMENT_FREQUENCY: u64 = 60;

/// The carried fraction of a tick is kept in millionths of a tick, and elapsed
/// time in microseconds.
pub const CARRY_SCALE: u64 = 1_000_000;

/// A timer value after `ticks` ticks: it counts down and stays at zero.
pub open spec fn count_down(value: u8, ticks: int) -> u8 {
    if value > ticks {
        (value - ticks) as u8
    } else {
        0
    }
}

/// Time that has passed plus the carried fraction, in millionths of a tick.
pub open spec fn decay_amount(carry: int, elapsed_micros: int) -> int {
    TIMER_DECREMENT_FREQUENCY * elapsed_micros + carry
}

/// What the timers hold: the two counters and the carried fraction of a tick,
/// in millionths.
pub struct TimerState {
    pub delay: u8,
    pub sound: u8,
    pub carry: int,
}

/// The timers after `elapsed_micros` microseconds: the whole ticks are taken
/// off both counters, the fraction is carried, and the carry is dropped once
/// both counters stand at zero.
pub open spec fn decayed(t: TimerState, elapsed_micros: int) -> TimerState {
    let amount = decay_amount(t.carry, elapsed_micros);
    let ticks = amount / CARRY_SCALE as int;
    let d = count_down(t.delay, ticks);
    let s = count_down(t.sound, ticks);
    TimerState {
        delay: d,
        sound: s,
        carry: if d == 0 && s == 0 {
            0
        } else {
            amount % CARRY_SCALE as int
        },
    }
}

/// The timers with the delay timer set to `value`. The carry is kept, unless
/// both timers then stand at zero.
pub open spec fn with_delay(t: TimerState, value: u8) -> TimerState {
    TimerState { delay: value, carry: if value == 0 && t.sound == 0 { 0 } else { t.carry }, ..t }
}

/// The timers with the sound timer set to `value`. The carry is kept, unless
/// both timers then stand at zero.
pub open spec fn with_sound(t: TimerState, value: u8) -> TimerState {
    TimerState { sound: value, carry: if value == 0 && t.delay == 0 { 0 } else { t.carry }, ..t }
}

/// The two countdown timers, decaying with the time read from the clock.
pub struct Timers {
    pub delay_timer: u8,
    pub sound_timer: u8,
    last_update: Instant,
    carry: u64,
}

impl View for Timers {
    type V = TimerState;

    closed spec fn view(&self) -> TimerState {
        TimerState { delay: self.delay_timer, sound: self.sound_timer, carry: self.carry as int }
    }
}

impl Timers {
    /// The carried fraction is less than a whole tick.
    pub open spec fn well_formed(&self) -> bool {
        0 <= self@.carry < CARRY_SCALE
    }

    /// Both timers at zero, nothing carried, the clock read now.
    pub fn new() -> (r: Self)
        ensures
            r.well_formed(),
            r@ == (TimerState { delay: 0, sound: 0, carry: 0 }),
    {
        Self { delay_timer: 0, sound_timer: 0, last_update: Instant::now(), carry: 0 }
    }

    /// Lets `elapsed_micros` microseconds of decay pass.
    pub fn decay(&mut self, elapsed_micros: u64)
        requires
            old(self).well_formed(),
        ensures
            final(self).well_formed(),
            final(self)@ == decayed(old(self)@, elapsed_micros as int),
            final(self)@.delay <= old(self)@.delay,
            final(self)@.sound <= old(self)@.sound,
    {
        let amount: u128 = TIMER_DECREMENT_FREQUENCY as u128 * elapsed_micros as u128
            + self.carry as u128;
        let ticks: u128 = amount / CARRY_SCALE as u128;
        let rest: u128 = amount % CARRY_SCALE as u128;
        if (self.delay_timer as u128) > ticks {
            self.delay_timer = self.delay_timer - ticks as u8;
        } else {
            self.delay_timer = 0;
        }
        if (self.sound_timer as u128) > ticks {
            self.sound_timer = self.sound_timer - ticks as u8;
        } else {
            self.sound_timer = 0;
        }
        if self.delay_timer == 0 && self.sound_timer == 0 {
            self.carry = 0;
        } else {
            self.carry = rest as u64;
        }
    }

    /// Sets the delay timer.
    pub fn set_delay(&mut self, value: u8)
        requires
            old(self).well_formed(),
        ensures
            final(self).well_formed(),
            final(self)@ == with_delay(old(self)@, value),
    {
        self.delay_timer = value;
        if value == 0 && self.sound_timer == 0 {
            self.carry = 0;
        }
    }

    /// Sets the sound timer.
    pub fn set_sound(&mut self, value: u8)
        requires
            old(self).well_formed(),
        ensures
            final(self).well_formed(),
            final(self)@ == with_sound(old(self)@, value),
    {
        self.sound_timer = value;
        if value == 0 && self.delay_timer == 0 {
            self.carry = 0;
        }
    }

    /// The delay timer.
    pub fn delay(&self) -> (r: u8)
        ensures
            r == self@.delay,
    {
        self.delay_timer
    }

    /// The sound timer.
    pub fn sound(&self) -> (r: u8)
        ensures
            r == self@.sound,
    {
        self.sound_timer
    }

    /// Decays both timers by the time that has passed since the previous
    /// update, read from the clock.
    pub fn decrement_timers(&mut self)
        requires
            old(self).well_formed(),
        ensures
            final(self).well_formed(),
            exists|elapsed_micros: u64| final(self)@ == decayed(old(self)@, elapsed_micros as int),
            final(self)@.delay <= old(self)@.delay,
            final(self)@.sound <= old(self)@.sound,
    {
        let now = Instant::now();
        let since: Duration = now.saturating_duration_since(self.last_update);
        let micros: u128 = since.as_micros();
        let elapsed: u64 = if micros > u64::MAX as u128 {
            u64::MAX
        } else {
            micros as u64
        };
        self.decay(elapsed);
        self.last_update = now;
    }
}

/// Decay depends on the total time that has passed, not on how often the
/// timers are updated: two updates of `first` and `second` microseconds leave
/// the timers and the carry where one update of their sum does.
pub proof fn lemma_decay_splits(t: TimerState, first: nat, second: nat)
    requires
        0 <= t.carry < CARRY_SCALE,
    ensures
        decayed(decayed(t, first as int), second as int) == decayed(t, (first + second) as int),
{
    let carry = t.carry;
    let m = CARRY_SCALE as int;
    let a1 = decay_amount(carry, first as int);
    let t1 = a1 / m;
    let r1 = a1 % m;
    let total = decay_amount(carry, (first + second) as int);
    let a2 = decay_amount(r1, second as int);
    let mid = decayed(t, first as int);
    lemma_fundamental_div_mod(a1, m);
    assert(total == m * t1 + a2) by (nonlinear_arith)
        requires
            a1 == m * t1 + r1,
            a1 == 60 * first + carry,
            total == 60 * (first + second) + carry,
            a2 == 60 * second + r1,
    ;
    assert(total / m == t1 + a2 / m) by {
        lemma_hoist_over_denominator(a2, t1, m as nat);
        assert(a2 + t1 * m == total) by (nonlinear_arith)
            requires
                total == m * t1 + a2,
        ;
    }
    assert(total % m == a2 % m) by {
        lemma_mod_multiples_vanish(t1, a2, m);
    }
    assert(t1 >= 0 && a2 >= 0) by {
        assert(a1 >= 0);
    }
    if mid.delay == 0 && mid.sound == 0 {
        assert(total / m >= t1) by {
            assert(a2 / m >= 0) by (nonlinear_arith)
                requires
                    a2 >= 0,
                    m > 0,
            ;
        }
    }
}

} // verus!
