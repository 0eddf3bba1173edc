//! The timer rules: a fixed tick rate measured against a monotonic clock
//! supplied from outside, and the decay of the two 8-bit timers.
use vstd::prelude::*;

verus! {

/// The configured tick rate of the two timers, in ticks per second.
pub const TICKS_PER_SECOND: u64 = 60;

/// Length of one timer tick in nanoseconds, 1/60 of a second rounded up.
pub const TICK_INTERVAL_NANOS: u64 = 16_666_667;

/// One tick of a timer: it steps down by one unless it is already zero.
pub open spec fn spec_tick(t: u8) -> u8 {
    if t > 0 { (t - 1) as u8 } else { 0u8 }
}

/// The value of a timer after `n` ticks.
pub open spec fn spec_ticks(t: u8, n: nat) -> u8
    decreases n,
{
    if n == 0 { t } else { spec_tick(spec_ticks(t, (n - 1) as nat)) }
}

/// Whether enough wall-clock time has passed since the last tick for the
/// next one to be due. The caller measures `elapsed_nanos` on its own clock;
/// the decision depends on the configured rate alone, not on how fast
/// instructions execute.
pub fn tick_due(elapsed_nanos: u64) -> (r: bool)
    ensures
        r == (elapsed_nanos >= TICK_INTERVAL_NANOS),
{
    elapsed_nanos >= TICK_INTERVAL_NANOS
}

/// A timer decays by exactly one per tick until it reaches zero: after
/// `n` ticks it reads `t - n` while `n < t`, and zero from then on. In
/// particular a timer at 255 reaches zero after exactly 255 ticks at the
/// configured rate, and not before, however fast instructions run.
pub proof fn lemma_timer_decay(t: u8, n: nat)
    ensures
        spec_ticks(t, n) == (if n >= t { 0u8 } else { (t - n) as u8 }),
    decreases n,
{
    if n > 0 {
        lemma_timer_decay(t, (n - 1) as nat);
    }
}

} // verus!
