//! Pacing the emulation thread.
//!
//! A core must advance at its own rate — 59.7275 Hz on a Game Boy, 60.0988 Hz
//! on a SNES — so it runs on its own thread with its own clock. `pace` is that
//! clock's one decision: how long to sleep before the next frame, and when the
//! frame after it is due. Times are nanoseconds on one monotonic clock, as the
//! thread reads them from `Instant`.

use vstd::prelude::*;

verus! {

/// How far behind schedule the loop tolerates before giving up on catching
/// up, in nanoseconds (250 ms).
///
/// A laptop that sleeps mid-game wakes to a deadline hours in the past; without
/// the cap it would fast-forward through the whole interval. With it, a long
/// stall costs a dropped second rather than a burst of unplayable audio.
pub const MAX_CATCHUP_NANOS: u64 = 250_000_000;

/// The decision, over integers: `(sleep, next_deadline)`.
pub open spec fn pace_spec(now: int, deadline: int, period: int) -> (int, int) {
    if now >= deadline {
        // Behind schedule: run immediately. A small lag is absorbed by keeping
        // the original schedule; a long one restarts the schedule from now.
        if now - deadline > MAX_CATCHUP_NANOS {
            (0, now + period)
        } else {
            (0, deadline + period)
        }
    } else {
        (deadline - now, deadline + period)
    }
}

/// How long to sleep before the next `retro_run`, and the deadline for the
/// frame after that, both in nanoseconds.
pub fn pace(now: u64, deadline: u64, period: u64) -> (r: (u64, u64))
    requires
        now + period <= u64::MAX,
        deadline + period <= u64::MAX,
    ensures
        (r.0 as int, r.1 as int) == pace_spec(now as int, deadline as int, period as int),
{
    if now >= deadline {
        let behind = now - deadline;
        let next = if behind > MAX_CATCHUP_NANOS {
            now + period
        } else {
            deadline + period
        };
        (0, next)
    } else {
        (deadline - now, deadline + period)
    }
}

/// The schedule never drifts while frames run a little late: each deadline is
/// the previous one plus the period, so the rate holds on average.
pub proof fn lemma_small_lateness_keeps_the_schedule(now: int, deadline: int, period: int)
    requires
        deadline <= now <= deadline + MAX_CATCHUP_NANOS,
    ensures
        pace_spec(now, deadline, period) == (0int, deadline + period),
{
}

/// After a long stall the schedule restarts from now: the next deadline is
/// one period away, never in the past.
pub proof fn lemma_a_long_stall_restarts_the_schedule(now: int, deadline: int, period: int)
    requires
        now > deadline + MAX_CATCHUP_NANOS,
        period > 0,
    ensures
        pace_spec(now, deadline, period).0 == 0,
        now < pace_spec(now, deadline, period).1 <= now + period,
{
}

/// Ahead of schedule, the thread sleeps exactly until the deadline.
pub proof fn lemma_ahead_sleeps_until_the_deadline(now: int, deadline: int, period: int)
    requires
        now < deadline,
    ensures
        now + pace_spec(now, deadline, period).0 == deadline,
{
}

/// Frames that each run a fixed amount late, within the tolerance, keep the
/// schedule exactly: after `n` frames the deadline is `n` periods on.
pub proof fn lemma_no_drift_over_many_frames(start: int, period: int, late: int, n: nat)
    requires
        period > 0,
        0 <= late <= MAX_CATCHUP_NANOS,
    ensures
        deadline_after(start, period, late, n) == start + (n + 1) * period,
    decreases n,
{
    if n > 0 {
        lemma_no_drift_over_many_frames(start, period, late, (n - 1) as nat);
        let d = deadline_after(start, period, late, (n - 1) as nat);
        let now = start + n * period + late;
        let m = (n - 1) as nat;
        assert(m + 1 == n);
        assert(d == start + (m + 1) * period);
        assert(d == start + n * period);
        assert(d + period == start + (n + 1) * period) by (nonlinear_arith)
            requires
                d == start + n * period,
        ;
        assert(now >= d);
        assert(now - d <= MAX_CATCHUP_NANOS);
        assert(deadline_after(start, period, late, n) == pace_spec(now, d, period).1);
        assert(pace_spec(now, d, period).1 == d + period);
    } else {
        assert((n + 1) * period == period) by (nonlinear_arith)
            requires
                n == 0,
        ;
    }
}

/// The deadline after frame `n` runs `late` nanoseconds after its slot.
pub open spec fn deadline_after(start: int, period: int, late: int, n: nat) -> int
    decreases n,
{
    if n == 0 {
        start + period
    } else {
        pace_spec(start + n * period + late, deadline_after(start, period, late, (n - 1) as nat), period).1
    }
}

} // verus!
