use rustromm::libretro::emu::pace;

/// 59.7275 fps, in nanoseconds.
const PERIOD: u64 = 16_744_000;
const MS: u64 = 1_000_000;
/// An arbitrary moment on the monotonic clock, far from zero.
const START: u64 = 7_200_000 * MS;

#[test]
fn pacing_sleeps_until_the_deadline_when_ahead() {
    let now = START;
    let deadline = now + 10 * MS;
    let (sleep, next) = pace(now, deadline, PERIOD);
    assert!(sleep >= 9 * MS && sleep <= 10 * MS);
    assert_eq!(sleep, 10 * MS);
    assert_eq!(next, deadline + PERIOD);
}

#[test]
fn pacing_runs_immediately_when_slightly_behind() {
    let now = START;
    let deadline = now - 5 * MS;
    let (sleep, next) = pace(now, deadline, PERIOD);
    assert_eq!(sleep, 0);
    assert_eq!(next, deadline + PERIOD);
}

#[test]
fn pacing_gives_up_catching_up_after_a_long_stall() {
    let now = START;
    let deadline = now - 3_600_000 * MS;
    let (sleep, next) = pace(now, deadline, PERIOD);
    assert_eq!(sleep, 0);
    assert!(
        next > now && next <= now + PERIOD,
        "after a long stall the schedule must restart from now, not from an hour ago"
    );
}

#[test]
fn pacing_absorbs_a_run_of_slightly_late_frames_without_drifting() {
    let start = START;
    let mut deadline = start + PERIOD;
    let late = 500_000;
    for i in 1..=100u64 {
        let now = start + PERIOD * i + late;
        let (_, next) = pace(now, deadline, PERIOD);
        deadline = next;
    }
    let expected = start + PERIOD * 101;
    let drift = if deadline > expected {
        deadline - expected
    } else {
        expected - deadline
    };
    assert!(drift < 100_000, "schedule drifted by {drift} ns over 100 frames");
}

#[test]
fn exactly_on_time_runs_at_once_and_keeps_the_schedule() {
    let (sleep, next) = pace(START, START, PERIOD);
    assert_eq!((sleep, next), (0, START + PERIOD));
}
