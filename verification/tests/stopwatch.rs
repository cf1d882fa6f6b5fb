use moment::clock::{Clock, ManualClock, UtcClock};
use moment::stopwatch::{Progress, Stopwatch};

fn frac(p: Progress) -> f32 {
    p.num as f32 / p.den as f32
}

#[test]
fn test_stopwatch_progress() {
    let clock = ManualClock::new(0);

    let mut sw = Stopwatch::new(clock, 2000);
    assert_eq!(sw.remaining(), 2000);
    assert_eq!(frac(sw.progress()), 0.0);

    // time advancing without starting the stopwatch should not change remaining or progress
    sw.clock_mut().advance(1000);
    assert_eq!(sw.remaining(), 2000);
    assert_eq!(frac(sw.progress()), 0.0);

    // start the stopwatch and check that it counts down
    sw.start();

    // time advancing while running should decrease remaining and increase progress
    sw.clock_mut().advance(1000);
    assert_eq!(sw.remaining(), 1000);
    assert_eq!(frac(sw.progress()), 0.5);

    // time advancing while running should decrease remaining and increase progress
    sw.clock_mut().advance(1000);
    assert_eq!(sw.remaining(), 0);
    assert_eq!(frac(sw.progress()), 1.0);

    // time advancing after reaching the end should change remaining but not progress
    sw.clock_mut().advance(1000);
    assert_eq!(sw.remaining(), -1000);
    assert_eq!(frac(sw.progress()), 1.0);

    // stop the stopwatch and check that it stops counting down
    sw.stop();

    // time advancing while stopped
    sw.clock_mut().advance(1000);
    assert_eq!(sw.remaining(), -1000);
    assert_eq!(frac(sw.progress()), 1.0);
}

#[test]
fn test_stopwatch_display() {
    let sw0 = Stopwatch::new(ManualClock::new(0), 0);
    assert_eq!(sw0.display(), "00:00");

    let sw90 = Stopwatch::new(ManualClock::new(0), 90_000);
    assert_eq!(sw90.display(), "01:30");

    let sw150 = Stopwatch::new(ManualClock::new(0), 150_000);
    assert_eq!(sw150.display(), "02:30");

    let sw5999 = Stopwatch::new(ManualClock::new(0), 5_999_000);
    assert_eq!(sw5999.display(), "99:59");

    let sw7425 = Stopwatch::new(ManualClock::new(0), 7_425_000);
    assert_eq!(sw7425.display(), "123:45");
}

#[test]
fn test_add_time() {
    let mut sw = Stopwatch::new(ManualClock::new(0), 2000);
    assert_eq!(sw.remaining(), 2000);

    sw.add_time(1000);
    assert_eq!(sw.remaining(), 3000);

    sw.add_time(-2000);
    assert_eq!(sw.remaining(), 1000);
}

#[test]
fn progress_is_monotone_while_running() {
    let mut sw = Stopwatch::new(ManualClock::new(0), 10_000);
    sw.start();
    let mut last = frac(sw.progress());
    for _ in 0..15 {
        sw.clock_mut().advance(900);
        let cur = frac(sw.progress());
        assert!(cur >= last);
        last = cur;
    }
    assert_eq!(last, 1.0);
}

#[test]
fn progress_is_constant_while_stopped() {
    let mut sw = Stopwatch::new(ManualClock::new(0), 10_000);
    sw.start();
    sw.clock_mut().advance(4000);
    sw.stop();
    let p = sw.progress();
    sw.clock_mut().advance(123_456);
    assert_eq!(sw.progress(), p);
    assert_eq!(frac(p), 0.4);
}

#[test]
fn progress_is_clamped_on_both_sides() {
    // Far past the target: still exactly 1.
    let mut sw = Stopwatch::new(ManualClock::new(0), 2000);
    sw.start();
    sw.clock_mut().advance(1_000_000);
    assert_eq!(frac(sw.progress()), 1.0);

    // Elapsed driven below zero by moving the clock back: still exactly 0.
    let mut back = Stopwatch::new(ManualClock::new(0), 2000);
    back.start();
    back.clock_mut().advance(-5000);
    assert!(back.elapsed() < 0);
    assert_eq!(frac(back.progress()), 0.0);

    // A zero target is already expired.
    let mut zero = Stopwatch::new(ManualClock::new(0), 0);
    assert_eq!(frac(zero.progress()), 1.0);
    zero.start();
    zero.clock_mut().advance(1000);
    assert_eq!(frac(zero.progress()), 1.0);

    // A target driven negative degrades to already-expired as well.
    let mut neg = Stopwatch::new(ManualClock::new(0), 1000);
    neg.add_time(-3000);
    assert_eq!(neg.total_millis(), -2000);
    assert_eq!(frac(neg.progress()), 1.0);
}

#[test]
fn remaining_is_not_clamped() {
    let mut sw = Stopwatch::new(ManualClock::new(0), 1500);
    sw.start();
    sw.clock_mut().advance(4000);
    assert_eq!(sw.remaining(), -2500);
    sw.stop();
    assert_eq!(sw.remaining(), -2500);

    // Negative elapsed makes remaining exceed the target.
    let mut back = Stopwatch::new(ManualClock::new(0), 1500);
    back.start();
    back.clock_mut().advance(-1000);
    assert_eq!(back.remaining(), 2500);
}

#[test]
fn toggle_twice_preserves_state_and_elapsed() {
    // From running: stop then start with no time in between.
    let mut sw = Stopwatch::new(ManualClock::new(0), 10_000);
    sw.start();
    sw.clock_mut().advance(500);
    sw.toggle();
    assert!(!sw.running());
    sw.toggle();
    assert!(sw.running());
    assert_eq!(sw.elapsed(), 500);
    sw.clock_mut().advance(250);
    assert_eq!(sw.elapsed(), 750);

    // From stopped: start then stop with no time in between.
    let mut st = Stopwatch::new(ManualClock::new(0), 10_000);
    st.clock_mut().advance(800);
    st.toggle();
    assert!(st.running());
    st.toggle();
    assert!(!st.running());
    assert_eq!(st.elapsed(), 0);
}

#[test]
fn toggle_accumulates_exactly_the_running_time() {
    // Toggle on at one instant, off at a later one: the accumulator grows
    // by exactly the gap, and only while running.
    let mut sw = Stopwatch::new(ManualClock::new(100), 10_000);
    assert_eq!(sw.accumulated_millis(), 0);
    sw.toggle();
    sw.clock_mut().advance(450);
    sw.toggle();
    assert!(!sw.running());
    assert_eq!(sw.accumulated_millis(), 450);
    sw.clock_mut().advance(9999);
    assert_eq!(sw.accumulated_millis(), 450);
    assert_eq!(sw.elapsed(), 450);
}

#[test]
fn lap_resets_accumulator_and_keeps_running() {
    let mut sw = Stopwatch::new(ManualClock::new(0), 10_000);
    sw.start();
    sw.clock_mut().advance(1500);
    assert_eq!(sw.lap(), 1500);
    assert!(sw.running());
    assert_eq!(sw.elapsed(), 0);
    sw.clock_mut().advance(300);
    assert_eq!(sw.elapsed(), 300);
}

#[test]
fn lap_while_stopped_returns_stopped_elapsed() {
    let mut sw = Stopwatch::new(ManualClock::new(0), 10_000);
    sw.start();
    sw.clock_mut().advance(700);
    sw.stop();
    sw.clock_mut().advance(900);
    assert_eq!(sw.lap(), 700);
    assert!(!sw.running());
    assert_eq!(sw.elapsed(), 0);
}

#[test]
fn countdown_scenario_two_seconds() {
    // Construct with a two-second target, clock at zero, and walk the clock
    // one second at a time across the boundary and into overrun.
    let mut sw = Stopwatch::new(ManualClock::new(0), 2000);
    sw.start();

    sw.clock_mut().advance(1000);
    assert_eq!(sw.remaining(), 1000);
    assert_eq!(frac(sw.progress()), 0.5);

    sw.clock_mut().advance(1000);
    assert_eq!(sw.remaining(), 0);
    assert_eq!(frac(sw.progress()), 1.0);

    sw.clock_mut().advance(1000);
    assert_eq!(sw.remaining(), -1000);
    assert_eq!(frac(sw.progress()), 1.0);

    sw.stop();
    sw.clock_mut().advance(1000);
    assert_eq!(sw.remaining(), -1000);
}

#[test]
fn display_of_overrun_uses_absolute_value() {
    let mut sw = Stopwatch::new(ManualClock::new(0), 0);
    sw.start();
    sw.clock_mut().advance(61_000);
    assert_eq!(sw.remaining(), -61_000);
    assert_eq!(sw.display(), "01:01");
}

#[test]
fn display_truncates_to_whole_seconds() {
    let sw = Stopwatch::new(ManualClock::new(0), 90_999);
    assert_eq!(sw.display(), "01:30");
}

#[test]
fn elapsed_accumulates_over_intervals() {
    let mut sw = Stopwatch::new(ManualClock::new(0), 60_000);
    sw.start();
    sw.clock_mut().advance(1000);
    sw.stop();
    sw.clock_mut().advance(5000);
    sw.start();
    sw.clock_mut().advance(2000);
    sw.stop();
    assert_eq!(sw.elapsed(), 3000);
    assert_eq!(sw.remaining(), 57_000);
}

#[test]
fn starting_twice_keeps_the_first_interval() {
    let mut sw = Stopwatch::new(ManualClock::new(0), 60_000);
    sw.start();
    sw.clock_mut().advance(1000);
    sw.start();
    assert_eq!(sw.elapsed(), 1000);
    sw.stop();
    sw.stop();
    assert_eq!(sw.elapsed(), 1000);
}

#[test]
fn utc_clock_reads_the_wall_clock() {
    let c = UtcClock::new();
    let t1 = c.now();
    let t2 = c.now();
    // The wall clock of any machine running this sits after the Unix epoch
    // and far inside the representable range.
    assert!(t1 > 0);
    assert!(t2 > 0);
    assert!((t2 - t1).abs() < 60_000);

    let sw = Stopwatch::new(UtcClock::new(), 10_000);
    assert!(!sw.running());
    assert!(sw.remaining() <= 10_000);
    assert!(sw.clock().now() > 0);
}
