use tetry::timer::{Timer, TimerMode};

#[test]
fn new_timer_has_not_run() {
    let timer = Timer::new(500, TimerMode::Repeating);
    assert_eq!(timer.duration, 500);
    assert_eq!(timer.elapsed, 0);
    assert_eq!(timer.mode, TimerMode::Repeating);
    assert!(!timer.finished());
}

#[test]
fn once_timer_stays_finished() {
    let mut timer = Timer::new(1_000, TimerMode::Once);
    timer.tick(400);
    assert!(!timer.finished());
    assert_eq!(timer.elapsed, 400);
    timer.tick(700);
    assert!(timer.finished());
    assert_eq!(timer.elapsed, 1_000);
    timer.tick(5);
    assert!(timer.finished());
    assert_eq!(timer.elapsed, 1_000);
}

#[test]
fn once_timer_finishes_exactly_at_its_duration() {
    let mut timer = Timer::new(1_000, TimerMode::Once);
    timer.tick(999);
    assert!(!timer.finished());
    timer.tick(1);
    assert!(timer.finished());
    assert_eq!(timer.elapsed, 1_000);
}

#[test]
fn repeating_timer_wraps_around() {
    let mut timer = Timer::new(1_000, TimerMode::Repeating);
    timer.tick(600);
    assert!(!timer.finished());
    assert_eq!(timer.elapsed, 600);
    timer.tick(600);
    assert!(timer.finished());
    assert_eq!(timer.elapsed, 200);
    timer.tick(100);
    assert!(!timer.finished());
    assert_eq!(timer.elapsed, 300);
}

#[test]
fn repeating_timer_wraps_over_several_durations() {
    let mut timer = Timer::new(1_000, TimerMode::Repeating);
    timer.tick(3_500);
    assert!(timer.finished());
    assert_eq!(timer.elapsed, 500);
}

#[test]
fn reset_winds_the_timer_back() {
    let mut timer = Timer::new(1_000, TimerMode::Once);
    timer.tick(1_500);
    assert!(timer.finished());
    timer.reset();
    assert!(!timer.finished());
    assert_eq!(timer.elapsed, 0);
    assert_eq!(timer.duration, 1_000);
    assert_eq!(timer.mode, TimerMode::Once);
    timer.tick(10);
    assert_eq!(timer.elapsed, 10);
}

#[test]
fn timer_of_no_duration_finishes_on_every_tick() {
    let mut repeating = Timer::new(0, TimerMode::Repeating);
    repeating.tick(0);
    assert!(repeating.finished());
    assert_eq!(repeating.elapsed, 0);
    repeating.tick(17);
    assert!(repeating.finished());
    assert_eq!(repeating.elapsed, 0);
    let mut once = Timer::new(0, TimerMode::Once);
    once.tick(0);
    assert!(once.finished());
    assert_eq!(once.elapsed, 0);
}

#[test]
fn elapsed_time_beyond_the_largest_value_is_not_lost() {
    let mut timer = Timer::new(u64::MAX, TimerMode::Repeating);
    timer.tick(u64::MAX - 1);
    assert!(!timer.finished());
    assert_eq!(timer.elapsed, u64::MAX - 1);
    timer.tick(10);
    assert!(timer.finished());
    assert_eq!(timer.elapsed, 9);
    let mut once = Timer::new(u64::MAX, TimerMode::Once);
    once.tick(u64::MAX - 1);
    once.tick(u64::MAX);
    assert!(once.finished());
    assert_eq!(once.elapsed, u64::MAX);
}

#[test]
fn timer_is_consistent_after_every_step() {
    let mut timer = Timer::new(1_000, TimerMode::Once);
    assert!(timer.is_wf());
    for delta in [0, 999, 1, 5, 2_000] {
        timer.tick(delta);
        assert!(timer.is_wf());
    }
    timer.reset();
    assert!(timer.is_wf());
    let broken = Timer { duration: 10, elapsed: 11, mode: TimerMode::Repeating, finished: false };
    assert!(!broken.is_wf());
    let unfinished = Timer { duration: 10, elapsed: 10, mode: TimerMode::Once, finished: false };
    assert!(!unfinished.is_wf());
    let overrun = Timer { duration: 10, elapsed: 3, mode: TimerMode::Once, finished: true };
    assert!(!overrun.is_wf());
}

fn run_beside_bevy(duration: u64, mode: TimerMode, deltas: &[u64]) {
    let bevy_mode = match mode {
        TimerMode::Once => bevy::time::TimerMode::Once,
        TimerMode::Repeating => bevy::time::TimerMode::Repeating,
    };
    let mut ours = Timer::new(duration, mode);
    let mut theirs = bevy::time::Timer::new(std::time::Duration::from_nanos(duration), bevy_mode);
    for &delta in deltas {
        ours.tick(delta);
        theirs.tick(std::time::Duration::from_nanos(delta));
        assert_eq!(ours.elapsed as u128, theirs.elapsed().as_nanos());
        assert_eq!(ours.finished(), theirs.finished());
    }
    ours.reset();
    theirs.reset();
    assert_eq!(ours.elapsed as u128, theirs.elapsed().as_nanos());
    assert_eq!(ours.finished(), theirs.finished());
    for &delta in deltas {
        ours.tick(delta);
        theirs.tick(std::time::Duration::from_nanos(delta));
        assert_eq!(ours.elapsed as u128, theirs.elapsed().as_nanos());
        assert_eq!(ours.finished(), theirs.finished());
    }
}

#[test]
fn timer_keeps_time_as_the_engine_timer_does() {
    let deltas = [
        0,
        1,
        16_666_667,
        16_666_667,
        33_333_333,
        499_999_999,
        1,
        500_000_000,
        1_250_000_000,
        0,
        7,
        u64::MAX,
        u64::MAX - 1,
        3,
    ];
    for duration in [0, 1, 2, 50_000_000, 66_666_667, 200_000_000, 500_000_000, u64::MAX] {
        run_beside_bevy(duration, TimerMode::Once, &deltas);
        run_beside_bevy(duration, TimerMode::Repeating, &deltas);
    }
}

#[test]
fn tick_of_no_time_changes_nothing_before_the_end() {
    let mut timer = Timer::new(100, TimerMode::Repeating);
    timer.tick(40);
    timer.tick(0);
    assert_eq!(timer.elapsed, 40);
    assert!(!timer.finished());
}
