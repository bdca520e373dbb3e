use standby_core::sched::{
    default_targets, iteration_budget, zoom_log2_at, FramePacer, Scheduler,
};

// The configuration of the standby display: a 490 s cycle, zoom from
// 0.7 (log2 = -0.515) down to 0.0006 (log2 = -10.703).
const CYCLE_MICROS: u64 = 490_000_000;
const START_LOG2: i64 = -515;
const MIN_LOG2: i64 = -10_703;

fn standby_scheduler() -> Scheduler {
    Scheduler::new(default_targets(), CYCLE_MICROS, START_LOG2, MIN_LOG2)
}

#[test]
fn zoom_hits_both_endpoints_exactly() {
    assert_eq!(zoom_log2_at(START_LOG2, MIN_LOG2, 0), START_LOG2);
    assert_eq!(zoom_log2_at(START_LOG2, MIN_LOG2, 1_000_000), MIN_LOG2);
    // And for other bounds too.
    assert_eq!(zoom_log2_at(5_000, -20_000, 0), 5_000);
    assert_eq!(zoom_log2_at(5_000, -20_000, 1_000_000), -20_000);
}

#[test]
fn zoom_is_monotone_and_in_range() {
    let mut last = zoom_log2_at(START_LOG2, MIN_LOG2, 0);
    for i in 0..=100 {
        let z = zoom_log2_at(START_LOG2, MIN_LOG2, i * 10_000);
        assert!(z <= last);
        assert!(MIN_LOG2 <= z && z <= START_LOG2);
        last = z;
    }
}

#[test]
fn iteration_budget_is_clamped() {
    // Sweep the whole accepted zoom range: never below 80, never
    // above 1024.
    let mut z = -100_000i64;
    while z <= 100_000 {
        let n = iteration_budget(START_LOG2, z);
        assert!((80..=1024).contains(&n));
        z += 997;
    }
    // At the start zoom the budget is the floor.
    assert_eq!(iteration_budget(START_LOG2, START_LOG2), 80);
    // A zoom above the start still gives the floor.
    assert_eq!(iteration_budget(START_LOG2, START_LOG2 + 3_000), 80);
    // At the deepest zoom of the standby configuration: 10.188 extra
    // doublings give 80 + 203 iterations.
    assert_eq!(iteration_budget(START_LOG2, MIN_LOG2), 283);
    // Deep enough, the cap takes over.
    assert_eq!(iteration_budget(START_LOG2, -100_000), 1024);
}

#[test]
fn cycle_completion_advances_target_once() {
    let mut s = standby_scheduler();
    assert_eq!(s.target_index, 0);
    s.tick(CYCLE_MICROS - 1);
    assert_eq!(s.target_index, 0);
    assert_eq!(s.cycle_elapsed_micros, CYCLE_MICROS - 1);
    s.tick(1);
    assert_eq!(s.target_index, 1);
    assert_eq!(s.cycle_elapsed_micros, 0);
}

#[test]
fn target_index_wraps_around_the_list() {
    let mut s = standby_scheduler();
    let len = 5;
    for round in 1..=13u64 {
        s.tick(CYCLE_MICROS);
        assert_eq!(s.target_index as u64, round % len);
        assert!(s.target_index < len as usize);
    }
}

#[test]
fn degenerate_frame_resets_cycle_and_zoom() {
    let mut s = standby_scheduler();
    s.tick(100_000_000);
    assert!(s.cycle_elapsed_micros > 0);
    assert!(s.current_zoom_log2_milli() < START_LOG2);
    // 99% interior: over the 98.5% threshold.
    let degenerate = s.note_frame(990, 1000);
    assert!(degenerate);
    assert_eq!(s.target_index, 1);
    assert_eq!(s.cycle_elapsed_micros, 0);
    assert_eq!(s.progress_ppm(), 0);
    assert_eq!(s.current_zoom_log2_milli(), START_LOG2);
}

#[test]
fn non_degenerate_frame_changes_nothing() {
    let mut s = standby_scheduler();
    s.tick(100_000_000);
    let index = s.target_index;
    let elapsed = s.cycle_elapsed_micros;
    // Exactly 98.5% interior does not exceed the threshold.
    assert!(!s.note_frame(985, 1000));
    assert!(!s.note_frame(0, 1000));
    assert!(!s.note_frame(980, 1000));
    assert_eq!(s.target_index, index);
    assert_eq!(s.cycle_elapsed_micros, elapsed);
}

#[test]
fn degenerate_frame_wraps_from_last_target() {
    let mut s = standby_scheduler();
    for _ in 0..4 {
        s.tick(CYCLE_MICROS);
    }
    assert_eq!(s.target_index, 4);
    assert!(s.note_frame(1000, 1000));
    assert_eq!(s.target_index, 0);
}

#[test]
fn frame_pacer_fires_on_the_interval() {
    let mut g = FramePacer::new(8_333);
    assert!(!g.tick(8_000));
    assert!(g.tick(400));
    // The overshoot is carried into the next period.
    assert_eq!(g.elapsed_micros, 67);
    assert!(!g.tick(1));
    assert!(g.tick(20_000));
}

#[test]
fn scheduler_budget_grows_within_a_cycle() {
    let mut s = standby_scheduler();
    assert_eq!(s.current_max_iter(), 80);
    s.tick(CYCLE_MICROS / 2);
    let mid = s.current_max_iter();
    assert!(mid > 80);
    s.tick(CYCLE_MICROS / 2 - 1);
    let late = s.current_max_iter();
    assert!(late >= mid);
    assert!(late <= 1024);
}

#[test]
fn current_target_follows_the_index() {
    let mut s = standby_scheduler();
    let t0 = s.current_target();
    assert_eq!((t0.x, t0.y), (-743_643_887, 131_825_904));
    s.tick(CYCLE_MICROS);
    let t1 = s.current_target();
    assert_eq!((t1.x, t1.y), (-1_250_660_000, 20_120_000));
}

#[test]
fn orbit_phases_use_distinct_frequencies() {
    let mut s = standby_scheduler();
    s.tick(100_000_000);
    let (p1, p2) = s.orbit_phases();
    // 100 s at 0.11 and 0.13 rad/s, in microradians.
    assert_eq!(p1, 11_000_000);
    assert_eq!(p2, 13_000_000);
}
