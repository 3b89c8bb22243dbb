use fractal_core::rule::Rule;
use fractal_core::search::{discovery_points, has_params, param_count, split_params, tracking_steps, warmup_steps};
use fractal_core::trial::{judge_step, FixedPointGuard, StepVerdict, STUCK_LIMIT};

#[test]
fn parameter_counts() {
    assert_eq!(param_count(false), 6);
    assert_eq!(param_count(true), 10);
    assert!(has_params(6, 6, false));
    assert!(!has_params(6, 5, false));
    assert!(!has_params(10, 9, true));
    assert!(has_params(12, 10, true));
}

#[test]
fn packed_parameters_split_by_length() {
    assert_eq!(split_params(12), Some((false, 6)));
    assert_eq!(split_params(20), Some((true, 10)));
    assert_eq!(split_params(14), None);
    assert_eq!(split_params(6), None);
    assert_eq!(split_params(0), None);
}

#[test]
fn sample_sizes() {
    assert_eq!(discovery_points(20), 20);
    assert_eq!(discovery_points(5_000_000), 1_000_000);
    assert_eq!(warmup_steps(100), 100);
    assert_eq!(warmup_steps(2_000), 2_000);
    assert_eq!(warmup_steps(50_000), 10_000);
    assert_eq!(tracking_steps(100), 1);
    assert_eq!(tracking_steps(50_000), 40_000);
}

#[test]
fn escape_fails_a_trial_at_once() {
    let mut g = FixedPointGuard::new();
    assert_eq!(judge_step(&mut g, true, false), StepVerdict::Diverged);
    assert_eq!(judge_step(&mut g, true, true), StepVerdict::Diverged);
    assert_eq!(g.stuck(), 0);
}

#[test]
fn fifteen_still_steps_fail_a_trial() {
    let mut g = FixedPointGuard::new();
    for _ in 0..STUCK_LIMIT - 1 {
        assert_eq!(judge_step(&mut g, false, true), StepVerdict::Continue);
    }
    assert_eq!(g.stuck(), 14);
    assert_eq!(judge_step(&mut g, false, true), StepVerdict::Stuck);
}

#[test]
fn movement_forgives_still_steps() {
    let mut g = FixedPointGuard::new();
    assert_eq!(judge_step(&mut g, false, false), StepVerdict::Continue);
    assert_eq!(g.stuck(), 0);
    for _ in 0..10 {
        judge_step(&mut g, false, true);
    }
    for _ in 0..3 {
        judge_step(&mut g, false, false);
    }
    assert_eq!(g.stuck(), 7);
    for _ in 0..7 {
        assert_eq!(judge_step(&mut g, false, true), StepVerdict::Continue);
    }
    assert_eq!(judge_step(&mut g, false, true), StepVerdict::Stuck);
}

#[test]
fn rule_forbids_only_while_the_window_is_uniform() {
    let mut r = Rule::new(2, 1, false);
    assert!(!r.check(4, 1));
    r.add(2);
    assert!(!r.check(4, 3));
    r.add(2);
    assert!(r.check(4, 3));
    assert!(!r.check(4, 1));
    r.add(0);
    assert!(!r.check(4, 1));
}

#[test]
fn rule_with_negative_offset_counts_backwards() {
    let mut r = Rule::new(2, -1, false);
    r.add(2);
    r.add(2);
    assert!(r.check(4, 1));
    assert!(!r.check(4, 3));
}

#[test]
fn symmetric_rule_forbids_both_neighbours() {
    let mut r = Rule::new(3, 1, true);
    r.add(1);
    r.add(1);
    r.add(1);
    assert!(r.check(5, 2));
    assert!(r.check(5, 0));
    assert!(!r.check(5, 3));
    assert!(!r.check(5, 1));
}

#[test]
fn rule_uses_truncating_remainder() {
    // 0 - 3 = -3, and -3 % 4 is -3 in Rust, not 1
    let mut r = Rule::new(2, 1, false);
    r.add(3);
    r.add(3);
    assert!(!r.check(4, 0));
    assert!(r.check(4, 4));
}

#[test]
fn rule_of_length_zero_never_forbids() {
    let mut r = Rule::new(0, 0, false);
    r.add(1);
    assert!(!r.check(3, 1));
    let mut one = Rule::new(1, 0, false);
    one.add(2);
    assert!(!one.check(3, 2));
}
