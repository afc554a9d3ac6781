use walking_pattern::trajectory::{
    sample_schedule, validate, ComSample, GenerationChecks, GenerationError,
};

const ALL_PASS: GenerationChecks = GenerationChecks {
    foot_positions_finite: true,
    foot_step_waist_height_positive: true,
    foot_step_walking_time_positive: true,
    control_cycle_positive: true,
    walking_cycle_positive: true,
    waist_height_positive: true,
    waist_heights_equal: true,
    walking_cycles_equal: true,
    cycle_ratio_integral: true,
};

fn segments_started(schedule: &[ComSample]) -> usize {
    let mut count = 0;
    for (p, sample) in schedule.iter().enumerate() {
        if p == 0 || schedule[p - 1].segment != sample.segment {
            count += 1;
        }
    }
    count
}

#[test]
fn default_footsteps_give_the_sample_count_of_the_reference_trajectory() {
    // Eight footholds and a 0.8 s walking cycle sampled every 0.01 s.
    let schedule = sample_schedule(8, 80);
    assert_eq!(schedule.len(), 554);
    assert_eq!(segments_started(&schedule), 7);
    assert_eq!(schedule[0], ComSample { segment: 0, sample_index: 0 });
    assert_eq!(schedule[79], ComSample { segment: 0, sample_index: 79 });
    assert_eq!(schedule[80], ComSample { segment: 1, sample_index: 1 });
    assert_eq!(schedule[553], ComSample { segment: 6, sample_index: 79 });
}

#[test]
fn two_footholds_give_one_complete_segment() {
    let schedule = sample_schedule(2, 80);
    assert_eq!(schedule.len(), 80);
    assert_eq!(segments_started(&schedule), 1);
    assert!(schedule.iter().enumerate().all(|(p, s)| s.segment == 0 && s.sample_index == p));
}

#[test]
fn other_integral_cycle_ratios_scale_the_sample_count() {
    // A 0.02 s control cycle: 40 samples per walking cycle.
    let schedule = sample_schedule(8, 40);
    assert_eq!(schedule.len(), 274);
    assert_eq!(segments_started(&schedule), 7);
}

#[test]
fn one_control_cycle_per_walking_cycle_samples_each_segment_once() {
    let schedule = sample_schedule(4, 1);
    assert_eq!(
        schedule,
        vec![
            ComSample { segment: 0, sample_index: 0 },
            ComSample { segment: 1, sample_index: 1 },
            ComSample { segment: 2, sample_index: 1 },
        ]
    );
    let schedule = sample_schedule(3, 2);
    assert_eq!(
        schedule,
        vec![
            ComSample { segment: 0, sample_index: 0 },
            ComSample { segment: 0, sample_index: 1 },
            ComSample { segment: 1, sample_index: 1 },
        ]
    );
}

#[test]
fn too_few_footholds_are_refused_before_any_other_check() {
    let mut checks = ALL_PASS;
    checks.foot_positions_finite = false;
    assert_eq!(validate(1, &checks), Err(GenerationError::TooFewFootsteps));
    assert_eq!(validate(8, &checks), Err(GenerationError::NonFiniteFootPosition));
    assert_eq!(validate(2, &ALL_PASS), Ok(()));
}

#[test]
fn checks_are_reported_in_order() {
    let mut checks = ALL_PASS;
    checks.cycle_ratio_integral = false;
    assert_eq!(validate(8, &checks), Err(GenerationError::NonIntegralCycleRatio));
    checks.walking_cycles_equal = false;
    assert_eq!(validate(8, &checks), Err(GenerationError::InconsistentWalkingCycle));
    checks.waist_heights_equal = false;
    assert_eq!(validate(8, &checks), Err(GenerationError::InconsistentWaistHeight));
    checks.waist_height_positive = false;
    assert_eq!(validate(8, &checks), Err(GenerationError::NonPositiveWaistHeight));
    checks.walking_cycle_positive = false;
    assert_eq!(validate(8, &checks), Err(GenerationError::NonPositiveWalkingCycle));
    checks.control_cycle_positive = false;
    assert_eq!(validate(8, &checks), Err(GenerationError::NonPositiveControlCycle));
    checks.foot_step_walking_time_positive = false;
    assert_eq!(validate(8, &checks), Err(GenerationError::NonPositiveFootStepWalkingTime));
    checks.foot_step_waist_height_positive = false;
    assert_eq!(validate(8, &checks), Err(GenerationError::NonPositiveFootStepWaistHeight));
}

#[test]
fn generation_errors_have_readable_messages() {
    assert_eq!(GenerationError::TooFewFootsteps.message(), "足位置は少なくとも 2 点必要です");
    assert_eq!(
        GenerationError::NonIntegralCycleRatio.message(),
        "walking_cycle は control_cycle の整数倍でなければなりません"
    );
}
