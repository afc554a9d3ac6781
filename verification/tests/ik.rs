use walking_pattern::ik::{
    validate_inputs, validate_joint_names, IkError, IkInputChecks, IkStatus, JointRangeChecks,
    KinematicsError, LmAction, LmEvent, LmProgress, IK_JOINT_COUNT,
};
use walking_pattern::settings::SettingKey;

const INPUTS_PASS: IkInputChecks = IkInputChecks {
    invalid_setting: None,
    waist_pose_finite: true,
    target_pose_finite: true,
    initial_angles_finite: true,
    control_period_positive: true,
    previous_angles_finite: true,
};

const RANGE_PASS: JointRangeChecks =
    JointRangeChecks { limit_valid: true, initial_in_range: true, previous_in_range: true };

fn cassie_left_leg() -> Vec<String> {
    ["left-hip-roll", "left-hip-yaw", "left-hip-pitch", "left-knee", "left-foot"]
        .iter()
        .map(|name| name.to_string())
        .collect()
}

#[test]
fn accepts_the_cassie_left_leg_joint_names() {
    let names = cassie_left_leg();
    assert_eq!(names.len(), IK_JOINT_COUNT);
    assert_eq!(validate_joint_names(&names), Ok(()));
}

#[test]
fn rejects_blank_and_duplicate_joint_names() {
    let mut names = cassie_left_leg();
    names[1] = names[0].clone();
    assert_eq!(
        validate_joint_names(&names),
        Err(IkError::DuplicateJointName("left-hip-roll".to_string()))
    );

    let mut names = cassie_left_leg();
    names[3] = " \t".to_string();
    names[4] = names[0].clone();
    assert_eq!(validate_joint_names(&names), Err(IkError::InvalidJointName { index: 3 }));

    let mut names = cassie_left_leg();
    names[2] = String::new();
    assert_eq!(validate_joint_names(&names), Err(IkError::InvalidJointName { index: 2 }));
}

/// Runs the iteration control with scripted outcomes and returns the
/// reported iteration count and status.
fn run(max_iterations: usize, converged_at: Option<usize>, small_step_at: Option<usize>) -> (usize, IkStatus) {
    let (mut progress, mut action) = LmProgress::new(max_iterations);
    let mut updates = 0;
    loop {
        action = match action {
            LmAction::Evaluate => progress.next(LmEvent::Evaluated { converged: converged_at == Some(updates) }),
            LmAction::Step => {
                updates += 1;
                progress.next(LmEvent::Updated { step_small: small_step_at == Some(updates) })
            },
            LmAction::Finish { iterations, status } => return (iterations, status),
            LmAction::FinishAfterEvaluation { iterations, status } => return (iterations, status),
        };
    }
}

#[test]
fn reports_max_iterations_with_the_budget_as_iteration_count() {
    assert_eq!(run(1, None, None), (1, IkStatus::MaxIterations));
    assert_eq!(run(1024, None, None), (1024, IkStatus::MaxIterations));
}

#[test]
fn reports_convergence_and_small_steps_after_the_updates_applied() {
    assert_eq!(run(1024, Some(3), None), (3, IkStatus::Converged));
    assert_eq!(run(1024, Some(0), None), (0, IkStatus::Converged));
    assert_eq!(run(1024, None, Some(5)), (5, IkStatus::StepTooSmall));
    assert_eq!(run(5, None, Some(5)), (5, IkStatus::StepTooSmall));
}

#[test]
fn ik_errors_have_readable_messages() {
    assert_eq!(IkError::InvalidJointLimit { index: 2 }.message(), "関節2の可動範囲が不正です");
    assert_eq!(
        IkError::InvalidSettings("minimum_bias").message(),
        "IK設定値が不正です: minimum_bias"
    );
    assert_eq!(
        IkError::Kinematics(KinematicsError::new("closed-link evaluation failed")).message(),
        "運動学モデルの評価に失敗しました: closed-link evaluation failed"
    );
    assert_eq!(
        IkError::InvalidPose("target_foot_pose_in_world").message(),
        "target_foot_pose_in_worldの位置と姿勢は有限値でなければなりません"
    );
    assert_eq!(
        KinematicsError::new("closed-link evaluation failed").message(),
        "closed-link evaluation failed"
    );
}

#[test]
fn rejects_inputs_in_the_order_of_the_checks() {
    let names = cassie_left_leg();
    let ranges = [RANGE_PASS; 5];
    assert_eq!(validate_inputs(&INPUTS_PASS, &names, &ranges), Ok(()));

    let mut checks = INPUTS_PASS;
    checks.invalid_setting = Some(SettingKey::MinimumBias);
    checks.control_period_positive = false;
    assert_eq!(
        validate_inputs(&checks, &names, &ranges),
        Err(IkError::InvalidSettings("minimum_bias"))
    );

    let mut checks = INPUTS_PASS;
    checks.target_pose_finite = false;
    checks.previous_angles_finite = false;
    assert_eq!(
        validate_inputs(&checks, &names, &ranges),
        Err(IkError::InvalidPose("target_foot_pose_in_world"))
    );

    let mut checks = INPUTS_PASS;
    checks.previous_angles_finite = false;
    assert_eq!(validate_inputs(&checks, &names, &ranges), Err(IkError::InvalidPreviousJointAngles));

    let mut duplicate = cassie_left_leg();
    duplicate[1] = duplicate[0].clone();
    let mut ranges_with_bad_limit = ranges;
    ranges_with_bad_limit[2].limit_valid = false;
    assert!(matches!(
        validate_inputs(&INPUTS_PASS, &duplicate, &ranges_with_bad_limit),
        Err(IkError::DuplicateJointName(_))
    ));
    assert_eq!(
        validate_inputs(&INPUTS_PASS, &names, &ranges_with_bad_limit),
        Err(IkError::InvalidJointLimit { index: 2 })
    );

    let mut out_of_range = ranges;
    out_of_range[3].initial_in_range = false;
    out_of_range[4].limit_valid = false;
    assert_eq!(
        validate_inputs(&INPUTS_PASS, &names, &out_of_range),
        Err(IkError::InitialAngleOutOfRange { index: 3 })
    );

    let mut previous = ranges;
    previous[0].previous_in_range = false;
    assert_eq!(
        validate_inputs(&INPUTS_PASS, &names, &previous),
        Err(IkError::PreviousAngleOutOfRange { index: 0 })
    );
}
